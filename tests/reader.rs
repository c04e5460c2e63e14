use std::cmp::min;

use torrent_poc::{
    FrameError, FrameReader, Handshake, InfoHash, Message, PeerId, ReaderVerdict, SansIo, Unknown,
};

/// A byte source that hands out its responses in order, each as far as the
/// buffer reaches, and records the size of every read that returned bytes.
struct MockReader {
    responses: Vec<Vec<u8>>,
    reads: Vec<usize>,
    current_index: usize,
    current_offset: usize,
}

impl MockReader {
    fn new(responses: Vec<Vec<u8>>) -> Self {
        Self {
            responses,
            reads: vec![],
            current_index: 0,
            current_offset: 0,
        }
    }

    fn read(&mut self, buf: &mut [u8]) -> usize {
        if self.current_index >= self.responses.len() {
            return 0;
        }
        let source = &self.responses[self.current_index][self.current_offset..];
        let limit = min(buf.len(), source.len());
        buf[..limit].copy_from_slice(&source[..limit]);
        self.reads.push(limit);
        if limit == source.len() {
            self.current_index += 1;
            self.current_offset = 0;
        } else {
            self.current_offset += limit;
        }
        limit
    }
}

/// Runs a reader over the source until it stops: the messages it delivered and
/// why it stopped.
fn run(initial_buffer_size: usize, source: &mut MockReader) -> (Vec<Message>, ReaderVerdict) {
    let mut reader = FrameReader::new(initial_buffer_size);
    let mut delivered = vec![];
    loop {
        let mut chunk = vec![255u8; reader.free_space()];
        let n = source.read(&mut chunk);
        let step = reader.receive_bytes(&chunk[..n]);
        delivered.extend(step.messages);
        if step.verdict != ReaderVerdict::Continue {
            return (delivered, step.verdict);
        }
    }
}

#[test]
fn test_receive_within_buffer_size() {
    let handshake = Handshake::new(InfoHash::new([1; 20]), PeerId::new([2; 20]));
    let mut reader = MockReader::new(vec![handshake.encode()]);

    let (messages, _) = run(1024, &mut reader);

    assert_eq!(messages[0], Message::Handshake(handshake));
    assert_eq!(reader.reads, vec![68]);
}

#[test]
fn test_receive_outside_buffer_size() {
    let handshake = Handshake::new(InfoHash::new([11; 20]), PeerId::new([22; 20]));
    let mut reader = MockReader::new(vec![handshake.encode()]);

    let (messages, _) = run(1, &mut reader);

    assert_eq!(messages[0], Message::Handshake(handshake));
    assert_eq!(reader.reads, vec![1, 1, 2, 4, 8, 16, 32, 4]);
}

#[test]
fn test_receive_incomplete_message() {
    let handshake = Handshake::new(InfoHash::new([11; 20]), PeerId::new([22; 20]));
    let handshake_bytes = handshake.encode();

    let split_point = 30;

    let mut reader = MockReader::new(vec![
        handshake_bytes[..split_point].to_vec(),
        handshake_bytes[split_point..].to_vec(),
    ]);

    let (messages, _) = run(1024, &mut reader);

    assert_eq!(messages[0], Message::Handshake(handshake));
    assert_eq!(
        reader.reads,
        vec![split_point, handshake_bytes.len() - split_point]
    );
}

#[test]
fn test_receive_two_incomplete_messages() {
    let handshake1 = Handshake::new(InfoHash::new([11; 20]), PeerId::new([22; 20]));
    let handshake1_bytes = handshake1.encode();
    let handshake2 = Handshake::new(InfoHash::new([33; 20]), PeerId::new([44; 20]));
    let handshake2_bytes = handshake2.encode();

    let split_point = 30;
    let mut part1_bytes = handshake1_bytes;
    part1_bytes.extend(handshake2_bytes[..split_point].to_vec());
    let part2_bytes = handshake2_bytes[split_point..].to_vec();

    let mut reader = MockReader::new(vec![part1_bytes.clone(), part2_bytes.clone()]);

    let (messages, _) = run(1024, &mut reader);

    assert_eq!(messages[0], Message::Handshake(handshake1));
    assert_eq!(messages[1], Message::Handshake(handshake2));
    assert_eq!(reader.reads, vec![part1_bytes.len(), part2_bytes.len()]);
}

#[test]
fn test_receive_unknown_message() {
    // the frame declares 9 bytes after its length, but only 5 arrive
    let mut reader = MockReader::new(vec![[0, 0, 0, 9, 15].to_vec(), b"test".to_vec()]);

    let (messages, verdict) = run(1024, &mut reader);

    assert!(messages.is_empty());
    assert_eq!(verdict, ReaderVerdict::Closed);
}

#[test]
fn one_read_yields_every_whole_frame() {
    let mut bytes = vec![0, 0, 0, 0];
    bytes.extend([0, 0, 0, 2, 7, 9]);
    bytes.extend([0, 0, 0, 0]);
    let mut reader = MockReader::new(vec![bytes]);

    let (messages, verdict) = run(64, &mut reader);

    assert_eq!(messages.len(), 3);
    assert_eq!(messages[1], Message::Unknown(Unknown::new(7, vec![9])));
    assert_eq!(verdict, ReaderVerdict::Closed);
    assert_eq!(reader.reads, vec![14]);
}

#[test]
fn oversize_frame_stops_the_reader() {
    let mut reader = MockReader::new(vec![vec![0, 0x20, 0, 0, 1, 2, 3], vec![4; 100]]);

    let (messages, verdict) = run(16, &mut reader);

    assert!(messages.is_empty());
    assert_eq!(
        verdict,
        ReaderVerdict::Malformed(FrameError::Oversize { length: 0x20_0000 })
    );
    assert_eq!(reader.reads, vec![7]);
}

#[test]
fn frame_larger_than_the_cap_overflows() {
    let mut frame = vec![0, 0x01, 0, 0, 5];
    frame.extend(vec![1; 0x1_0000]);
    let mut reader = MockReader::new(vec![frame]);

    let (messages, verdict) = run(1024, &mut reader);

    assert!(messages.is_empty());
    assert_eq!(verdict, ReaderVerdict::Overflow);
    assert_eq!(reader.reads.iter().sum::<usize>(), 65536);
}

#[test]
fn frame_that_fills_the_cap_is_delivered() {
    let mut frame = vec![0, 0, 0xff, 0xfc, 5];
    frame.extend(vec![1; 0xfffb]);
    assert_eq!(frame.len(), 65536);
    let mut reader = MockReader::new(vec![frame]);

    let (messages, verdict) = run(1024, &mut reader);

    assert_eq!(messages.len(), 1);
    assert_eq!(verdict, ReaderVerdict::Closed);
}

#[test]
fn zero_bytes_close_the_reader() {
    let mut reader = FrameReader::new(8);
    let step = reader.receive_bytes(&[]);
    assert!(step.messages.is_empty());
    assert_eq!(step.verdict, ReaderVerdict::Closed);
    assert_eq!(reader.free_space(), 8);
}

#[test]
fn full_buffer_doubles() {
    let mut reader = FrameReader::new(4);
    let step = reader.receive_bytes(&[19, b'B', b'i', b't']);
    assert!(step.messages.is_empty());
    assert_eq!(step.verdict, ReaderVerdict::Continue);
    assert_eq!(reader.free_space(), 4);
}

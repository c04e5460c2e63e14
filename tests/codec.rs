use torrent_poc::{
    Decoded, DecodedMessage, FrameError, Handshake, InfoHash, KeepAlive, Message, PeerId, Unknown,
    SansIo, MAX_FRAME_LENGTH,
};

const PEER_BYTES: [u8; 20] = *b"-Rp0123-HahW9F2VDDzU";

fn remaining<'a, T>(encoded: &'a [u8], decoded: &Decoded<T>) -> &'a [u8] {
    match decoded {
        Decoded::Done { consumed, .. } => &encoded[*consumed..],
        _ => panic!("expected a whole value"),
    }
}

fn value<T: Clone>(decoded: &Decoded<T>) -> T {
    match decoded {
        Decoded::Done { value, .. } => value.clone(),
        _ => panic!("expected a whole value"),
    }
}

#[test]
fn handshake_roundtrip() {
    let handshake = Handshake::new(InfoHash::new([0; 20]), PeerId::new(PEER_BYTES));

    let encoded = handshake.encode();
    let decoded = Handshake::decode(&encoded);

    assert_eq!(handshake, value(&decoded));
    assert_eq!(remaining(&encoded, &decoded).len(), 0);
}

#[test]
fn roundtrip_with_extra_bytes() {
    let handshake = Handshake::new(InfoHash::new([0; 20]), PeerId::new(PEER_BYTES));

    let mut encoded = handshake.encode();
    encoded.push(0);
    encoded.push(2);
    encoded.push(5);

    let decoded = Handshake::decode(&encoded);

    assert_eq!(handshake, value(&decoded));
    assert_eq!(remaining(&encoded, &decoded).len(), 3);
}

#[test]
fn roundtrip_with_missing_bytes() {
    let handshake = Handshake::new(InfoHash::new([0; 20]), PeerId::new(PEER_BYTES));

    let mut encoded = handshake.encode();
    encoded.pop();
    encoded.pop();
    encoded.pop();

    assert_eq!(Handshake::decode(&encoded), Decoded::Incomplete);
    assert_eq!(68 - encoded.len(), 3);
}

#[test]
fn handshake_wire_layout() {
    let handshake = Handshake::new(InfoHash::new([2; 20]), PeerId::new([1; 20]));
    let encoded = handshake.encode();
    assert_eq!(encoded.len(), 68);
    assert_eq!(encoded[0], 19);
    assert_eq!(&encoded[1..20], b"BitTorrent protocol");
    assert_eq!(&encoded[20..28], &[0u8; 8]);
    assert_eq!(&encoded[28..48], &[2u8; 20]);
    assert_eq!(&encoded[48..68], &[1u8; 20]);
}

#[test]
fn handshake_reserved_bytes_are_ignored() {
    let handshake = Handshake::new(InfoHash::new([5; 20]), PeerId::new([6; 20]));
    let mut encoded = handshake.encode();
    for b in &mut encoded[20..28] {
        *b = 0xaa;
    }
    assert_eq!(value(&Handshake::decode(&encoded)), handshake);
}

#[test]
fn handshake_wrong_tag_is_invalid() {
    let mut encoded = Handshake::new(InfoHash::new([5; 20]), PeerId::new([6; 20])).encode();
    encoded[5] = b'x';
    assert_eq!(Handshake::decode(&encoded), Decoded::Invalid);
    assert_eq!(Handshake::decode(&[18]), Decoded::Invalid);
    assert_eq!(Handshake::decode(&[19, b'B']), Decoded::Incomplete);
}

#[test]
fn keep_alive_roundtrip() {
    let keep_alive = KeepAlive;

    let encoded = keep_alive.encode();
    let decoded = KeepAlive::decode(&encoded);

    assert_eq!(keep_alive, value(&decoded));
    assert_eq!(remaining(&encoded, &decoded).len(), 0);
    assert_eq!(encoded, vec![0, 0, 0, 0]);
}

#[test]
fn roundtrip_handshake() {
    let message = Message::Handshake(Handshake::new(InfoHash::new([1; 20]), PeerId::new([2; 20])));

    let encoded = message.encode();
    let decoded = Message::decode(&encoded);

    assert_eq!(message, value(&decoded));
    assert_eq!(remaining(&encoded, &decoded).len(), 0);
}

#[test]
fn roundtrip_keep_alive() {
    let message = Message::KeepAlive(KeepAlive);

    let encoded = message.encode();
    let decoded = Message::decode(&encoded);

    assert_eq!(message, value(&decoded));
    assert_eq!(remaining(&encoded, &decoded).len(), 0);
}

#[test]
fn roundtrip_unknown() {
    let message = Message::Unknown(Unknown::new(23, vec![3, 4, 5]));

    let encoded = message.encode();
    let decoded = Message::decode(&encoded);

    assert_eq!(message, value(&decoded));
    assert_eq!(remaining(&encoded, &decoded).len(), 0);
}

#[test]
fn unknown_roundtrip() {
    let unknown = Unknown::new(23, vec![3, 4, 5]);

    let encoded = unknown.encode();
    let decoded = Unknown::decode(&encoded);

    assert_eq!(unknown, value(&decoded));
    assert_eq!(remaining(&encoded, &decoded).len(), 0);
}

#[test]
fn unknown_frame_bytes() {
    let unknown = Unknown::new(23, vec![3, 4, 5]);
    assert_eq!(unknown.encode(), vec![0, 0, 0, 4, 23, 3, 4, 5]);
    let decoded = Message::from_partial_buffer(&[0, 0, 0, 4, 23, 3, 4, 5]).unwrap().unwrap();
    assert_eq!(decoded.consumed_bytes, 8);
    assert_eq!(decoded.message, Message::Unknown(unknown));
}

#[test]
fn unknown_with_empty_payload() {
    let unknown = Unknown::new(7, vec![]);
    let encoded = unknown.encode();
    assert_eq!(encoded, vec![0, 0, 0, 1, 7]);
    assert_eq!(value(&Message::decode(&encoded)), Message::Unknown(unknown));
}

#[test]
fn unknown_length_is_big_endian() {
    let unknown = Unknown::new(1, vec![9; 300]);
    let encoded = unknown.encode();
    assert_eq!(&encoded[0..5], &[0, 0, 1, 45, 1]);
    assert_eq!(encoded.len(), 305);
    assert_eq!(value(&Unknown::decode(&encoded)), unknown);
}

#[test]
fn unknown_zero_length_is_invalid() {
    assert_eq!(Unknown::decode(&[0, 0, 0, 0, 1]), Decoded::Invalid);
}

#[test]
fn partial_buffer_incomplete_is_none() {
    assert!(Message::from_partial_buffer(&[]).unwrap().is_none());
    assert!(Message::from_partial_buffer(&[0, 0]).unwrap().is_none());
    assert!(Message::from_partial_buffer(&[0, 0, 0, 9, 15, 1]).unwrap().is_none());
}

#[test]
fn partial_buffer_is_idempotent() {
    let buffer = [0, 0, 0, 2, 9, 8, 1, 1];
    let first = Message::from_partial_buffer(&buffer).unwrap().unwrap();
    let second = Message::from_partial_buffer(&buffer).unwrap().unwrap();
    assert_eq!(first.consumed_bytes, second.consumed_bytes);
    assert_eq!(first.message, second.message);
    assert_eq!(first.consumed_bytes, 6);
}

#[test]
fn commit_after_tag() {
    let encoded = Handshake::new(InfoHash::new([9; 20]), PeerId::new([8; 20])).encode();
    for len in 20..68 {
        assert!(Message::from_partial_buffer(&encoded[..len]).unwrap().is_none());
    }
}

#[test]
fn oversize_frame_is_refused() {
    let mut buffer = vec![0, 0x10, 0, 0, 1];
    buffer.extend(vec![0; 10]);
    match Message::from_partial_buffer(&buffer) {
        Err(FrameError::Oversize { length }) => assert_eq!(length, MAX_FRAME_LENGTH),
        _ => panic!("expected an oversize frame"),
    }
    let just_under = [0, 0x0f, 0xff, 0xff, 1];
    assert!(Message::from_partial_buffer(&just_under).unwrap().is_none());
}

#[test]
fn two_messages_in_one_buffer() {
    let a = Handshake::new(InfoHash::new([11; 20]), PeerId::new([22; 20]));
    let b = Handshake::new(InfoHash::new([33; 20]), PeerId::new([44; 20]));
    let mut buffer = a.encode();
    buffer.extend(&b.encode()[..30]);
    let DecodedMessage { consumed_bytes, message } =
        Message::from_partial_buffer(&buffer).unwrap().unwrap();
    assert_eq!(message, Message::Handshake(a));
    assert_eq!(consumed_bytes, 68);
    let mut rest = buffer[consumed_bytes..].to_vec();
    assert!(Message::from_partial_buffer(&rest).unwrap().is_none());
    rest.extend(&b.encode()[30..]);
    let second = Message::from_partial_buffer(&rest).unwrap().unwrap();
    assert_eq!(second.message, Message::Handshake(b));
    assert_eq!(second.consumed_bytes, 68);
}

#[test]
fn invalid_id_acceptance() {
    let mut buffer = vec![0, 0, 0, 9, 15];
    buffer.extend(b"test");
    assert!(Message::from_partial_buffer(&buffer).unwrap().is_none());
    buffer.extend([1, 2, 3, 4]);
    let decoded = Message::from_partial_buffer(&buffer).unwrap().unwrap();
    assert_eq!(decoded.consumed_bytes, 13);
    assert_eq!(
        decoded.message,
        Message::Unknown(Unknown::new(15, vec![b't', b'e', b's', b't', 1, 2, 3, 4]))
    );
}

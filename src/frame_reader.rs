//! The decisions of the reader that turns a byte stream into messages: where
//! the next read goes, when the buffer grows, when the reader gives up. The
//! reads themselves, and handing the messages on, are left to the caller.
use vstd::prelude::*;

use crate::codec_laws::lemma_consumed_within;
use crate::message::{decode_message, DecodedMessage, FrameError, Message, MessageView};
use crate::unknown::declared_length;
use crate::wire::{copy_range, Decoded};

verus! {

/// The buffer never grows beyond this many bytes.
pub const MAX_BUFFER_SIZE: usize = 65536;

/// Taking every whole message from the front of `bytes`: the messages in
/// order, the bytes left, and whether those bytes were refused.
pub open spec fn drain(bytes: Seq<u8>) -> (Seq<MessageView>, Seq<u8>, bool)
    decreases bytes.len(),
{
    match decode_message(bytes) {
        Decoded::Done { consumed, value } => {
            if 0 < consumed <= bytes.len() {
                let rest = drain(bytes.subrange(consumed as int, bytes.len() as int));
                (seq![value] + rest.0, rest.1, rest.2)
            } else {
                (seq![], bytes, true)
            }
        },
        Decoded::Incomplete => (seq![], bytes, false),
        Decoded::Invalid => (seq![], bytes, true),
    }
}

/// The plain values of a list of messages.
pub open spec fn message_views(messages: Seq<Message>) -> Seq<MessageView> {
    messages.map_values(|m: Message| m@)
}

/// Where the reader stands after taking in a read.
#[derive(Debug, Clone, Copy, PartialEq, Eq, Structural)]
pub enum ReaderVerdict {
    /// Keep reading.
    Continue,
    /// The source gave no more bytes.
    Closed,
    /// The bytes can never become a message.
    Malformed(FrameError),
    /// A single message would not fit even the largest buffer.
    Overflow,
}

/// What one read produced: the messages it completed, in order, and whether
/// to go on.
pub struct ReadStep {
    pub messages: Vec<Message>,
    pub verdict: ReaderVerdict,
}

/// The buffer of a framed reader: the bytes received but not yet decoded, and
/// the size of the buffer they sit in.
pub struct FrameReader {
    pending: Vec<u8>,
    capacity: usize,
}

impl FrameReader {
    /// The bytes received but not yet decoded.
    pub closed spec fn pending(&self) -> Seq<u8> {
        self.pending@
    }

    /// The size of the buffer.
    pub closed spec fn capacity(&self) -> nat {
        self.capacity as nat
    }

    /// The pending bytes fit the buffer.
    pub closed spec fn wf(&self) -> bool {
        self.pending@.len() <= self.capacity
    }

    /// An empty reader whose buffer holds `initial_buffer_size` bytes.
    pub fn new(initial_buffer_size: usize) -> (r: FrameReader)
        ensures
            r.wf(),
            r.pending() == Seq::<u8>::empty(),
            r.capacity() == initial_buffer_size,
    {
        FrameReader { pending: Vec::new(), capacity: initial_buffer_size }
    }

    /// How many bytes the next read may bring: the free room of the buffer.
    pub fn free_space(&self) -> (r: usize)
        requires
            self.wf(),
        ensures
            r == self.capacity() - self.pending().len(),
    {
        self.capacity - self.pending.len()
    }

    /// Takes in the bytes of one read and decodes every whole message that
    /// they complete. No bytes means that the source is closed. Bytes that
    /// can never become a message stop the reader. When no message is whole
    /// and the buffer is full, it doubles, up to 64 KiB; a full buffer of that
    /// size stops the reader.
    pub fn receive_bytes(&mut self, data: &[u8]) -> (r: ReadStep)
        requires
            old(self).wf(),
            data@.len() <= old(self).capacity() - old(self).pending().len(),
        ensures
            final(self).wf(),
            data@.len() == 0 ==> {
                &&& r.verdict == ReaderVerdict::Closed
                &&& r.messages@.len() == 0
                &&& final(self).pending() == old(self).pending()
                &&& final(self).capacity() == old(self).capacity()
            },
            data@.len() > 0 ==> {
                let drained = drain(old(self).pending() + data@);
                let cap = old(self).capacity();
                &&& message_views(r.messages@) == drained.0
                &&& drained.2 ==> r.verdict == ReaderVerdict::Malformed(
                    FrameError::Oversize { length: declared_length(drained.1) },
                )
                &&& !drained.2 && drained.1.len() < cap ==> {
                    &&& r.verdict == ReaderVerdict::Continue
                    &&& final(self).pending() == drained.1
                    &&& final(self).capacity() == cap
                }
                &&& !drained.2 && drained.1.len() >= cap && cap >= MAX_BUFFER_SIZE ==> r.verdict
                    == ReaderVerdict::Overflow
                &&& !drained.2 && drained.1.len() >= cap && cap < MAX_BUFFER_SIZE ==> {
                    &&& r.verdict == ReaderVerdict::Continue
                    &&& final(self).pending() == drained.1
                    &&& final(self).capacity() == if 2 * cap < MAX_BUFFER_SIZE {
                        2 * cap
                    } else {
                        MAX_BUFFER_SIZE as nat
                    }
                }
            },
    {
        if data.len() == 0 {
            return ReadStep { messages: Vec::new(), verdict: ReaderVerdict::Closed };
        }
        let ghost all = self.pending@ + data@;
        let ghost capacity = self.capacity;
        crate::wire::append_bytes(&mut self.pending, data);
        let mut messages: Vec<Message> = Vec::new();
        loop
            invariant
                data@.len() > 0,
                all == old(self).pending() + data@,
                capacity == old(self).capacity(),
                self.capacity == capacity,
                all.len() <= capacity,
                self.pending@.len() <= all.len(),
                message_views(messages@) + drain(self.pending@).0 == drain(all).0,
                drain(self.pending@).1 == drain(all).1,
                drain(self.pending@).2 == drain(all).2,
                self.pending@.len() < all.len() ==> messages@.len() > 0,
                self.pending@.len() == all.len() ==> self.pending@ == all,
            decreases self.pending@.len(),
        {
            proof {
                lemma_consumed_within(self.pending@);
            }
            match Message::from_partial_buffer(self.pending.as_slice()) {
                Ok(Some(DecodedMessage { consumed_bytes, message })) => {
                    let ghost before = self.pending@;
                    let rest = copy_range(self.pending.as_slice(), consumed_bytes, self.pending.len());
                    self.pending = rest;
                    let ghost done = messages@;
                    messages.push(message);
                    proof {
                        assert(message_views(messages@) =~= message_views(done).push(message@));
                        assert(drain(before).0 =~= seq![message@] + drain(self.pending@).0);
                        assert(message_views(messages@) + drain(self.pending@).0 =~= message_views(
                            done,
                        ) + drain(before).0);
                    }
                },
                Ok(None) => {
                    assert(message_views(messages@) + drain(self.pending@).0 =~= message_views(
                        messages@,
                    ));
                    if self.pending.len() < self.capacity {
                        return ReadStep { messages, verdict: ReaderVerdict::Continue };
                    }
                    if self.capacity >= MAX_BUFFER_SIZE {
                        return ReadStep { messages, verdict: ReaderVerdict::Overflow };
                    }
                    if self.capacity < MAX_BUFFER_SIZE / 2 {
                        self.capacity = 2 * self.capacity;
                    } else {
                        self.capacity = MAX_BUFFER_SIZE;
                    }
                    return ReadStep { messages, verdict: ReaderVerdict::Continue };
                },
                Err(e) => {
                    assert(message_views(messages@) + drain(self.pending@).0 =~= message_views(
                        messages@,
                    ));
                    return ReadStep { messages, verdict: ReaderVerdict::Malformed(e) };
                },
            }
        }
    }
}

} // verus!

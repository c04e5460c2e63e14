//! Every message of the wire format, and decoding from a buffer that may hold
//! only part of one.
use vstd::prelude::*;

use crate::handshake::{decode_handshake, handshake_wire, Handshake, HandshakeView};
use crate::keep_alive::{decode_keep_alive, keep_alive_wire, KeepAlive};
use crate::unknown::{declared_length, decode_unknown, unknown_fits, unknown_wire, Unknown, UnknownView};
use crate::wire::{Decoded, SansIo};

verus! {

/// The plain values that a message carries.
pub enum MessageView {
    Handshake(HandshakeView),
    KeepAlive,
    Unknown(UnknownView),
}

/// A message that can be sent or received.
#[derive(Debug, Clone, PartialEq, Eq)]
pub enum Message {
    Handshake(Handshake),
    KeepAlive(KeepAlive),
    Unknown(Unknown),
}

impl View for Message {
    type V = MessageView;

    open spec fn view(&self) -> MessageView {
        match self {
            Message::Handshake(h) => MessageView::Handshake(h@),
            Message::KeepAlive(_) => MessageView::KeepAlive,
            Message::Unknown(u) => MessageView::Unknown(u@),
        }
    }
}

/// Whether the message can be written: a frame's length must fit its prefix.
pub open spec fn message_fits(m: MessageView) -> bool {
    match m {
        MessageView::Unknown(u) => unknown_fits(u),
        _ => true,
    }
}

/// A message on the wire.
pub open spec fn message_wire(m: MessageView) -> Seq<u8> {
    match m {
        MessageView::Handshake(h) => handshake_wire(h),
        MessageView::KeepAlive => keep_alive_wire(),
        MessageView::Unknown(u) => unknown_wire(u),
    }
}

/// Decoding a message: a handshake is tried first, then a keep-alive, then
/// any other frame. Only a decoder that finds its bytes invalid hands over to
/// the next, so bytes that begin a handshake or a keep-alive never fall
/// through to a frame.
pub open spec fn decode_message(bytes: Seq<u8>) -> Decoded<MessageView> {
    match decode_handshake(bytes) {
        Decoded::Done { consumed, value } => Decoded::Done {
            consumed,
            value: MessageView::Handshake(value),
        },
        Decoded::Incomplete => Decoded::Incomplete,
        Decoded::Invalid => match decode_keep_alive(bytes) {
            Decoded::Done { consumed, value: _ } => Decoded::Done {
                consumed,
                value: MessageView::KeepAlive,
            },
            Decoded::Incomplete => Decoded::Incomplete,
            Decoded::Invalid => match decode_unknown(bytes) {
                Decoded::Done { consumed, value } => Decoded::Done {
                    consumed,
                    value: MessageView::Unknown(value),
                },
                Decoded::Incomplete => Decoded::Incomplete,
                Decoded::Invalid => Decoded::Invalid,
            },
        },
    }
}

/// A whole message found at the front of a buffer.
pub struct DecodedMessage {
    /// How many bytes of the buffer the message took.
    pub consumed_bytes: usize,
    pub message: Message,
}

/// Why the bytes of a buffer can never become a message.
#[derive(Debug, Clone, Copy, PartialEq, Eq, Structural)]
pub enum FrameError {
    /// The frame declares a length of 1 MiB or more.
    Oversize { length: u32 },
}

impl Message {

    /// Decodes a message from a buffer that may hold only part of one: `None`
    /// while more bytes are needed, the message and the bytes it took once it
    /// is whole, an error when no more bytes can make it whole.
    pub fn from_partial_buffer(buffer: &[u8]) -> (r: Result<Option<DecodedMessage>, FrameError>)
        ensures
            match decode_message(buffer@) {
                Decoded::Done { consumed, value } => r matches Ok(Some(d)) && d.consumed_bytes
                    == consumed && d.message@ == value,
                Decoded::Incomplete => r matches Ok(None),
                Decoded::Invalid => r == Err::<Option<DecodedMessage>, FrameError>(
                    FrameError::Oversize { length: declared_length(buffer@) },
                ),
            },
    {
        match Message::decode(buffer) {
            Decoded::Done { consumed, value } => Ok(
                Some(DecodedMessage { consumed_bytes: consumed, message: value }),
            ),
            Decoded::Incomplete => Ok(None),
            Decoded::Invalid => {
                let length: u32 = ((buffer[0] as u32) << 24u32) | ((buffer[1] as u32) << 16u32) | ((
                buffer[2] as u32) << 8u32) | (buffer[3] as u32);
                Err(FrameError::Oversize { length })
            },
        }
    }
}

impl SansIo for Message {
    open spec fn decoded_from(bytes: Seq<u8>) -> Decoded<MessageView> {
        decode_message(bytes)
    }

    open spec fn encodable(v: MessageView) -> bool {
        message_fits(v)
    }

    open spec fn encoded(v: MessageView) -> Seq<u8> {
        message_wire(v)
    }

    /// Decodes a message from the front of `bytes`.
    fn decode(bytes: &[u8]) -> Decoded<Message> {
        match Handshake::decode(bytes) {
            Decoded::Done { consumed, value } => Decoded::Done {
                consumed,
                value: Message::Handshake(value),
            },
            Decoded::Incomplete => Decoded::Incomplete,
            Decoded::Invalid => match KeepAlive::decode(bytes) {
                Decoded::Done { consumed, value } => Decoded::Done {
                    consumed,
                    value: Message::KeepAlive(value),
                },
                Decoded::Incomplete => Decoded::Incomplete,
                Decoded::Invalid => match Unknown::decode(bytes) {
                    Decoded::Done { consumed, value } => Decoded::Done {
                        consumed,
                        value: Message::Unknown(value),
                    },
                    Decoded::Incomplete => Decoded::Incomplete,
                    Decoded::Invalid => Decoded::Invalid,
                },
            },
        }
    }

    /// The bytes of this message on the wire.
    fn encode(&self) -> Vec<u8> {
        match self {
            Message::Handshake(h) => h.encode(),
            Message::KeepAlive(k) => k.encode(),
            Message::Unknown(u) => u.encode(),
        }
    }
}

} // verus!

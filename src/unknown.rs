//! Any length-prefixed frame that this library does not interpret.
use vstd::prelude::*;

use crate::wire::{append_bytes, be_bytes, be_u32, copy_range, Decoded, SansIo};

verus! {

/// Frames that declare this length or more are refused.
pub const MAX_FRAME_LENGTH: u32 = 1048576;

/// The plain values that an uninterpreted frame carries.
pub struct UnknownView {
    pub id: u8,
    pub payload: Seq<u8>,
}

/// A frame with an id and a payload, kept as it came.
#[derive(Debug, Clone, PartialEq, Eq)]
pub struct Unknown {
    pub id: u8,
    pub bytes: Vec<u8>,
}

impl View for Unknown {
    type V = UnknownView;

    open spec fn view(&self) -> UnknownView {
        UnknownView { id: self.id, payload: self.bytes@ }
    }
}

/// Whether the frame's length, one more than its payload, fits the four
/// bytes of the length prefix.
pub open spec fn unknown_fits(u: UnknownView) -> bool {
    u.payload.len() < u32::MAX
}

/// A frame on the wire: the big-endian length of id and payload, the id, the
/// payload.
pub open spec fn unknown_wire(u: UnknownView) -> Seq<u8> {
    be_bytes((1 + u.payload.len()) as u32) + seq![u.id] + u.payload
}

/// The length that the first four bytes declare.
pub open spec fn declared_length(bytes: Seq<u8>) -> u32 {
    be_u32(bytes[0], bytes[1], bytes[2], bytes[3])
}

/// Decoding a frame: a declared length of 1 MiB or more is refused, and so is
/// zero, which leaves no room for the id; otherwise the frame is incomplete
/// until all the bytes it declares are there.
pub open spec fn decode_unknown(bytes: Seq<u8>) -> Decoded<UnknownView> {
    if bytes.len() < 4 {
        Decoded::Incomplete
    } else {
        let length = declared_length(bytes);
        if length >= MAX_FRAME_LENGTH || length == 0 {
            Decoded::Invalid
        } else if bytes.len() < 4 + length {
            Decoded::Incomplete
        } else {
            Decoded::Done {
                consumed: (4 + length) as usize,
                value: UnknownView { id: bytes[4], payload: bytes.subrange(5, 4 + length) },
            }
        }
    }
}

impl Unknown {
    /// A frame with the given id and payload.
    pub fn new(id: u8, bytes: Vec<u8>) -> (r: Unknown)
        ensures
            r.id == id,
            r.bytes@ == bytes@,
    {
        Unknown { id, bytes }
    }

}

impl SansIo for Unknown {
    open spec fn decoded_from(bytes: Seq<u8>) -> Decoded<UnknownView> {
        decode_unknown(bytes)
    }

    open spec fn encodable(v: UnknownView) -> bool {
        unknown_fits(v)
    }

    open spec fn encoded(v: UnknownView) -> Seq<u8> {
        unknown_wire(v)
    }

    /// Decodes a frame from the front of `bytes`.
    fn decode(bytes: &[u8]) -> Decoded<Unknown> {
        if bytes.len() < 4 {
            return Decoded::Incomplete;
        }
        let length: u32 = ((bytes[0] as u32) << 24u32) | ((bytes[1] as u32) << 16u32) | ((
        bytes[2] as u32) << 8u32) | (bytes[3] as u32);
        if length >= MAX_FRAME_LENGTH || length == 0 {
            return Decoded::Invalid;
        }
        let total: usize = 4 + length as usize;
        if bytes.len() < total {
            return Decoded::Incomplete;
        }
        let payload = copy_range(bytes, 5, total);
        Decoded::Done { consumed: total, value: Unknown { id: bytes[4], bytes: payload } }
    }

    /// The bytes of this frame on the wire.
    fn encode(&self) -> Vec<u8> {
        let length: u32 = (1 + self.bytes.len()) as u32;
        let mut buf: Vec<u8> = Vec::new();
        buf.push(#[verifier::truncate] ((length >> 24u32) as u8));
        buf.push(#[verifier::truncate] ((length >> 16u32) as u8));
        buf.push(#[verifier::truncate] ((length >> 8u32) as u8));
        buf.push(#[verifier::truncate] (length as u8));
        buf.push(self.id);
        append_bytes(&mut buf, self.bytes.as_slice());
        assert(buf@ == unknown_wire(self@));
        buf
    }
}

} // verus!

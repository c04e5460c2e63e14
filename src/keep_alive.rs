//! The empty frame that keeps a connection open.
use vstd::prelude::*;

use crate::wire::{agrees, agrees_with, Decoded, SansIo};

verus! {

/// A frame of length zero; it carries no information.
#[derive(Debug, Copy, Clone, PartialEq, Eq, Structural)]
pub struct KeepAlive;

impl View for KeepAlive {
    type V = ();

    open spec fn view(&self) -> () {
        ()
    }
}

/// A keep-alive on the wire: four zero bytes.
pub open spec fn keep_alive_wire() -> Seq<u8> {
    seq![0u8, 0u8, 0u8, 0u8]
}

/// Decoding a keep-alive: four zero bytes, and nothing else decides.
pub open spec fn decode_keep_alive(bytes: Seq<u8>) -> Decoded<()> {
    if !agrees(bytes, keep_alive_wire()) {
        Decoded::Invalid
    } else if bytes.len() < 4 {
        Decoded::Incomplete
    } else {
        Decoded::Done { consumed: 4, value: () }
    }
}

impl SansIo for KeepAlive {
    open spec fn decoded_from(bytes: Seq<u8>) -> Decoded<()> {
        decode_keep_alive(bytes)
    }

    open spec fn encodable(v: ()) -> bool {
        true
    }

    open spec fn encoded(v: ()) -> Seq<u8> {
        keep_alive_wire()
    }

    /// Decodes a keep-alive from the front of `bytes`.
    fn decode(bytes: &[u8]) -> Decoded<KeepAlive> {
        let zeros = [0u8; 4];
        if !agrees_with(bytes, zeros.as_slice()) {
            Decoded::Invalid
        } else if bytes.len() < 4 {
            Decoded::Incomplete
        } else {
            Decoded::Done { consumed: 4, value: KeepAlive }
        }
    }

    /// The four zero bytes of a keep-alive.
    fn encode(&self) -> Vec<u8> {
        vec![0, 0, 0, 0]
    }
}

} // verus!

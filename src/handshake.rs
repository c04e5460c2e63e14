//! The fixed 68-byte message that opens a connection.
use vstd::prelude::*;

use crate::info_hash::InfoHash;
use crate::peer_id::PeerId;
use crate::wire::{agrees, agrees_with, append_bytes, take_20, Decoded, SansIo};

verus! {

/// The 20 bytes that open every handshake: the length 19, then the text
/// "BitTorrent protocol".
pub open spec fn protocol_header() -> Seq<u8> {
    seq![
        19u8, 66u8, 105u8, 116u8, 84u8, 111u8, 114u8, 114u8, 101u8, 110u8,
        116u8, 32u8, 112u8, 114u8, 111u8, 116u8, 111u8, 99u8, 111u8, 108u8,
    ]
}

/// The length of a handshake on the wire.
pub const HANDSHAKE_LEN: usize = 68;

fn protocol_header_bytes() -> (r: [u8; 20])
    ensures
        r@ == protocol_header(),
{
    [19, 66, 105, 116, 84, 111, 114, 114, 101, 110, 116, 32, 112, 114, 111, 116, 111, 99, 111, 108]
}

/// The plain values that a handshake carries.
pub struct HandshakeView {
    pub info_hash: Seq<u8>,
    pub peer_id: Seq<u8>,
}

/// The first message that either peer sends on a new connection.
#[derive(Debug, Copy, Clone, PartialEq, Eq)]
pub struct Handshake {
    pub info_hash: InfoHash,
    pub peer_id: PeerId,
}

impl View for Handshake {
    type V = HandshakeView;

    open spec fn view(&self) -> HandshakeView {
        HandshakeView { info_hash: self.info_hash@, peer_id: self.peer_id@ }
    }
}

/// A handshake on the wire: the header, eight reserved zero bytes, the info
/// hash, the peer id.
pub open spec fn handshake_wire(h: HandshakeView) -> Seq<u8> {
    protocol_header() + Seq::new(8, |_i: int| 0u8) + h.info_hash + h.peer_id
}

/// Decoding a handshake: bytes that contradict the header are no handshake;
/// once they follow it, the decoder is committed and a shortfall is only
/// incomplete. The reserved bytes may hold anything.
pub open spec fn decode_handshake(bytes: Seq<u8>) -> Decoded<HandshakeView> {
    if !agrees(bytes, protocol_header()) {
        Decoded::Invalid
    } else if bytes.len() < 68 {
        Decoded::Incomplete
    } else {
        Decoded::Done {
            consumed: 68,
            value: HandshakeView {
                info_hash: bytes.subrange(28, 48),
                peer_id: bytes.subrange(48, 68),
            },
        }
    }
}

impl Handshake {
    /// A handshake for the given torrent, from the given peer.
    pub fn new(info_hash: InfoHash, peer_id: PeerId) -> (r: Handshake)
        ensures
            r.info_hash == info_hash,
            r.peer_id == peer_id,
    {
        Handshake { info_hash, peer_id }
    }

}

impl SansIo for Handshake {
    open spec fn decoded_from(bytes: Seq<u8>) -> Decoded<HandshakeView> {
        decode_handshake(bytes)
    }

    open spec fn encodable(v: HandshakeView) -> bool {
        true
    }

    open spec fn encoded(v: HandshakeView) -> Seq<u8> {
        handshake_wire(v)
    }

    /// Decodes a handshake from the front of `bytes`.
    fn decode(bytes: &[u8]) -> Decoded<Handshake> {
        let header = protocol_header_bytes();
        if !agrees_with(bytes, header.as_slice()) {
            return Decoded::Invalid;
        }
        if bytes.len() < HANDSHAKE_LEN {
            return Decoded::Incomplete;
        }
        let info_hash = InfoHash(take_20(bytes, 28));
        let peer_id = PeerId(take_20(bytes, 48));
        Decoded::Done { consumed: HANDSHAKE_LEN, value: Handshake { info_hash, peer_id } }
    }

    /// The 68 bytes of this handshake, with the reserved bytes zero.
    fn encode(&self) -> Vec<u8> {
        let header = protocol_header_bytes();
        let reserved = [0u8; 8];
        let mut buf: Vec<u8> = Vec::with_capacity(HANDSHAKE_LEN);
        append_bytes(&mut buf, header.as_slice());
        append_bytes(&mut buf, reserved.as_slice());
        append_bytes(&mut buf, self.info_hash.0.as_slice());
        append_bytes(&mut buf, self.peer_id.0.as_slice());
        assert(reserved@ == Seq::new(8, |_i: int| 0u8));
        buf
    }
}

} // verus!

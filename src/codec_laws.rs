//! Laws of the wire codec: what encoding and decoding promise together.
use vstd::prelude::*;

use crate::handshake::{decode_handshake, handshake_wire, protocol_header, HandshakeView};
use crate::keep_alive::{decode_keep_alive, keep_alive_wire};
use crate::message::{decode_message, message_wire, MessageView};
use crate::unknown::{declared_length, decode_unknown, unknown_wire, UnknownView, MAX_FRAME_LENGTH};
use crate::wire::{agrees, lemma_be_below_2_20, lemma_be_round_trip, Decoded};

verus! {

/// Decoding the bytes of a handshake gives the handshake back, and takes all
/// 68 bytes.
pub proof fn lemma_handshake_round_trip(h: HandshakeView)
    requires
        h.info_hash.len() == 20,
        h.peer_id.len() == 20,
    ensures
        decode_handshake(handshake_wire(h)) == (Decoded::Done {
            consumed: handshake_wire(h).len() as usize,
            value: h,
        }),
{
    let w = handshake_wire(h);
    assert(w.subrange(0, 20) =~= protocol_header());
    assert(agrees(w, protocol_header()));
    assert(w.subrange(28, 48) =~= h.info_hash);
    assert(w.subrange(48, 68) =~= h.peer_id);
}

/// Decoding the four zero bytes of a keep-alive gives a keep-alive back.
pub proof fn lemma_keep_alive_round_trip()
    ensures
        decode_keep_alive(keep_alive_wire()) == (Decoded::Done {
            consumed: keep_alive_wire().len() as usize,
            value: (),
        }),
{
}

/// Decoding the bytes of a frame gives the frame back, and takes them all,
/// when its declared length stays under 1 MiB.
pub proof fn lemma_unknown_round_trip(u: UnknownView)
    requires
        1 + u.payload.len() < MAX_FRAME_LENGTH,
    ensures
        decode_unknown(unknown_wire(u)) == (Decoded::Done {
            consumed: unknown_wire(u).len() as usize,
            value: u,
        }),
{
    let n = (1 + u.payload.len()) as u32;
    let w = unknown_wire(u);
    lemma_be_round_trip(n);
    assert(declared_length(w) == n);
    assert(w.subrange(5, 4 + n) =~= u.payload);
}

/// The first bytes of a frame under 1 MiB contradict both the handshake
/// header and a keep-alive.
proof fn lemma_frame_is_no_handshake_nor_keep_alive(u: UnknownView)
    requires
        1 + u.payload.len() < MAX_FRAME_LENGTH,
    ensures
        decode_handshake(unknown_wire(u)) == Decoded::<HandshakeView>::Invalid,
        decode_keep_alive(unknown_wire(u)) == Decoded::<()>::Invalid,
{
    let n = (1 + u.payload.len()) as u32;
    let w = unknown_wire(u);
    lemma_be_round_trip(n);
    lemma_be_below_2_20(w[0], w[1], w[2], w[3]);
    assert(w[0] != protocol_header()[0]);
    if w[0] == 0 && w[1] == 0 && w[2] == 0 {
        assert(w[3] != keep_alive_wire()[3]);
    }
}

/// Decoding the bytes of any message gives the message back, and takes them
/// all, when a frame's declared length stays under 1 MiB.
pub proof fn lemma_message_round_trip(m: MessageView)
    requires
        match m {
            MessageView::Handshake(h) => h.info_hash.len() == 20 && h.peer_id.len() == 20,
            MessageView::KeepAlive => true,
            MessageView::Unknown(u) => 1 + u.payload.len() < MAX_FRAME_LENGTH,
        },
    ensures
        decode_message(message_wire(m)) == (Decoded::Done {
            consumed: message_wire(m).len() as usize,
            value: m,
        }),
{
    match m {
        MessageView::Handshake(h) => {
            lemma_handshake_round_trip(h);
        },
        MessageView::KeepAlive => {
            assert(keep_alive_wire()[0] != protocol_header()[0]);
        },
        MessageView::Unknown(u) => {
            lemma_frame_is_no_handshake_nor_keep_alive(u);
            lemma_unknown_round_trip(u);
        },
    }
}

/// Once a buffer holds the whole handshake header, a shortfall is only
/// incomplete: it never falls through to another kind of frame.
pub proof fn lemma_commit_after_tag(buf: Seq<u8>)
    requires
        20 <= buf.len() < 68,
        buf.subrange(0, 20) == protocol_header(),
    ensures
        decode_message(buf) == Decoded::<MessageView>::Incomplete,
{
    assert forall|i: int| 0 <= i < buf.len() && i < protocol_header().len() implies buf[i]
        == protocol_header()[i] by {
        assert(buf[i] == buf.subrange(0, 20)[i]);
    }
}

/// The one way for bytes to never become a message is a frame that declares a
/// length of 1 MiB or more: bytes that do not begin a handshake and declare
/// such a length are refused, and nothing else is.
pub proof fn lemma_invalid_exactly_oversize(buf: Seq<u8>)
    ensures
        (decode_message(buf) == Decoded::<MessageView>::Invalid) == (!agrees(buf, protocol_header())
            && buf.len() >= 4 && declared_length(buf) >= MAX_FRAME_LENGTH),
{
    if buf.len() >= 4 {
        lemma_be_below_2_20(buf[0], buf[1], buf[2], buf[3]);
        if declared_length(buf) == 0 {
            assert(agrees(buf, keep_alive_wire()));
        }
        if declared_length(buf) >= MAX_FRAME_LENGTH {
            assert(buf[0] != 0 || buf[1] != 0);
            assert(!agrees(buf, keep_alive_wire()));
        }
    } else if !agrees(buf, protocol_header()) {
        if !agrees(buf, keep_alive_wire()) {
            assert(decode_unknown(buf) == Decoded::<UnknownView>::Incomplete);
        }
    }
}

/// A message decoded from a buffer takes at least four bytes and never more
/// than the buffer holds.
pub proof fn lemma_consumed_within(buf: Seq<u8>)
    ensures
        decode_message(buf) matches Decoded::Done { consumed, value: _ } ==> 4 <= consumed
            <= buf.len(),
{
}

/// A buffer that disagrees with a tag still does so once more bytes follow.
proof fn lemma_disagreement_stays(p: Seq<u8>, extra: Seq<u8>, tag: Seq<u8>)
    requires
        !agrees(p, tag),
    ensures
        !agrees(p + extra, tag),
{
    let k = choose|k: int| 0 <= k < p.len() && k < tag.len() && p[k] != tag[k];
    assert((p + extra)[k] == p[k]);
}

/// A whole message at the front of a buffer stays the same message, taking
/// the same bytes, whatever bytes follow it.
pub proof fn lemma_whole_message_stays(p: Seq<u8>, extra: Seq<u8>)
    requires
        decode_message(p) is Done,
    ensures
        decode_message(p + extra) == decode_message(p),
{
    let q = p + extra;
    assert(q.subrange(0, p.len() as int) =~= p);
    if agrees(p, protocol_header()) {
        assert(agrees(q, protocol_header()));
        assert(q.subrange(28, 48) =~= p.subrange(28, 48));
        assert(q.subrange(48, 68) =~= p.subrange(48, 68));
    } else {
        lemma_disagreement_stays(p, extra, protocol_header());
        if agrees(p, keep_alive_wire()) {
            assert(agrees(q, keep_alive_wire()));
        } else {
            lemma_disagreement_stays(p, extra, keep_alive_wire());
            assert(q[0] == p[0] && q[1] == p[1] && q[2] == p[2] && q[3] == p[3]);
            let length = declared_length(p);
            assert(q.subrange(5, 4 + length) =~= p.subrange(5, 4 + length));
        }
    }
}

/// Whether an incomplete buffer has settled what kind of message it begins:
/// it holds the whole handshake header, or it contradicts the header and
/// already shows that the declared length stays under 1 MiB.
pub open spec fn kind_settled(p: Seq<u8>) -> bool {
    (p.len() >= 20 && agrees(p, protocol_header())) || (!agrees(p, protocol_header()) && p.len()
        >= 2 && p[0] == 0 && p[1] < 16)
}

/// An incomplete buffer whose kind is settled is never refused once more
/// bytes arrive: it stays incomplete or becomes a message that fits in it.
pub proof fn lemma_incomplete_never_refused(p: Seq<u8>, extra: Seq<u8>)
    requires
        decode_message(p) == Decoded::<MessageView>::Incomplete,
        kind_settled(p),
    ensures
        decode_message(p + extra) != Decoded::<MessageView>::Invalid,
        decode_message(p + extra) matches Decoded::Done { consumed, value: _ } ==> consumed <= (p
            + extra).len(),
{
    let q = p + extra;
    assert(q.subrange(0, p.len() as int) =~= p);
    if p.len() >= 20 && agrees(p, protocol_header()) {
        assert(agrees(q, protocol_header()));
    } else {
        assert(!agrees(q, protocol_header())) by {
            let k = choose|k: int| 0 <= k < p.len() && k < protocol_header().len() && p[k]
                != protocol_header()[k];
            assert(q[k] == p[k]);
        }
        if q.len() >= 4 {
            lemma_be_below_2_20(q[0], q[1], q[2], q[3]);
        }
    }
}

/// For every incomplete buffer whose kind is not settled, some further bytes
/// make it refused: the condition above is exact.
pub proof fn lemma_unsettled_can_be_refused(p: Seq<u8>)
    requires
        decode_message(p) == Decoded::<MessageView>::Incomplete,
        !kind_settled(p),
    ensures
        exists|extra: Seq<u8>| decode_message(p + extra) == Decoded::<MessageView>::Invalid,
{
    let h = protocol_header();
    if agrees(p, h) {
        if p.len() == 0 {
            let extra = seq![255u8, 255u8, 255u8, 255u8];
            let q = p + extra;
            assert(q =~= extra);
            lemma_invalid_exactly_oversize(q);
            lemma_be_below_2_20(q[0], q[1], q[2], q[3]);
            assert(q[0] != h[0]);
            assert(decode_message(q) == Decoded::<MessageView>::Invalid);
        } else {
            let extra = seq![0u8, 0u8, 0u8, 0u8];
            let q = p + extra;
            assert(q[p.len() as int] == 0);
            assert(q[p.len() as int] != h[p.len() as int]);
            assert(q[0] == 19);
            lemma_invalid_exactly_oversize(q);
            lemma_be_below_2_20(q[0], q[1], q[2], q[3]);
            assert(decode_message(q) == Decoded::<MessageView>::Invalid);
        }
    } else {
        let k = choose|k: int| 0 <= k < p.len() && k < h.len() && p[k] != h[k];
        if p.len() >= 4 {
            lemma_be_below_2_20(p[0], p[1], p[2], p[3]);
            lemma_invalid_exactly_oversize(p);
            assert(false);
        }
        if p.len() == 1 && p[0] == 0 {
            let extra = seq![255u8, 0u8, 0u8];
            let q = p + extra;
            assert(q[k] == p[k]);
            lemma_invalid_exactly_oversize(q);
            lemma_be_below_2_20(q[0], q[1], q[2], q[3]);
            assert(decode_message(q) == Decoded::<MessageView>::Invalid);
        } else {
            let extra = seq![0u8, 0u8, 0u8];
            let q = p + extra;
            assert(q[k] == p[k]);
            assert(q[0] == p[0]);
            if p.len() >= 2 {
                assert(q[1] == p[1]);
            }
            lemma_invalid_exactly_oversize(q);
            lemma_be_below_2_20(q[0], q[1], q[2], q[3]);
            assert(decode_message(q) == Decoded::<MessageView>::Invalid);
        }
    }
}

} // verus!

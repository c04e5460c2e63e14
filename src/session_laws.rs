//! Laws of a session together with the torrent's registry.
use vstd::prelude::*;

use crate::handshake::HandshakeView;
use crate::message::{message_wire, MessageView};
use crate::session::{
    accepts, own_handshake, session_next, Phase, SessionActionView, SessionEventView, SessionView,
};

verus! {

/// What the torrent's registry becomes once it has carried out a session's
/// actions with the session's handle: a registration inserts the peer, an
/// unregistration removes it, the other actions leave it alone.
pub open spec fn apply_actions<H>(
    registry: Map<Seq<u8>, H>,
    actions: Seq<SessionActionView>,
    handle: H,
) -> Map<Seq<u8>, H>
    decreases actions.len(),
{
    if actions.len() == 0 {
        registry
    } else {
        let next = match actions[0] {
            SessionActionView::Register(p) => registry.insert(p, handle),
            SessionActionView::Unregister(p) => registry.remove(p),
            _ => registry,
        };
        apply_actions(next, actions.drop_first(), handle)
    }
}

/// Whether any of the actions registers a peer.
pub open spec fn registers_any(actions: Seq<SessionActionView>) -> bool {
    exists|i: int| 0 <= i < actions.len() && actions[i] is Register
}

/// An outgoing handshake that the peer answers for the same torrent, and from
/// the expected peer if one is expected, leaves the peer registered; once the
/// session ends, by a stop or by the connection failing, it is registered no
/// more.
pub proof fn lemma_registration_lifecycle<H>(
    s: SessionView,
    peer: Seq<u8>,
    registry: Map<Seq<u8>, H>,
    handle: H,
    end: SessionEventView,
)
    requires
        s.phase == Phase::Fresh,
        s.peer_id is None,
        s.expected_peer_id is None || s.expected_peer_id == Some(peer),
        end is StopRequested || end is TransportFailed,
    ensures
        ({
            let first = session_next(s, SessionEventView::InitiateHandshake);
            let second = session_next(first.0, SessionEventView::Sent);
            let reply = MessageView::Handshake(
                HandshakeView { info_hash: s.info_hash, peer_id: peer },
            );
            let third = session_next(second.0, SessionEventView::Received(reply));
            let last = session_next(third.0, end);
            let live = apply_actions(registry, first.1 + second.1 + third.1, handle);
            &&& first.1 == seq![SessionActionView::Send(own_handshake(s))]
            &&& third.0.phase == Phase::Established
            &&& third.0.peer_id == Some(peer)
            &&& live.contains_key(peer)
            &&& last.0.phase == Phase::Terminated
            &&& !apply_actions(live, last.1, handle).contains_key(peer)
        }),
{
    let first = session_next(s, SessionEventView::InitiateHandshake);
    let second = session_next(first.0, SessionEventView::Sent);
    let reply = MessageView::Handshake(HandshakeView { info_hash: s.info_hash, peer_id: peer });
    let third = session_next(second.0, SessionEventView::Received(reply));
    let last = session_next(third.0, end);
    let actions = first.1 + second.1 + third.1;
    assert(accepts(second.0, reply));
    assert(actions =~= seq![
        SessionActionView::Send(own_handshake(s)),
        SessionActionView::Receive,
        SessionActionView::Register(peer),
        SessionActionView::StartReceiveLoop,
    ]);
    let r1 = apply_actions(registry, actions, handle);
    assert(actions.drop_first().drop_first().drop_first().drop_first().len() == 0);
    assert(r1 == registry.insert(peer, handle)) by {
        reveal_with_fuel(apply_actions, 5);
    }
    assert(last.1 =~= seq![SessionActionView::Unregister(peer)]);
    assert(apply_actions(r1, last.1, handle) == r1.remove(peer)) by {
        reveal_with_fuel(apply_actions, 2);
    }
}

/// A session that does not accept the peer's answer to its handshake (another
/// torrent, another peer than the expected one, or no handshake at all) ends
/// without ever registering the peer, and does nothing afterwards.
pub proof fn lemma_rejected_answer_never_registers<H>(
    s: SessionView,
    reply: MessageView,
    registry: Map<Seq<u8>, H>,
    handle: H,
    later: SessionEventView,
)
    requires
        s.phase == Phase::Fresh,
        s.peer_id is None,
        !accepts(s, reply),
    ensures
        ({
            let first = session_next(s, SessionEventView::InitiateHandshake);
            let second = session_next(first.0, SessionEventView::Sent);
            let third = session_next(second.0, SessionEventView::Received(reply));
            let actions = first.1 + second.1 + third.1;
            &&& third.0.phase == Phase::Terminated
            &&& !registers_any(actions)
            &&& apply_actions(registry, actions, handle) == registry
            &&& session_next(third.0, later).1 == Seq::<SessionActionView>::empty()
        }),
{
    let first = session_next(s, SessionEventView::InitiateHandshake);
    let second = session_next(first.0, SessionEventView::Sent);
    let third = session_next(second.0, SessionEventView::Received(reply));
    let actions = first.1 + second.1 + third.1;
    assert(!accepts(second.0, reply));
    assert(actions =~= seq![SessionActionView::Send(own_handshake(s)), SessionActionView::Receive]);
    assert(apply_actions(registry, actions, handle) == registry) by {
        reveal_with_fuel(apply_actions, 3);
    }
}

/// A session registers a peer only on the step that establishes it, coming
/// from the handshake, and only the peer whose handshake it accepted.
pub proof fn lemma_registers_only_when_established(s: SessionView, e: SessionEventView, i: int)
    requires
        0 <= i < session_next(s, e).1.len(),
        session_next(s, e).1[i] is Register,
    ensures
        s.phase is Handshaking,
        session_next(s, e).0.phase == Phase::Established,
        session_next(s, e).0.peer_id == Some(session_next(s, e).1[i]->Register_0),
{
}

/// The step that ends a session unregisters the peer it accepted, whatever
/// ends it; a session unregisters no other peer, and none before it ends.
pub proof fn lemma_termination_unregisters(s: SessionView, e: SessionEventView)
    requires
        s.phase != Phase::Terminated,
    ensures
        session_next(s, e).0.phase == Phase::Terminated ==> session_next(s, e).1 == match s.peer_id {
            Some(p) => seq![SessionActionView::Unregister(p)],
            None => Seq::<SessionActionView>::empty(),
        },
        forall|i: int|
            0 <= i < session_next(s, e).1.len() && (#[trigger] session_next(s, e).1[i]) is Unregister
                ==> session_next(s, e).0.phase == Phase::Terminated && s.peer_id == Some(
                session_next(s, e).1[i]->Unregister_0,
            ),
{
}

/// A keep-alive request makes an established session write exactly one frame,
/// the four zero bytes; fanned out over a list that names each registered peer
/// once, every registered session gets exactly one request.
pub proof fn lemma_keep_alive_fan_out<H>(
    s: SessionView,
    registry: Map<Seq<u8>, H>,
    targets: Seq<Seq<u8>>,
)
    requires
        s.phase == Phase::Established,
        targets.no_duplicates(),
        targets.to_set() == registry.dom(),
    ensures
        session_next(s, SessionEventView::KeepAliveRequested) == (s, seq![
            SessionActionView::Send(MessageView::KeepAlive),
        ]),
        message_wire(MessageView::KeepAlive) == seq![0u8, 0u8, 0u8, 0u8],
        forall|peer: Seq<u8>| #[trigger]
            registry.contains_key(peer) ==> exists|i: int|
                0 <= i < targets.len() && targets[i] == peer && forall|j: int|
                    0 <= j < targets.len() && targets[j] == peer ==> j == i,
{
    assert forall|peer: Seq<u8>| #[trigger] registry.contains_key(peer) implies exists|i: int|
        0 <= i < targets.len() && targets[i] == peer && forall|j: int|
            0 <= j < targets.len() && targets[j] == peer ==> j == i by {
        assert(targets.to_set().contains(peer));
        let i = choose|i: int| 0 <= i < targets.len() && targets[i] == peer;
        assert forall|j: int| 0 <= j < targets.len() && targets[j] == peer implies j == i by {}
    }
}

} // verus!

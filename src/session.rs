//! The decisions of a peer session: which handshake to send, what to accept
//! from the peer, when to register with the torrent and when to leave it. The
//! reads, the writes and the messages to the torrent are the caller's.
use vstd::prelude::*;

use crate::handshake::{Handshake, HandshakeView};
use crate::info_hash::InfoHash;
use crate::keep_alive::KeepAlive;
use crate::message::{Message, MessageView};
use crate::outcome::Outcome;
use crate::peer_id::PeerId;

verus! {

/// The side of the connection that a session plays in the handshake.
#[derive(Debug, Clone, Copy, PartialEq, Eq, Structural)]
pub enum Role {
    /// We opened the connection: our handshake goes first.
    Initiator,
    /// The peer opened it: its handshake comes first, ours answers it.
    Responder,
}

/// Where a session stands within the handshake.
#[derive(Debug, Clone, Copy, PartialEq, Eq, Structural)]
pub enum HandshakeStep {
    /// Our handshake is being written, before the peer's is read.
    SendingOurs,
    /// The peer's handshake is awaited.
    AwaitingPeers,
    /// The peer's handshake was accepted; our answer is being written.
    SendingReply,
}

/// The life of a session.
#[derive(Debug, Clone, Copy, PartialEq, Eq, Structural)]
pub enum Phase {
    Fresh,
    Handshaking { role: Role, step: HandshakeStep },
    Established,
    Terminated,
}

/// What happened to a session: a request, or the result of its last action.
#[derive(Debug, Clone, PartialEq, Eq)]
pub enum SessionEvent {
    /// Open the handshake on an outgoing connection.
    InitiateHandshake,
    /// Wait for the handshake on an incoming connection.
    AwaitHandshake,
    /// The last message was written.
    Sent,
    /// A message came from the peer.
    Received(Message),
    /// A read or a write failed, or the peer closed the connection.
    TransportFailed,
    /// The torrent asks for a keep-alive.
    KeepAliveRequested,
    /// The session is asked to stop.
    StopRequested,
}

/// What the caller must do for a session, in order.
#[derive(Debug, Clone, PartialEq, Eq)]
pub enum SessionAction {
    /// Write this message to the peer, then report `Sent` or `TransportFailed`.
    Send(Message),
    /// Read one message, then report `Received` or `TransportFailed`.
    Receive,
    /// Tell the torrent that this session serves the peer.
    Register(PeerId),
    /// Hand the read half to a loop that reads until the connection ends.
    StartReceiveLoop,
    /// Tell the torrent that this session no longer serves the peer.
    Unregister(PeerId),
}

/// The plain values of a session event.
pub enum SessionEventView {
    InitiateHandshake,
    AwaitHandshake,
    Sent,
    Received(MessageView),
    TransportFailed,
    KeepAliveRequested,
    StopRequested,
}

/// The plain values of a session action.
pub enum SessionActionView {
    Send(MessageView),
    Receive,
    Register(Seq<u8>),
    StartReceiveLoop,
    Unregister(Seq<u8>),
}

impl View for SessionEvent {
    type V = SessionEventView;

    open spec fn view(&self) -> SessionEventView {
        match self {
            SessionEvent::InitiateHandshake => SessionEventView::InitiateHandshake,
            SessionEvent::AwaitHandshake => SessionEventView::AwaitHandshake,
            SessionEvent::Sent => SessionEventView::Sent,
            SessionEvent::Received(m) => SessionEventView::Received(m@),
            SessionEvent::TransportFailed => SessionEventView::TransportFailed,
            SessionEvent::KeepAliveRequested => SessionEventView::KeepAliveRequested,
            SessionEvent::StopRequested => SessionEventView::StopRequested,
        }
    }
}

impl View for SessionAction {
    type V = SessionActionView;

    open spec fn view(&self) -> SessionActionView {
        match self {
            SessionAction::Send(m) => SessionActionView::Send(m@),
            SessionAction::Receive => SessionActionView::Receive,
            SessionAction::Register(p) => SessionActionView::Register(p@),
            SessionAction::StartReceiveLoop => SessionActionView::StartReceiveLoop,
            SessionAction::Unregister(p) => SessionActionView::Unregister(p@),
        }
    }
}

/// The plain values of a session.
pub struct SessionView {
    pub own_peer_id: Seq<u8>,
    pub info_hash: Seq<u8>,
    pub expected_peer_id: Option<Seq<u8>>,
    pub peer_id: Option<Seq<u8>>,
    pub phase: Phase,
}

/// The bytes of an optional identifier.
pub open spec fn peer_view(p: Option<PeerId>) -> Option<Seq<u8>> {
    match p {
        Some(id) => Some(id@),
        None => None,
    }
}

/// The state of one peer session.
pub struct Session {
    pub own_peer_id: PeerId,
    pub info_hash: InfoHash,
    /// The peer that the caller expects, if any.
    pub expected_peer_id: Option<PeerId>,
    /// The peer whose handshake was accepted, once one was.
    pub peer_id: Option<PeerId>,
    pub phase: Phase,
}

impl View for Session {
    type V = SessionView;

    open spec fn view(&self) -> SessionView {
        SessionView {
            own_peer_id: self.own_peer_id@,
            info_hash: self.info_hash@,
            expected_peer_id: peer_view(self.expected_peer_id),
            peer_id: peer_view(self.peer_id),
            phase: self.phase,
        }
    }
}

/// Our own handshake for the session's torrent.
pub open spec fn own_handshake(s: SessionView) -> MessageView {
    MessageView::Handshake(HandshakeView { info_hash: s.info_hash, peer_id: s.own_peer_id })
}

/// Whether a message is a handshake that the session accepts: for its
/// torrent, and from the expected peer if one is expected.
pub open spec fn accepts(s: SessionView, m: MessageView) -> bool {
    match m {
        MessageView::Handshake(h) => h.info_hash == s.info_hash && match s.expected_peer_id {
            Some(q) => q == h.peer_id,
            None => true,
        },
        _ => false,
    }
}

/// Ending a session: a peer that was accepted is unregistered.
pub open spec fn terminate(s: SessionView) -> (SessionView, Seq<SessionActionView>) {
    (
        SessionView { phase: Phase::Terminated, ..s },
        match s.peer_id {
            Some(p) => seq![SessionActionView::Unregister(p)],
            None => seq![],
        },
    )
}

/// The transitions of a session: its next state, and the actions that the
/// caller must carry out, in order. Events that do not fit the state change
/// nothing.
pub open spec fn session_next(s: SessionView, e: SessionEventView) -> (SessionView, Seq<
    SessionActionView,
>) {
    match (s.phase, e) {
        (Phase::Terminated, _) => (s, seq![]),
        (_, SessionEventView::StopRequested) => terminate(s),
        (Phase::Fresh, SessionEventView::InitiateHandshake) => (
            SessionView {
                phase: Phase::Handshaking { role: Role::Initiator, step: HandshakeStep::SendingOurs },
                ..s
            },
            seq![SessionActionView::Send(own_handshake(s))],
        ),
        (Phase::Fresh, SessionEventView::AwaitHandshake) => (
            SessionView {
                phase: Phase::Handshaking {
                    role: Role::Responder,
                    step: HandshakeStep::AwaitingPeers,
                },
                ..s
            },
            seq![SessionActionView::Receive],
        ),
        (
            Phase::Handshaking { role, step: HandshakeStep::SendingOurs },
            SessionEventView::Sent,
        ) => (
            SessionView {
                phase: Phase::Handshaking { role, step: HandshakeStep::AwaitingPeers },
                ..s
            },
            seq![SessionActionView::Receive],
        ),
        (
            Phase::Handshaking { role, step: HandshakeStep::AwaitingPeers },
            SessionEventView::Received(m),
        ) => {
            if accepts(s, m) {
                let p = m->Handshake_0.peer_id;
                if role == Role::Initiator {
                    (
                        SessionView { peer_id: Some(p), phase: Phase::Established, ..s },
                        seq![SessionActionView::Register(p), SessionActionView::StartReceiveLoop],
                    )
                } else {
                    (
                        SessionView {
                            peer_id: Some(p),
                            phase: Phase::Handshaking { role, step: HandshakeStep::SendingReply },
                            ..s
                        },
                        seq![SessionActionView::Send(own_handshake(s))],
                    )
                }
            } else {
                terminate(s)
            }
        },
        (
            Phase::Handshaking { role: _, step: HandshakeStep::SendingReply },
            SessionEventView::Sent,
        ) => match s.peer_id {
            Some(p) => (
                SessionView { phase: Phase::Established, ..s },
                seq![SessionActionView::Register(p), SessionActionView::StartReceiveLoop],
            ),
            None => terminate(s),
        },
        (Phase::Handshaking { .. }, SessionEventView::TransportFailed) => terminate(s),
        (Phase::Established, SessionEventView::TransportFailed) => terminate(s),
        (Phase::Established, SessionEventView::KeepAliveRequested) => (
            s,
            seq![SessionActionView::Send(MessageView::KeepAlive)],
        ),
        _ => (s, seq![]),
    }
}

/// The plain values of a list of actions.
pub open spec fn action_views(actions: Seq<SessionAction>) -> Seq<SessionActionView> {
    actions.map_values(|a: SessionAction| a@)
}

/// Why a session refuses the first message of its peer.
#[derive(Debug, Clone, Copy, PartialEq, Eq, Structural)]
pub enum HandshakeError {
    /// The message is no handshake.
    NotAHandshake,
    /// The handshake is for another torrent.
    InfoHashMismatch,
    /// The handshake comes from another peer than the expected one.
    PeerIdMismatch,
}

/// Checks the first message of a peer: a handshake for `info_hash`, from the
/// expected peer if one is given. Returns the peer's identifier.
pub fn check_handshake(info_hash: &InfoHash, expected: &Option<PeerId>, message: &Message) -> (r:
    Result<PeerId, HandshakeError>)
    ensures
        match message@ {
            MessageView::Handshake(h) => {
                if h.info_hash != info_hash@ {
                    r == Err::<PeerId, HandshakeError>(HandshakeError::InfoHashMismatch)
                } else if expected matches Some(q) && q@ != h.peer_id {
                    r == Err::<PeerId, HandshakeError>(HandshakeError::PeerIdMismatch)
                } else {
                    r matches Ok(p) && p@ == h.peer_id
                }
            },
            _ => r == Err::<PeerId, HandshakeError>(HandshakeError::NotAHandshake),
        },
{
    match message {
        Message::Handshake(h) => {
            if !(h.info_hash == *info_hash) {
                return Err(HandshakeError::InfoHashMismatch);
            }
            if let Some(q) = expected {
                if !(*q == h.peer_id) {
                    return Err(HandshakeError::PeerIdMismatch);
                }
            }
            Ok(h.peer_id)
        },
        _ => Err(HandshakeError::NotAHandshake),
    }
}

impl Session {
    /// A fresh session of our peer for a torrent, expecting a given peer or
    /// any.
    pub fn new(own_peer_id: PeerId, expected_peer_id: Option<PeerId>, info_hash: InfoHash) -> (r:
        Session)
        ensures
            r@ == (SessionView {
                own_peer_id: own_peer_id@,
                info_hash: info_hash@,
                expected_peer_id: peer_view(expected_peer_id),
                peer_id: None,
                phase: Phase::Fresh,
            }),
    {
        Session { own_peer_id, info_hash, expected_peer_id, peer_id: None, phase: Phase::Fresh }
    }

    fn own_handshake(&self) -> (r: Message)
        ensures
            r@ == own_handshake(self@),
    {
        Message::Handshake(Handshake::new(self.info_hash, self.own_peer_id))
    }

    fn terminate(&mut self) -> (r: Vec<SessionAction>)
        ensures
            (final(self)@, action_views(r@)) == terminate(old(self)@),
    {
        self.phase = Phase::Terminated;
        let mut actions: Vec<SessionAction> = Vec::new();
        if let Some(p) = self.peer_id {
            actions.push(SessionAction::Unregister(p));
        }
        proof {
            assert(action_views(actions@) =~= terminate(old(self)@).1);
        }
        actions
    }

    /// Takes in one event and returns the actions that it calls for, in order.
    pub fn step(&mut self, event: SessionEvent) -> (r: Vec<SessionAction>)
        ensures
            (final(self)@, action_views(r@)) == session_next(old(self)@, event@),
    {
        let mut actions: Vec<SessionAction> = Vec::new();
        match (self.phase, event) {
            (Phase::Terminated, _) => {},
            (_, SessionEvent::StopRequested) => {
                actions = self.terminate();
            },
            (Phase::Fresh, SessionEvent::InitiateHandshake) => {
                self.phase = Phase::Handshaking {
                    role: Role::Initiator,
                    step: HandshakeStep::SendingOurs,
                };
                actions.push(SessionAction::Send(self.own_handshake()));
            },
            (Phase::Fresh, SessionEvent::AwaitHandshake) => {
                self.phase = Phase::Handshaking {
                    role: Role::Responder,
                    step: HandshakeStep::AwaitingPeers,
                };
                actions.push(SessionAction::Receive);
            },
            (Phase::Handshaking { role, step: HandshakeStep::SendingOurs }, SessionEvent::Sent) => {
                self.phase = Phase::Handshaking { role, step: HandshakeStep::AwaitingPeers };
                actions.push(SessionAction::Receive);
            },
            (
                Phase::Handshaking { role, step: HandshakeStep::AwaitingPeers },
                SessionEvent::Received(message),
            ) => {
                match check_handshake(&self.info_hash, &self.expected_peer_id, &message) {
                    Ok(p) => {
                        self.peer_id = Some(p);
                        match role {
                            Role::Initiator => {
                                self.phase = Phase::Established;
                                actions.push(SessionAction::Register(p));
                                actions.push(SessionAction::StartReceiveLoop);
                            },
                            Role::Responder => {
                                self.phase = Phase::Handshaking {
                                    role,
                                    step: HandshakeStep::SendingReply,
                                };
                                actions.push(SessionAction::Send(self.own_handshake()));
                            },
                        }
                    },
                    Err(_) => {
                        actions = self.terminate();
                    },
                }
            },
            (Phase::Handshaking { role: _, step: HandshakeStep::SendingReply }, SessionEvent::Sent) => {
                match self.peer_id {
                    Some(p) => {
                        self.phase = Phase::Established;
                        actions.push(SessionAction::Register(p));
                        actions.push(SessionAction::StartReceiveLoop);
                    },
                    None => {
                        actions = self.terminate();
                    },
                }
            },
            (Phase::Handshaking { .. }, SessionEvent::TransportFailed) => {
                actions = self.terminate();
            },
            (Phase::Established, SessionEvent::TransportFailed) => {
                actions = self.terminate();
            },
            (Phase::Established, SessionEvent::KeepAliveRequested) => {
                actions.push(SessionAction::Send(Message::KeepAlive(KeepAlive)));
            },
            _ => {},
        }
        proof {
            assert(action_views(actions@) =~= session_next(old(self)@, event@).1);
        }
        actions
    }

    /// Whether the session's actor goes on or stops after its last event.
    pub fn outcome(&self) -> (r: Outcome)
        ensures
            r == (if self.phase == Phase::Terminated {
                Outcome::Stop
            } else {
                Outcome::Continue
            }),
    {
        if self.phase == Phase::Terminated {
            Outcome::Stop
        } else {
            Outcome::Continue
        }
    }
}

} // verus!

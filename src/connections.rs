//! The two halves of a connection, which a transport implements: the bridge
//! between the sans-I/O codec and the bytes on the network.
use vstd::prelude::*;

use crate::message::{message_fits, Message};

verus! {

/// Why a connection could not take or deliver a message.
#[derive(Debug, Clone, Copy, PartialEq, Eq, Structural)]
pub enum ConnectionError {
    /// The peer closed the connection, or the reader stopped.
    Closed,
    /// The transport failed.
    Transport,
}

/// The read half of a connection: it decodes and buffers what the peer sends.
pub trait ConnectionRead {
    /// Waits for the next whole message from the peer.
    fn receive(&self) -> Result<Message, ConnectionError>;
}

/// The write half of a connection: it encodes and sends what we send.
pub trait ConnectionWrite {
    /// Encodes the message, writes it to the peer and flushes.
    fn send(&mut self, message: Message) -> Result<(), ConnectionError>
        requires
            message_fits(message@),
    ;
}

} // verus!

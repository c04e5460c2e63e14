//! Core of a small BitTorrent peer: identifiers, a sans-I/O wire codec, and
//! the decisions of the framed reader, of a peer session and of the torrent's
//! registry of sessions. Threads, sockets and mailboxes stay with the caller,
//! which carries out what these decisions call for.
use vstd::prelude::*;

pub mod codec_laws;
pub mod connections;
pub mod frame_reader;
pub mod handshake;
pub mod info_hash;
pub mod keep_alive;
pub mod message;
pub mod outcome;
pub mod peer_id;
pub mod registry;
pub mod session;
pub mod session_laws;
pub mod unknown;
pub mod wire;

pub use connections::{ConnectionError, ConnectionRead, ConnectionWrite};
pub use frame_reader::{FrameReader, ReadStep, ReaderVerdict, MAX_BUFFER_SIZE};
pub use handshake::Handshake;
pub use info_hash::{HexError, InfoHash};
pub use keep_alive::KeepAlive;
pub use message::{DecodedMessage, FrameError, Message};
pub use outcome::Outcome;
pub use peer_id::{PeerId, VersionError};
pub use registry::PeerRegistry;
pub use session::{HandshakeError, Phase, Role, Session, SessionAction, SessionEvent};
pub use unknown::{Unknown, MAX_FRAME_LENGTH};
pub use wire::{Decoded, SansIo};

verus! {

} // verus!

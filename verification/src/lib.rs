//! Discovery of database server instances over the UDP browser protocol.
//!
//! The crate holds the vocabulary of the protocol, the diagnostics that a
//! reply can give rise to, the decoder that turns one reply datagram into
//! instance records, and the decisions of one discovery round.

use vstd::prelude::*;

pub mod address;
pub mod decoder;
pub mod discovery;
pub mod discovery_laws;
pub mod error;
pub mod layout;
pub mod record;
pub mod text;
pub mod utf8;
pub mod wire;
pub mod wire_laws;

pub use address::{HostAddress, PeerAddress};
pub use decoder::decode;
pub use discovery::{Action, Discovery, Event, Phase, ReplyPolicy};
pub use error::{
    BrowserError, BrowserProtocolError, BrowserProtocolField, BrowserProtocolToken, ErrorCause,
    TextDecodeError,
};
pub use record::{FieldValue, InstanceRecord};

verus! {

/// The greatest length, in bytes, of the instance name in a request.
pub const MAX_INSTANCE_NAME_LEN: usize = 32;

} // verus!

//! End-to-end encrypted chat relay core: a per-peer key ratchet that derives a
//! fresh symmetric key for every message, a tagged envelope protocol with a
//! line-oriented text wire form, the server-side peer directory and connection
//! state machine that route opaque envelopes by name, and the client-side
//! session that keeps one ratchet state per peer.

pub mod bytes_util;
pub mod crypto;
pub mod directory;
pub mod errors;
pub mod message;
pub mod server;
pub mod session;
pub mod wire;

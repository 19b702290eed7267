//! The host of a peer-to-peer network.
//!
//! A [`host::Host`] keeps the connections to peers, the timers of protocol handlers, the known nodes
//! and the registered protocols. It decides; it does not touch sockets. Every event of the event
//! loop is reported to it, and it answers with the actions that have to follow.

pub mod action;
pub mod capability;
pub mod connection;
pub mod context;
pub mod encoding_laws;
pub mod event_laws;
pub mod hash;
pub mod host;
pub mod info;
pub mod laws;
pub mod node;
pub mod peer_laws;
pub mod protocols;
pub mod rlp;
pub mod seqs;
pub mod state_laws;
pub mod tokens;

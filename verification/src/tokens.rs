//! Event loop tokens and the limits of the host.
//!
//! Every socket and timer that the event loop knows of is identified by a number. The host keeps
//! a few fixed numbers for its own services and one contiguous range for connections. All other
//! numbers belong to timers that protocol handlers register.

use vstd::prelude::*;

verus! {

/// Protocol handler level packet id
pub type PacketId = u8;

/// Protocol / handler id
pub type ProtocolId = &'static str;

/// Local (temporary) peer session ID.
pub type PeerId = usize;

/// Identifies a timer of the event loop.
pub type TimerToken = usize;

/// Identifies a stream of the event loop.
pub type StreamToken = usize;

/// The port that the host listens on.
pub const DEFAULT_PORT: u16 = 30304;

/// How many connections the host holds at the same time, at most.
pub const MAX_CONNECTIONS: usize = 1024;

/// How many required peers the host tries to be connected to.
pub const IDEAL_PEERS: u32 = 10;

/// Milliseconds between two rounds of network maintenance.
pub const MAINTENANCE_TIMEOUT: u64 = 1000;

/// Milliseconds until the node table is maintained.
pub const NODETABLE_TIMEOUT: u64 = 7200;

/// All tokens of the host lie above this one.
pub const TOKEN_BEGIN: usize = 32;

/// The listening TCP socket.
pub const TCP_ACCEPT: usize = TOKEN_BEGIN + 1;

/// The network maintenance timer.
pub const IDLE: usize = TOKEN_BEGIN + 2;

/// The UDP socket of the node table.
pub const NODETABLE_RECEIVE: usize = TOKEN_BEGIN + 3;

/// The node table maintenance timer.
pub const NODETABLE_MAINTAIN: usize = TOKEN_BEGIN + 4;

/// The node discovery timer.
pub const NODETABLE_DISCOVERY: usize = TOKEN_BEGIN + 5;

/// The first token of a connection.
pub const FIRST_CONNECTION: usize = TOKEN_BEGIN + 16;

/// The last token of a connection.
pub const LAST_CONNECTION: usize = FIRST_CONNECTION + MAX_CONNECTIONS - 1;

/// The token is one of those that connections get.
pub open spec fn connection_token(token: usize) -> bool {
    FIRST_CONNECTION <= token <= LAST_CONNECTION
}

/// The token is one of the timers that the host runs for itself.
pub open spec fn service_timer(token: usize) -> bool {
    token == IDLE || token == NODETABLE_DISCOVERY || token == NODETABLE_MAINTAIN
}

/// Tells whether a token is one of those that connections get.
pub fn is_connection_token(token: usize) -> (yes: bool)
    ensures
        yes == connection_token(token),
{
    FIRST_CONNECTION <= token && token <= LAST_CONNECTION
}

} // verus!

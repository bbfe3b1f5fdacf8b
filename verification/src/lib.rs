//! Verified core of a line-oriented TCP echo server and its load-test client.
//!
//! The library holds the decisions of both programs: how the server spreads
//! new connections over its workers, how a worker counts its peers and
//! answers each line, how a client session proceeds from one echo to the
//! next, and how the client side tallies the echoes it has seen. The
//! sockets, channels and timers that drive these decisions live outside.
use vstd::prelude::*;

pub mod addr;
pub mod client;
pub mod server;

verus! {

/// `log::LevelFilter`, declared so that the command-line types can carry the
/// log level through; nothing in the library reads it.
#[verifier::external_type_specification]
#[verifier::external_body]
pub struct ExLevelFilter(log::LevelFilter);

} // verus!

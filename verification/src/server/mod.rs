//! The echo server: its command line, the acceptor's load balancing and the
//! workers' bookkeeping of connected peers.
pub mod cli_args;
pub mod connection_service;
pub mod echo_service;

//! Rally: a small runtime for a message-passing client and server, the wire
//! format they speak, and the bookkeeping of its executors and reactor.
pub mod wire;
pub mod data;
pub mod idmap;
pub mod executor;
pub mod reactor;
pub mod transfer;
pub mod runtime;
pub mod waker;
pub mod client;
pub mod server;
pub mod rally;
pub mod connector;

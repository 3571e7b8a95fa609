//! ZeroMQ sockets without I/O.
//!
//! A socket is a value. What its connections, timers and callers bring is handed to it,
//! and it hands back what is to be done: bytes and tasks are somebody else's business.
//! Connections, channels and tasks go by handles, peers by keys, and time is an argument,
//! so that every step can be stated exactly and proved.
//!
//! - `command`, `properties`, `wire`: commands and their encoding
//! - `heartbeat`, `heartbeats`: who is alive, and when to send a PING
//! - `peers`, `policy`, `registry`, `lifecycle`: peers from their coming to their going
//! - `backend`, `round_robin`, `pull`, `rep`: sockets that deal messages out and take
//!   them in
//! - `publish`, `publisher`, `xpub`, `topics`, `sub`, `pubsub`: sockets that publish and
//!   subscribe
//! - `octets`, `clock`: byte buffers and the clock
//! - `operations`, `exchanges`: what calls on all of these amount to, proved from their
//!   contracts
pub mod actions;
pub mod backend;
pub mod clock;
pub mod command;
pub mod error;
pub mod exchanges;
pub mod heartbeat;
pub mod heartbeats;
pub mod lifecycle;
pub mod message;
pub mod octets;
pub mod operations;
pub mod peers;
pub mod policy;
pub mod properties;
pub mod publish;
pub mod publisher;
pub mod pubsub;
pub mod pull;
pub mod receive;
pub mod reconnect;
pub mod registry;
pub mod rep;
pub mod round_robin;
pub mod socket;
pub mod sub;
pub mod topics;
pub mod wire;
pub mod xpub;

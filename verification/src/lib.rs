//! On-demand request dispatcher for a light client.
//!
//! A light client holds no local state; it obtains state by sending requests
//! to remote peers that serve verifiable proofs. This crate implements the
//! dispatcher that mediates between the client and the peer pool: it keeps a
//! FIFO queue of pending requests, a registry of idle and actively serving
//! peers, pairs requests with peers, verifies returned proofs through a
//! pluggable checker, and evicts peers that time out or misbehave, requeueing
//! their work.
//!
//! The dispatcher itself performs no I/O and reads no clock: operations take
//! the current time in milliseconds as an argument and return the outbound
//! messages and disconnect orders they produce, for the caller to carry out.

pub mod active;
pub mod laws;
pub mod message;
pub mod model;
pub mod on_demand;
pub mod request;
mod sink;
pub mod types;

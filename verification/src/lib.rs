//! A multi-reactor listener pool, as a set of verified state machines.
//!
//! A pool serves requests from several independent workers. Each worker owns a
//! private scheduler and binds every address of the pool on a socket of its
//! own; the operating system spreads incoming connections over the sockets
//! that share an address. This crate holds the decisions of that design: which
//! addresses a pool listens on, which steps prepare a socket and in what order,
//! what a worker does next after each thing that happens to it, how a handler's
//! failure becomes a response, and which worker's failure the pool reports.
//! Sockets, schedulers and threads belong to the program around it, which
//! carries out each directive and reports what happened.

pub mod address;
pub mod binder;
pub mod error;
pub mod pool;
pub mod router;
pub mod service;
pub mod shio;
pub mod worker;

pub use crate::shio::Shio;

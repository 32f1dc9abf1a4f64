//! A counter kept in step between nodes over a half-duplex radio link.
//!
//! The library holds the node's decisions: the wire format of a counter
//! update, the saturating counter store, the transceiver's mode machine and
//! the engine that sequences them. Hardware access, networking and drawing
//! belong to the program that drives it.

pub mod codec;
pub mod counter;
pub mod radio;
pub mod engine;

//! Protocol logic for the MH-Z19 CO₂ sensor: the 9-byte frame codec with its
//! checksum, and the bounded-retry state machine that drives a concentration
//! read. The serial channel itself is handled by the surrounding application;
//! this crate decides what to send and how to interpret what came back.

pub mod driver;
pub mod frame;

pub use frame::Range;

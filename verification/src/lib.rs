//! Core of a relay for the CTMP framing protocol: the frame codec with its
//! ones'-complement checksum, the per-producer session state machine, and the
//! registry of consumers with its fan-out. The crate performs no I/O: a driver
//! reads and writes the sockets and feeds the outcomes to the state machines.

pub mod checksum;
pub mod checksum_laws;
pub mod frame;
pub mod frame_laws;
pub mod header;
pub mod header_laws;
pub mod registry;
pub mod registry_laws;
pub mod session;
pub mod session_laws;

//! The per-protocol header encodings.

pub mod dyn_protocols;
pub mod ipv4;
pub mod payload;
pub mod tcp;
pub mod udp;

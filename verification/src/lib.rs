//! Fixed-width ternary encoding of packet headers.
//!
//! Every position of an encoding holds `0` or `1` for a bit of the header it
//! stands for, or `-1` where the packet carries no such field. The width of an
//! encoding depends on the configured protocols alone, never on the packet.
//!
//! - [`bits`], [`options`] and [`values`]: unpacking bytes into positions,
//!   normalising header options, and what the positions of a field denote.
//! - [`wire`] and [`frame`]: what `pnet` reads from a buffer, and the raw
//!   headers that a link-layer frame carries.
//! - [`protocols`] and [`schema`]: the encodings of IPv4, TCP, UDP and raw
//!   payload, their field layouts and column names.
//! - [`headers`] and [`nprint`]: the encoding of one packet under a protocol
//!   stack, and the packets of one flow.

pub mod bits;
pub mod frame;
pub mod headers;
pub mod nprint;
pub mod options;
pub mod protocols;
pub mod schema;
pub mod values;
pub mod wire;

pub use crate::headers::{Header, Headers, ProtocolType};
pub use crate::nprint::{Nprint, StackError};

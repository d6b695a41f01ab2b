//! Finding out the public IPv4 address of this machine by asking an echo
//! service over HTTP.
//!
//! The crate holds every decision of a lookup and none of its input and
//! output. A caller sends the one GET request and reads the body when it is
//! told to, and hands what came back to the functions of [`resolve`]; they
//! say what to do next and, at the end, what the lookup has found.

pub mod address;
pub mod error;
pub mod ipv4;
pub mod resolve;

pub use address::PublicAddress;
pub use error::ResolutionError;
pub use resolve::{get_public_ip_address, get_public_ip_address_with_override};

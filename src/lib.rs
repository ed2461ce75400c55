//! Status queries for game servers that answer the RakNet unconnected ping.
//!
//! The library builds the ping datagram, decodes the pong reply and maps its
//! `;`-separated payload onto typed fields. Sockets and the clock are left to
//! the caller, who hands the library plain values.

pub mod error;
pub mod wire;
pub mod fields;
pub mod status;

pub use error::QueryError;
pub use status::{Players, Server, Status, Version};

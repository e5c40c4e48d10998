//! Lifecycle management for a kernel WireGuard interface that is created
//! through NetworkManager and reconfigured through netlink: the settings
//! that create it, the stages it goes through, the counters it reports.
//! Beside it stand the cache of the API address and the checksum
//! verifier for downloaded files.
//!
//! Nothing in this crate performs input or output. Where the outside world
//! is needed, a function says what to ask of it and another takes the
//! answer.

pub mod address;
pub mod address_cache;
pub mod assoc;
pub mod base64;
pub mod checksum;
pub mod config;
pub mod nm_tunnel;
pub mod parse;
pub mod stats;
pub mod text;
pub mod translate;
pub mod wire;

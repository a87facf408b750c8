//! Turns a WireGuard configuration and a list of endpoints into shareable
//! NekoRay node links.

pub mod text;
pub mod config;
pub mod mtu;
pub mod host;
pub mod endpoint;
pub mod json;
pub mod link;
pub mod batch;

//! Bridge from an Icecast server's mount list to InfluxDB measurements.
//!
//! The library holds the rules of the bridge: how a status snapshot becomes a
//! batch of measurements, how the settings become a configuration, and in
//! which order a collection cycle fetches, decodes, maps and publishes. All
//! network traffic is left to the caller.

pub mod clock;
pub mod collector;
pub mod config;
pub mod decimal;
pub mod fetch;
pub mod list_mounts;
pub mod mapper;
pub mod measurement;

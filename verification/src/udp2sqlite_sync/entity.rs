//! The payloads that the sync server stores.
pub mod target;
pub mod unit;

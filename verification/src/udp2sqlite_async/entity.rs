//! The payloads that the async server stores.
pub mod target;
pub mod unit;

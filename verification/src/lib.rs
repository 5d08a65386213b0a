//! Verified core of a small set of data tools: a binary UDP message codec
//! for the udp2sqlite servers, SQL statement generation for pg2sqlite,
//! record handling for the solar simulator, and the state machine of the
//! yuna terminal greeter.
pub mod text;
pub mod decimal;
pub mod calendar;
pub mod wire;
pub mod udp2sqlite_sync;
pub mod udp2sqlite_async;
pub mod pg2sqlite;
pub mod yuna;
pub mod solar_sim;

//! solar_sim: loading hourly power use, solar irradiance and weather
//! records, and the parameter grid of the simulation.
pub mod gui;
pub mod parameter;
pub mod power;
pub mod progress;
pub mod solar;
pub mod weather;

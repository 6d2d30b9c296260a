//! VIPER: a live picture of tracked objects (aircraft, vessels, heat spots, satellites)
//! gathered from public feeds, kept in an engine that hands out snapshots and
//! batches of what changed.

pub mod adsb;
pub mod ais;
pub mod comms;
pub mod config;
pub mod engine;
pub mod feeds;
pub mod firms;
pub mod model;
pub mod orbital;
pub mod store;
pub mod text;

//! Verified core of a WiFi hotspot billing backend: RADIUS packet
//! encoding, input validation and the decisions its handlers make.
pub mod api;
pub mod codec;
pub mod config;
pub mod crypto;
pub mod error;
pub mod models;
pub mod pattern;
pub mod radius;
pub mod text;
pub mod utils;

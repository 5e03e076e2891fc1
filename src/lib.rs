//! Grenade fragmentation simulation: configuration, phase control, fragment
//! generation and telemetry, stated over fixed-point quantities.

pub mod config;
pub mod fixed;
pub mod fragment;
pub mod grenade;
pub mod scene;
pub mod settings;
pub mod sim;
pub mod telemetry;
pub mod text;

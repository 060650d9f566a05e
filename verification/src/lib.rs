//! Verified core of an ESP32 music controller.
pub mod text;
pub mod improv;
pub mod improv_laws;
pub mod wifi;
pub mod provisioning;
pub mod json_scan;
pub mod spotify;
pub mod player;
pub mod display;
pub mod laws;
pub mod button;
pub mod server;

//! Core logic of a single-host remote-desktop streaming server: colour
//! conversion, the encoder adapter, signaling and session decisions, and
//! the planning of input replay.

pub mod encoder;
pub mod input;
pub mod laws;
pub mod media;
pub mod readback;
pub mod session;
pub mod yuv;

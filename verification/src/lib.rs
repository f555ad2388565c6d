//! Art-Net output for DMX frames received from Aurora core: frame encoding,
//! the sender's buffer and run state, configuration checks and payload decoding.

pub mod auth;
pub mod config;
pub mod packet;
pub mod payload;
pub mod sender;
pub mod session;

//! A transport engine between a UWB radio on a raw serial line and a
//! controlling client: UCI frame assembly, the session state machine and
//! the shutdown reset handshake, each as verified decision logic.

pub mod error;
pub mod frame;
pub mod handshake;
pub mod reader;
pub mod session;

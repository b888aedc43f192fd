//! Strategies for the debug bridges that a server can drive.

pub mod uio;

//! Protocol engine for the Xilinx Virtual Cable (XVC) protocol, version 1.0.
//!
//! The crate holds the byte-exact message codec, the per-connection server
//! state machine and the chunked shift strategy for debug bridges that move at
//! most 32 bits per hardware transaction. Every function carries a contract
//! that is checked by Verus.
//!
//! The crate does no input or output of its own. Where the work alternates
//! between a device or a socket and a decision, the crate makes the decision:
//! it takes what was read or seen and says what to do next.

pub mod backends;
pub mod client;
pub mod codec;
pub mod device;
pub mod error;
pub mod info;
pub mod protocol;
pub mod server;
pub mod stream;
pub mod version;
pub mod wire;

pub use device::XvcServer;
pub use protocol::{Message, XvcInfo};
pub use version::Version;

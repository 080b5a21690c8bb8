//! Safe building blocks around a native secp256k1-zkp library: a hex codec
//! that validates text before it is turned into fixed-width byte buffers,
//! and a single-owner model of native scratch-space arenas.

pub mod codec;
pub mod scratch;

pub use codec::from_hex;
pub use scratch::{ScratchRegistry, ScratchSpace};

//! Verified engine for sampling the state of objects that live inside the
//! address space of a separate, uncooperative process.
//!
//! All reasoning happens over an explicit snapshot model of foreign memory
//! ([`mem::MemoryImage`]); the unverified driver performs the actual reads
//! and feeds the bytes in.

pub mod anchor;
pub mod chain;
pub mod decode;
mod errors;
pub mod game_world;
pub mod mem;
pub mod offsets;
pub mod players;
pub mod scatter;
pub mod session;

pub use errors::ProbeError;

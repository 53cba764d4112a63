//! Provider-neutral message model, provider settings, and the two wire
//! protocols.

pub mod provider;
pub mod stream;
pub mod types;
pub mod wire;

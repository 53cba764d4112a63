//! Agent subsystems.

pub mod compact;
pub mod ctx;
pub mod hooks;
pub mod memory;
pub mod permission;
pub mod prompt;
pub mod recovery;
pub mod skill_zip;
pub mod skills;
pub mod tools;
pub mod turn;

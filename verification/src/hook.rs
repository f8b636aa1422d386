//! What the hooks in the engine's process decide and compute.

pub mod attributes;
pub mod code;
pub mod cstr;
pub mod dump;
pub mod engine;
pub mod job;
pub mod laws;
pub mod picture;
pub mod rotation;
pub mod save;
pub mod tasks;

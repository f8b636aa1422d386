//! Reading and rewriting Portable Executable images.

pub mod hook;
pub mod image;
pub mod laws;
pub mod patch;
pub mod window;

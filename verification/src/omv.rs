//! The header of an OMV movie file.

pub mod header;
pub mod video;

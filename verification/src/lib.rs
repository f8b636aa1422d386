//! Playback, save-file and executable-patching logic of a performance patch for the Siglus engine.

pub mod bytes;
pub mod hook;
pub mod injector;
pub mod io;
pub mod movie;
pub mod omv;
pub mod pe;
pub mod text;
pub mod wide;

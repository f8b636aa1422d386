//! Playing a movie: decoded frames, their queues, and the decisions of the player and its worker.

pub mod clock;
pub mod convert;
pub mod decoder;
pub mod demuxer;
pub mod exports;
pub mod frame;
pub mod laws;
pub mod looper;
pub mod overlay;
pub mod packet;
pub mod player;
pub mod pool;
pub mod session;
pub mod time;
pub mod worker;

//! Picking the packets of one stream out of a file.

use vstd::prelude::*;

use crate::movie::packet::Packet;

verus! {

/// A packet of any stream, as it was read from the file; its times are in milliseconds.
#[derive(Clone, Copy, Debug)]
pub struct ReadPacket {
    pub stream_index: usize,
    pub size: usize,
    pub pts_ms: Option<i64>,
    pub duration_ms: i64,
    pub is_keyframe: bool,
}

/// The range of stream times that a seek may end in, and the time that it is to end at.
#[derive(Clone, Copy, Debug)]
pub struct SeekRange {
    pub target: i64,
    pub start: i64,
    pub end: i64,
}

/// What follows a packet that was read.
#[derive(Clone, Copy, Debug)]
pub enum NextPacket {
    /// A packet of the stream.
    Found(Packet),
    /// A packet of another stream: read on.
    ReadOn,
    /// The file is at its end.
    Ended,
}

/// Reads the packets of one stream.
#[derive(Clone, Copy, Debug)]
pub struct Demuxer {
    pub stream_index: usize,
}

impl Demuxer {
    /// Reads the packets of stream number `stream_index`.
    pub fn new(stream_index: usize) -> (demuxer: Demuxer)
        ensures
            demuxer.stream_index == stream_index,
    {
        Demuxer { stream_index }
    }

    /// Where to look for a stream time: at it, and not past it.
    pub fn seek(&self, pts: i64) -> (range: SeekRange)
        requires
            pts < i64::MAX,
        ensures
            range == (SeekRange { target: pts, start: 0, end: (pts + 1) as i64 }),
    {
        SeekRange { target: pts, start: 0, end: pts + 1 }
    }

    /// What to do with what was read last.
    pub fn next_packet(&self, read: Option<ReadPacket>) -> (next: NextPacket)
        ensures
            next == match read {
                None => NextPacket::Ended,
                Some(packet) => if packet.stream_index == self.stream_index {
                    NextPacket::Found(
                        Packet {
                            size: packet.size,
                            pts_ms: packet.pts_ms,
                            duration_ms: packet.duration_ms,
                            presentable: packet.pts_ms is Some,
                            is_keyframe: packet.is_keyframe,
                        },
                    )
                } else {
                    NextPacket::ReadOn
                },
            },
    {
        match read {
            None => NextPacket::Ended,
            Some(packet) => if packet.stream_index == self.stream_index {
                NextPacket::Found(
                    Packet::new(
                        packet.size,
                        packet.pts_ms,
                        packet.duration_ms,
                        packet.is_keyframe,
                    ),
                )
            } else {
                NextPacket::ReadOn
            },
        }
    }
}

} // verus!

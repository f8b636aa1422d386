//! Packets of a movie's stream on their way to the decoder.

use std::collections::VecDeque;

use vstd::prelude::*;

verus! {

/// Of how many packets a queue remembers the size and time.
pub const MAX_PACKET_STATS_LEN: usize = 64;

/// What is known of a packet that was read from the stream.
#[derive(Clone, Copy, Debug)]
pub struct Packet {
    pub size: usize,
    pub pts_ms: Option<i64>,
    pub duration_ms: i64,
    pub presentable: bool,
    pub is_keyframe: bool,
}

/// What a queue remembers of a packet.
#[derive(Clone, Copy, Debug)]
pub struct PacketInfo {
    pub size: usize,
    pub pts_ms: Option<i64>,
}

/// The packets that were handed to the decoder last.
#[derive(Debug)]
pub struct PacketQueue {
    pub packets: VecDeque<PacketInfo>,
    pub retained_bytes: usize,
    pub first_pts_ms: Option<i64>,
    pub last_pts_ms: Option<i64>,
}

/// What a queue of packets holds, in numbers.
#[derive(Clone, Copy, Debug)]
pub struct PacketQueueStats {
    pub len: usize,
    pub cached_bytes: usize,
    pub first_pts_ms: Option<i64>,
    pub last_pts_ms: Option<i64>,
}

/// The size of some packets.
pub open spec fn sizes(packets: Seq<PacketInfo>) -> int
    decreases packets.len(),
{
    if packets.len() == 0 {
        0
    } else {
        sizes(packets.drop_last()) + packets.last().size
    }
}

/// Packets do not take less than no bytes, and the one in front takes its part.
proof fn lemma_sizes(packets: Seq<PacketInfo>)
    ensures
        sizes(packets) >= 0,
        packets.len() > 0 ==> sizes(packets) == packets[0].size + sizes(packets.skip(1)),
    decreases packets.len(),
{
    if packets.len() > 0 {
        let front = packets.drop_last();
        lemma_sizes(front);
        if front.len() > 0 {
            assert(front.skip(1) =~= packets.skip(1).drop_last());
        } else {
            assert(packets.skip(1) =~= Seq::<PacketInfo>::empty());
        }
    }
}

/// The newest packets, as many as are remembered.
pub open spec fn newest(packets: Seq<PacketInfo>) -> Seq<PacketInfo> {
    if packets.len() > MAX_PACKET_STATS_LEN {
        packets.skip(packets.len() - MAX_PACKET_STATS_LEN)
    } else {
        packets
    }
}

impl Packet {
    /// A packet of the stream; it is shown where its time is known.
    pub fn new(
        size: usize,
        pts_ms: Option<i64>,
        duration_ms: i64,
        is_keyframe: bool,
    ) -> (packet: Packet)
        ensures
            packet == (Packet {
                size,
                pts_ms,
                duration_ms,
                presentable: pts_ms is Some,
                is_keyframe,
            }),
    {
        Packet { size, pts_ms, duration_ms, presentable: pts_ms.is_some(), is_keyframe }
    }

    /// Says whether the frames of the packet are to be shown.
    pub fn set_presentable(&mut self, presentable: bool)
        ensures
            *final(self) == (Packet { presentable, ..*old(self) }),
    {
        self.presentable = presentable;
    }

    /// What a queue remembers of the packet.
    pub open spec fn info(self) -> PacketInfo {
        PacketInfo { size: self.size, pts_ms: self.pts_ms }
    }
}

impl PacketQueue {
    /// Whether the queue remembers no more packets than it may, and their size.
    pub open spec fn wf(self) -> bool {
        &&& self.packets@.len() <= MAX_PACKET_STATS_LEN
        &&& self.retained_bytes == sizes(self.packets@)
    }

    /// Whether nothing is remembered.
    pub open spec fn is_clear(self) -> bool {
        &&& self.wf()
        &&& self.packets@ == Seq::<PacketInfo>::empty()
        &&& self.first_pts_ms is None
        &&& self.last_pts_ms is None
    }

    /// An empty queue.
    pub fn new() -> (queue: PacketQueue)
        ensures
            queue.is_clear(),
    {
        PacketQueue {
            packets: VecDeque::new(),
            retained_bytes: 0,
            first_pts_ms: None,
            last_pts_ms: None,
        }
    }

    /// Forgets every packet.
    pub fn clear(&mut self)
        ensures
            final(self).is_clear(),
    {
        self.packets.clear();
        self.retained_bytes = 0;
        self.first_pts_ms = None;
        self.last_pts_ms = None;
    }

    /// Remembers a packet, and forgets the oldest ones above the limit.
    pub fn push_back(&mut self, packet: &Packet)
        requires
            old(self).wf(),
            old(self).retained_bytes + packet.size <= usize::MAX,
        ensures
            final(self).wf(),
            final(self).packets@ == newest(old(self).packets@.push(packet.info())),
            final(self).first_pts_ms == final(self).packets@[0].pts_ms,
            final(self).last_pts_ms == match packet.pts_ms {
                Some(pts) => Some(pts),
                None => old(self).last_pts_ms,
            },
    {
        let info = PacketInfo { size: packet.size, pts_ms: packet.pts_ms };
        self.retained_bytes = self.retained_bytes + info.size;
        if info.pts_ms.is_some() {
            self.last_pts_ms = info.pts_ms;
        }
        self.packets.push_back(info);
        let ghost all = self.packets@;
        assert(all.drop_last() =~= old(self).packets@);
        if self.packets.len() > MAX_PACKET_STATS_LEN {
            proof {
                lemma_sizes(all);
                lemma_sizes(all.skip(1));
            }
            if let Some(oldest) = self.packets.pop_front() {
                assert(self.packets@ =~= all.skip(1));
                self.retained_bytes = self.retained_bytes.saturating_sub(oldest.size);
            }
        }
        self.first_pts_ms = self.packets[0].pts_ms;
    }

    /// What the queue holds, in numbers.
    pub fn stats(&self) -> (stats: PacketQueueStats)
        ensures
            stats.len == self.packets@.len(),
            stats.cached_bytes == self.retained_bytes,
            stats.first_pts_ms == self.first_pts_ms,
            stats.last_pts_ms == self.last_pts_ms,
    {
        PacketQueueStats {
            len: self.packets.len(),
            cached_bytes: self.retained_bytes,
            first_pts_ms: self.first_pts_ms,
            last_pts_ms: self.last_pts_ms,
        }
    }
}

} // verus!

//! The queues of the loop that is shown and of the one that follows it.

use vstd::prelude::*;

use crate::movie::frame::{buffers_of, FrameQueue, FrameQueueStats};
use crate::movie::packet::{PacketQueue, PacketQueueStats};
use crate::movie::pool::FramePool;

verus! {

/// Whether and how a movie is played in a loop.
#[derive(Clone, Copy, Debug)]
pub struct LoopConfig {
    pub enabled: bool,
    pub head_guard_ms: i64,
    pub tail_guard_ms: i64,
    pub loop_duration_ms: i64,
}

impl LoopConfig {
    /// A loop of this length, with a tenth of a second at either end to come round in.
    pub fn new(enabled: bool, loop_duration_ms: i64) -> (config: LoopConfig)
        ensures
            config == (LoopConfig {
                enabled,
                head_guard_ms: 100,
                tail_guard_ms: 100,
                loop_duration_ms,
            }),
    {
        LoopConfig { enabled, head_guard_ms: 100, tail_guard_ms: 100, loop_duration_ms }
    }

    /// Whether the movie starts over at its end.
    pub fn is_enabled(&self) -> (enabled: bool)
        ensures
            enabled == self.enabled,
    {
        self.enabled
    }

    /// Lets the movie end.
    pub fn disable(&mut self)
        ensures
            *final(self) == (LoopConfig { enabled: false, ..*old(self) }),
    {
        self.enabled = false;
    }
}

/// The frames and packets of one pass through the movie.
#[derive(Debug)]
pub struct LoopQueue {
    pub frames: FrameQueue,
    pub packets: PacketQueue,
}

/// What the queues of one pass hold, in numbers.
#[derive(Clone, Copy, Debug)]
pub struct LoopQueueStats {
    pub frames: FrameQueueStats,
    pub packets: PacketQueueStats,
}

/// The queues of the pass that is shown, and of the next one where that is being loaded.
#[derive(Debug)]
pub struct LoopQueues {
    pub current: LoopQueue,
    pub next: Option<LoopQueue>,
}

/// What all queues hold, in numbers.
#[derive(Clone, Copy, Debug)]
pub struct LoopQueuesStats {
    pub current: LoopQueueStats,
    pub next: Option<LoopQueueStats>,
}

impl LoopQueueStats {
    /// Whether these are the numbers of `queue`.
    pub open spec fn of(self, queue: LoopQueue) -> bool {
        &&& self.frames.len == queue.frames.frames@.len()
        &&& self.frames.cached_bytes == queue.frames.cached_bytes
        &&& self.frames.first_pts_ms == queue.frames.first_pts_ms
        &&& self.frames.last_pts_ms == queue.frames.last_pts_ms
        &&& self.frames.next_pts_ms == crate::movie::frame::front_pts(queue.frames.frames@)
        &&& self.packets.len == queue.packets.packets@.len()
        &&& self.packets.cached_bytes == queue.packets.retained_bytes
        &&& self.packets.first_pts_ms == queue.packets.first_pts_ms
        &&& self.packets.last_pts_ms == queue.packets.last_pts_ms
    }
}

impl LoopQueue {
    pub open spec fn wf(self) -> bool {
        self.frames.wf() && self.packets.wf()
    }

    /// Whether nothing is queued.
    pub open spec fn is_clear(self) -> bool {
        self.frames.is_clear() && self.packets.is_clear()
    }

    /// The last time that is queued: that of a frame, or else that of a packet.
    pub open spec fn last_pts(self) -> Option<i64> {
        match self.frames.last_pts_ms {
            Some(pts) => Some(pts),
            None => self.packets.last_pts_ms,
        }
    }

    /// Empty queues.
    pub fn new() -> (queue: LoopQueue)
        ensures
            queue.is_clear(),
    {
        LoopQueue { frames: FrameQueue::new(), packets: PacketQueue::new() }
    }

    /// Empties the queues and gives the buffers of the frames back.
    pub fn clear(&mut self, pool: &mut FramePool)
        requires
            old(pool).wf(),
        ensures
            final(self).is_clear(),
            final(pool).took_back(*old(pool), buffers_of(old(self).frames.frames@)),
    {
        self.frames.clear(pool);
        self.packets.clear();
    }

    /// The last time that is queued.
    pub fn last_pts_ms(&self) -> (pts: Option<i64>)
        ensures
            pts == self.last_pts(),
    {
        match self.frames.last_pts_ms() {
            Some(pts) => Some(pts),
            None => self.packets.last_pts_ms,
        }
    }

    /// Whether no more is to be queued. Packets never fill a queue: the oldest are forgotten.
    pub fn is_full(&self) -> (full: bool)
        ensures
            full == self.frames.full(),
    {
        self.frames.is_full()
    }

    /// What the queues hold, in numbers.
    pub fn stats(&self) -> (stats: LoopQueueStats)
        ensures
            stats.of(*self),
            stats.frames.len == self.frames.frames@.len(),
            stats.frames.cached_bytes == self.frames.cached_bytes,
            stats.frames.first_pts_ms == self.frames.first_pts_ms,
            stats.frames.last_pts_ms == self.frames.last_pts_ms,
            stats.packets.len == self.packets.packets@.len(),
            stats.packets.cached_bytes == self.packets.retained_bytes,
            stats.packets.first_pts_ms == self.packets.first_pts_ms,
            stats.packets.last_pts_ms == self.packets.last_pts_ms,
    {
        LoopQueueStats { frames: self.frames.stats(), packets: self.packets.stats() }
    }
}

impl LoopQueues {
    pub open spec fn wf(self) -> bool {
        self.current.wf() && (self.next matches Some(next) ==> next.wf())
    }

    /// Empty queues for one pass.
    pub fn new() -> (queues: LoopQueues)
        ensures
            queues.wf(),
            queues.current.is_clear(),
            queues.next is None,
    {
        LoopQueues { current: LoopQueue::new(), next: None }
    }

    /// Goes over to the next pass: to what is loaded of it, or to empty queues. The buffers of the
    /// pass before are given back.
    pub fn switch(&mut self, pool: &mut FramePool)
        requires
            old(self).wf(),
            old(pool).wf(),
        ensures
            final(self).wf(),
            final(self).next is None,
            match old(self).next {
                Some(next) => final(self).current == next,
                None => final(self).current.is_clear(),
            },
            final(pool).took_back(*old(pool), buffers_of(old(self).current.frames.frames@)),
    {
        self.current.clear(pool);
        match self.next.take() {
            Some(next_queue) => {
                self.current = next_queue;
            },
            None => {
                self.current = LoopQueue::new();
            },
        }
    }

    /// What all queues hold, in numbers.
    pub fn stats(&self) -> (stats: LoopQueuesStats)
        ensures
            stats.current.of(self.current),
            match self.next {
                Some(next) => stats.next matches Some(s) && s.of(next),
                None => stats.next is None,
            },
    {
        LoopQueuesStats {
            current: self.current.stats(),
            next: match &self.next {
                Some(next) => Some(next.stats()),
                None => None,
            },
        }
    }
}

} // verus!

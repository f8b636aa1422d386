//! Decoded frames that wait to be shown.

use std::collections::VecDeque;

use vstd::prelude::*;

use crate::movie::pool::{lemma_released_in_turn, FramePool, PooledFrameBuffer, MAX_FRAME_QUEUE_LEN};
use crate::movie::time::{add_ms, clamped, later, max_ms, sub_ms};

verus! {

/// How many bytes of frames a queue holds before it is full.
pub const MAX_FRAME_QUEUE_BYTES: usize = 96 * 1024 * 1024;

/// A decoded frame.
#[derive(Debug)]
pub struct Frame {
    pub inner: PooledFrameBuffer,
    pub pts_ms: Option<i64>,
    pub duration_ms: Option<i64>,
}

/// The frames that wait to be shown, the next one in front.
#[derive(Debug)]
pub struct FrameQueue {
    pub frames: VecDeque<Frame>,
    pub cached_bytes: usize,
    pub first_pts_ms: Option<i64>,
    pub last_pts_ms: Option<i64>,
}

/// What a queue of frames holds, in numbers.
#[derive(Clone, Copy, Debug)]
pub struct FrameQueueStats {
    pub len: usize,
    pub cached_bytes: usize,
    pub first_pts_ms: Option<i64>,
    pub last_pts_ms: Option<i64>,
    pub next_pts_ms: Option<i64>,
}

/// How many bytes some frames take.
pub open spec fn bytes_in(frames: Seq<Frame>) -> int
    decreases frames.len(),
{
    if frames.len() == 0 {
        0
    } else {
        bytes_in(frames.drop_last()) + frames.last().inner.bytes@.len()
    }
}

/// The buffers of some frames.
pub open spec fn buffers_of(frames: Seq<Frame>) -> Seq<Seq<u8>> {
    Seq::new(frames.len(), |i: int| frames[i].inner.bytes@)
}

/// Taking frames from the front takes their bytes.
pub proof fn lemma_bytes_in_rest(frames: Seq<Frame>)
    requires
        frames.len() > 0,
    ensures
        bytes_in(frames) == frames[0].inner.bytes@.len() + bytes_in(frames.skip(1)),
        bytes_in(frames.skip(1)) >= 0,
    decreases frames.len(),
{
    lemma_bytes_nonnegative(frames.skip(1));
    if frames.len() > 1 {
        let front = frames.drop_last();
        lemma_bytes_in_rest(front);
        assert(front.skip(1) =~= frames.skip(1).drop_last());
    } else {
        assert(frames.drop_last() =~= Seq::<Frame>::empty());
        assert(frames.skip(1) =~= Seq::<Frame>::empty());
    }
}

/// Frames do not take less than no bytes.
pub proof fn lemma_bytes_nonnegative(frames: Seq<Frame>)
    ensures
        bytes_in(frames) >= 0,
    decreases frames.len(),
{
    if frames.len() > 0 {
        lemma_bytes_nonnegative(frames.drop_last());
    }
}

/// The time of the frame in front, where it has one.
pub open spec fn front_pts(frames: Seq<Frame>) -> Option<i64> {
    if frames.len() > 0 {
        frames[0].pts_ms
    } else {
        None
    }
}

/// The time of the frame at the back, where it has one.
pub open spec fn back_pts(frames: Seq<Frame>) -> Option<i64> {
    if frames.len() > 0 {
        frames.last().pts_ms
    } else {
        None
    }
}

/// Whether a frame is not later than `target_ms`, give or take `threshold_ms`.
pub open spec fn is_due(frame: Frame, target_ms: i64, threshold_ms: i64) -> bool {
    match frame.pts_ms {
        Some(pts_ms) => pts_ms <= clamped(target_ms + threshold_ms),
        None => true,
    }
}

/// How many frames from number `from` on are due before the first that is not.
pub open spec fn due_until(
    frames: Seq<Frame>,
    target_ms: i64,
    threshold_ms: i64,
    from: int,
) -> int
    decreases frames.len() - from,
{
    if 0 <= from < frames.len() && is_due(frames[from], target_ms, threshold_ms) {
        due_until(frames, target_ms, threshold_ms, from + 1)
    } else {
        from
    }
}

/// The last of the first `n` frames that has a time.
pub open spec fn last_timed(frames: Seq<Frame>, n: int) -> Option<Frame>
    decreases n,
{
    if n <= 0 {
        None
    } else if frames[n - 1].pts_ms is Some {
        Some(frames[n - 1])
    } else {
        last_timed(frames, n - 1)
    }
}

/// The buffers that are given back while the last timed one of the first `n` frames is looked for:
/// that of every frame without a time, and that of the frame that a later one takes the place of.
pub open spec fn passed_over(frames: Seq<Frame>, n: int) -> Seq<Seq<u8>>
    decreases n,
{
    if n <= 0 {
        seq![]
    } else if frames[n - 1].pts_ms is None {
        passed_over(frames, n - 1).push(frames[n - 1].inner.bytes@)
    } else {
        match last_timed(frames, n - 1) {
            Some(frame) => passed_over(frames, n - 1).push(frame.inner.bytes@),
            None => passed_over(frames, n - 1),
        }
    }
}

impl FrameQueue {
    /// Whether the count of bytes is right.
    pub open spec fn wf(self) -> bool {
        self.cached_bytes == bytes_in(self.frames@)
    }

    /// Whether nothing is in the queue and nothing is remembered of what was.
    pub open spec fn is_clear(self) -> bool {
        &&& self.wf()
        &&& self.frames@ == Seq::<Frame>::empty()
        &&& self.first_pts_ms is None
        &&& self.last_pts_ms is None
    }

    /// Whether the queue takes no more frames.
    pub open spec fn full(self) -> bool {
        self.frames@.len() >= MAX_FRAME_QUEUE_LEN || self.cached_bytes >= MAX_FRAME_QUEUE_BYTES
    }

    /// An empty queue.
    pub fn new() -> (queue: FrameQueue)
        ensures
            queue.is_clear(),
    {
        FrameQueue {
            frames: VecDeque::new(),
            cached_bytes: 0,
            first_pts_ms: None,
            last_pts_ms: None,
        }
    }

    /// Empties the queue and gives the buffers back, that of the frame in front first.
    pub fn clear(&mut self, pool: &mut FramePool)
        requires
            old(pool).wf(),
        ensures
            final(self).is_clear(),
            final(pool).took_back(*old(pool), buffers_of(old(self).frames@)),
    {
        let ghost all = self.frames@;
        let ghost mut done: int = 0;
        assert(buffers_of(all).take(0) =~= Seq::<Seq<u8>>::empty());
        loop
            invariant
                all == old(self).frames@,
                0 <= done <= all.len(),
                self.frames@ == all.skip(done),
                pool.took_back(*old(pool), buffers_of(all).take(done)),
            ensures
                done == all.len(),
                self.frames@ == Seq::<Frame>::empty(),
            decreases self.frames@.len(),
        {
            match self.frames.pop_front() {
                Some(frame) => {
                    let ghost before = *pool;
                    let ghost bytes = frame.inner.bytes@;
                    pool.release(frame.inner);
                    proof {
                        assert(bytes == all[done].inner.bytes@);
                        lemma_one_more(*old(pool), before, *pool, buffers_of(all), done);
                        assert(all.skip(done).skip(1) =~= all.skip(done + 1));
                        done = done + 1;
                    }
                },
                None => {
                    break;
                },
            }
        }
        assert(buffers_of(all).take(done) =~= buffers_of(all));
        self.cached_bytes = 0;
        self.first_pts_ms = None;
        self.last_pts_ms = None;
    }

    /// Puts a frame at the back.
    pub fn push_back(&mut self, frame: Frame)
        requires
            old(self).wf(),
            old(self).cached_bytes + frame.inner.bytes@.len() <= usize::MAX,
        ensures
            final(self).wf(),
            final(self).frames@ == old(self).frames@.push(frame),
            final(self).cached_bytes == old(self).cached_bytes + frame.inner.bytes@.len(),
            final(self).first_pts_ms == match old(self).first_pts_ms {
                Some(first) => Some(first),
                None => frame.pts_ms,
            },
            final(self).last_pts_ms == match frame.pts_ms {
                Some(pts) => Some(pts),
                None => old(self).last_pts_ms,
            },
    {
        self.cached_bytes = self.cached_bytes + frame.inner.len();
        if self.first_pts_ms.is_none() {
            self.first_pts_ms = frame.pts_ms;
        }
        if frame.pts_ms.is_some() {
            self.last_pts_ms = frame.pts_ms;
        }
        self.frames.push_back(frame);
        assert(self.frames@.drop_last() =~= old(self).frames@);
    }

    /// Whether the queue takes no more frames.
    pub fn is_full(&self) -> (full: bool)
        ensures
            full == self.full(),
    {
        self.frames.len() >= MAX_FRAME_QUEUE_LEN || self.cached_bytes >= MAX_FRAME_QUEUE_BYTES
    }

    /// How many frames wait.
    pub fn len(&self) -> (len: usize)
        ensures
            len == self.frames@.len(),
    {
        self.frames.len()
    }

    /// The first time that is remembered.
    pub fn first_pts_ms(&self) -> (pts: Option<i64>)
        ensures
            pts == self.first_pts_ms,
    {
        self.first_pts_ms
    }

    /// The last time that is remembered.
    pub fn last_pts_ms(&self) -> (pts: Option<i64>)
        ensures
            pts == self.last_pts_ms,
    {
        self.last_pts_ms
    }

    /// The time of the frame in front.
    pub fn next_pts_ms(&self) -> (pts: Option<i64>)
        ensures
            pts == front_pts(self.frames@),
    {
        if self.frames.len() > 0 {
            self.frames[0].pts_ms
        } else {
            None
        }
    }

    /// The time of the frame at the back.
    fn back_pts_ms(&self) -> (pts: Option<i64>)
        ensures
            pts == back_pts(self.frames@),
    {
        let len: usize = self.frames.len();
        if len > 0 {
            self.frames[len - 1].pts_ms
        } else {
            None
        }
    }

    /// What the queue holds, in numbers.
    pub fn stats(&self) -> (stats: FrameQueueStats)
        ensures
            stats.len == self.frames@.len(),
            stats.cached_bytes == self.cached_bytes,
            stats.first_pts_ms == self.first_pts_ms,
            stats.last_pts_ms == self.last_pts_ms,
            stats.next_pts_ms == front_pts(self.frames@),
    {
        FrameQueueStats {
            len: self.frames.len(),
            cached_bytes: self.cached_bytes,
            first_pts_ms: self.first_pts_ms,
            last_pts_ms: self.last_pts_ms,
            next_pts_ms: self.next_pts_ms(),
        }
    }
}

impl FrameQueue {
    /// Takes the frames that are due from the front and returns the last of them that has a time;
    /// the buffers of the others are given back.
    pub fn pop_frame_for(
        &mut self,
        target_ms: i64,
        threshold_ms: i64,
        pool: &mut FramePool,
    ) -> (shown: Option<Frame>)
        requires
            old(self).wf(),
            old(pool).wf(),
        ensures
            ({
                let frames = old(self).frames@;
                let due = due_until(frames, target_ms, threshold_ms, 0);
                &&& final(self).wf()
                &&& shown == last_timed(frames, due)
                &&& final(self).frames@ == frames.skip(due)
                &&& final(self).first_pts_ms == front_pts(frames.skip(due))
                &&& final(self).last_pts_ms == back_pts(frames.skip(due))
                &&& final(pool).took_back(*old(pool), passed_over(frames, due))
            }),
    {
        let ghost all = self.frames@;
        let ghost mut taken: int = 0;
        let mut candidate: Option<Frame> = None;
        assert(all.skip(0) =~= all);
        while self.frames.len() > 0 && frame_is_not_after_target(
            &self.frames[0],
            target_ms,
            threshold_ms,
        )
            invariant
                all == old(self).frames@,
                self.wf(),
                0 <= taken <= all.len(),
                self.frames@ == all.skip(taken),
                candidate == last_timed(all, taken),
                pool.took_back(*old(pool), passed_over(all, taken)),
                due_until(all, target_ms, threshold_ms, 0) == due_until(
                    all,
                    target_ms,
                    threshold_ms,
                    taken,
                ),
            decreases self.frames@.len(),
        {
            let ghost waiting = self.frames@;
            let ghost before = *pool;
            if let Some(frame) = self.frames.pop_front() {
                proof {
                    assert(frame == all[taken]);
                    lemma_bytes_in_rest(waiting);
                    assert(waiting.skip(1) =~= self.frames@);
                    assert(all.skip(taken).skip(1) =~= all.skip(taken + 1));
                }
                self.cached_bytes = self.cached_bytes.saturating_sub(frame.inner.len());
                if frame.pts_ms.is_some() {
                    let replaced = candidate.take();
                    if let Some(earlier) = replaced {
                        pool.release(earlier.inner);
                        proof {
                            lemma_push_given(
                                *old(pool),
                                before,
                                *pool,
                                passed_over(all, taken),
                                earlier.inner.bytes@,
                            );
                        }
                    }
                    candidate = Some(frame);
                } else {
                    let ghost bytes = frame.inner.bytes@;
                    pool.release(frame.inner);
                    proof {
                        lemma_push_given(
                            *old(pool),
                            before,
                            *pool,
                            passed_over(all, taken),
                            bytes,
                        );
                    }
                }
                proof {
                    taken = taken + 1;
                }
            }
        }
        self.first_pts_ms = self.next_pts_ms();
        self.last_pts_ms = self.back_pts_ms();
        candidate
    }

    /// Whether everything but the frame in front is too far ahead to be kept.
    pub open spec fn too_far_ahead(self, target_ms: i64, ahead_ms: i64) -> bool {
        self.frames@.len() > 1 && (self.first_pts_ms matches Some(first) && first > clamped(
            target_ms + ahead_ms,
        ))
    }

    /// Where the queue starts too far ahead, keeps only its first frame and gives the buffers of
    /// the others back, that of the last one first.
    pub fn trim_to_first_future_frame(
        &mut self,
        target_ms: i64,
        ahead_ms: i64,
        pool: &mut FramePool,
    )
        requires
            old(self).wf(),
            old(pool).wf(),
        ensures
            final(self).wf(),
            !old(self).too_far_ahead(target_ms, ahead_ms) ==> *final(self) == *old(self)
                && *final(pool) == *old(pool),
            old(self).too_far_ahead(target_ms, ahead_ms) ==> {
                &&& final(self).frames@ == old(self).frames@.take(1)
                &&& final(self).first_pts_ms == old(self).frames@[0].pts_ms
                &&& final(self).last_pts_ms == old(self).frames@[0].pts_ms
                &&& final(pool).took_back(
                    *old(pool),
                    buffers_of(old(self).frames@.skip(1)).reverse(),
                )
            },
    {
        if self.frames.len() <= 1 {
            return ;
        }
        match self.first_pts_ms {
            Some(first) => {
                if first <= add_ms(target_ms, ahead_ms) {
                    return ;
                }
            },
            None => {
                return ;
            },
        }
        let ghost all = self.frames@;
        let ghost given = buffers_of(all.skip(1)).reverse();
        assert(given.take(0) =~= Seq::<Seq<u8>>::empty());
        assert(all.take(all.len() as int) =~= all);
        while self.frames.len() > 1
            invariant
                all == old(self).frames@,
                given == buffers_of(all.skip(1)).reverse(),
                self.wf(),
                1 <= self.frames@.len() <= all.len(),
                self.frames@ == all.take(self.frames@.len() as int),
                pool.took_back(*old(pool), given.take(all.len() - self.frames@.len())),
            decreases self.frames@.len(),
        {
            let ghost before = *pool;
            let ghost waiting = self.frames@;
            let ghost done = all.len() - waiting.len();
            if let Some(frame) = self.frames.pop_back() {
                proof {
                    assert(frame == all[waiting.len() - 1]);
                    assert(self.frames@ =~= waiting.drop_last());
                    assert(waiting.drop_last() =~= all.take(waiting.len() - 1));
                    lemma_bytes_nonnegative(waiting.drop_last());
                    assert(given[done] == frame.inner.bytes@);
                }
                self.cached_bytes = self.cached_bytes.saturating_sub(frame.inner.len());
                pool.release(frame.inner);
                proof {
                    lemma_one_more(*old(pool), before, *pool, given, done);
                }
            }
        }
        assert(given.take(all.len() - 1) =~= given);
        self.first_pts_ms = self.next_pts_ms();
        self.last_pts_ms = self.back_pts_ms();
    }
}

/// Whether a frame may be shown at `target_ms`: from a little before its time to a little after
/// its end.
pub open spec fn matches_time(frame: Frame, target_ms: i64, threshold_ms: i64) -> bool {
    match frame.pts_ms {
        Some(pts_ms) => {
            let duration_ms = later(
                match frame.duration_ms {
                    Some(duration_ms) => duration_ms,
                    None => threshold_ms,
                },
                0,
            );
            &&& target_ms >= clamped(pts_ms - threshold_ms)
            &&& target_ms <= clamped(clamped(pts_ms + duration_ms) + threshold_ms)
        },
        None => false,
    }
}

/// Whether a frame may be shown at `target_ms`.
pub fn frame_matches(frame: &Frame, target_ms: i64, threshold_ms: i64) -> (matching: bool)
    ensures
        matching == matches_time(*frame, target_ms, threshold_ms),
{
    match frame.pts_ms {
        Some(pts_ms) => {
            let duration_ms: i64 = match frame.duration_ms {
                Some(duration_ms) => max_ms(duration_ms, 0),
                None => max_ms(threshold_ms, 0),
            };
            target_ms >= sub_ms(pts_ms, threshold_ms) && target_ms <= add_ms(
                add_ms(pts_ms, duration_ms),
                threshold_ms,
            )
        },
        None => false,
    }
}

fn frame_is_not_after_target(frame: &Frame, target_ms: i64, threshold_ms: i64) -> (due: bool)
    ensures
        due == is_due(*frame, target_ms, threshold_ms),
{
    match frame.pts_ms {
        Some(pts_ms) => pts_ms <= add_ms(target_ms, threshold_ms),
        None => true,
    }
}

/// Giving back one more buffer behind a row of them.
pub proof fn lemma_push_given(
    start: FramePool,
    before: FramePool,
    after: FramePool,
    given: Seq<Seq<u8>>,
    buffer: Seq<u8>,
)
    requires
        before.took_back(start, given),
        after.took_back(before, seq![buffer]),
    ensures
        after.took_back(start, given.push(buffer)),
{
    lemma_released_in_turn(
        start.cached(),
        start.max_cached as int,
        start.size(),
        given,
        seq![buffer],
    );
    assert(given + seq![buffer] =~= given.push(buffer));
}

/// Giving back one more of a row of buffers.
pub proof fn lemma_one_more(
    start: FramePool,
    before: FramePool,
    after: FramePool,
    given: Seq<Seq<u8>>,
    done: int,
)
    requires
        0 <= done < given.len(),
        before.took_back(start, given.take(done)),
        after.took_back(before, seq![given[done]]),
    ensures
        after.took_back(start, given.take(done + 1)),
{
    lemma_released_in_turn(
        start.cached(),
        start.max_cached as int,
        start.size(),
        given.take(done),
        seq![given[done]],
    );
    assert(given.take(done) + seq![given[done]] =~= given.take(done + 1));
}

} // verus!

//! What holds of the queues and of the worker as a whole.

use vstd::arithmetic::div_mod::lemma_fundamental_div_mod_converse;
use vstd::prelude::*;

use crate::movie::frame::{
    buffers_of, bytes_in, due_until, is_due, last_timed, matches_time, passed_over, Frame,
    MAX_FRAME_QUEUE_BYTES,
};
use crate::movie::looper::{LoopConfig, LoopQueue, LoopQueues};
use crate::movie::packet::Packet;
use crate::movie::player::{buffer_of, with_rows, Fill, PlaybackState, Player, UpdateCheck};
use crate::movie::pool::{FramePool, MAX_FRAME_QUEUE_LEN};
use crate::movie::session::rows_needed;
use crate::movie::time::{clamped, later};
use crate::movie::worker::{
    after_forward, after_pause, after_resume, caught_up, first_after, last_after, queued,
    target_full, IdleReason, PreloadTarget, Worker, WorkerCommand, WorkerState, WorkerStep,
};
use crate::omv::video::{OmvVideoFormat, OmvVideoInfo};

verus! {

proof fn lemma_due(frames: Seq<Frame>, target_ms: i64, threshold_ms: i64, from: int)
    requires
        0 <= from <= frames.len(),
    ensures
        from <= due_until(frames, target_ms, threshold_ms, from) <= frames.len(),
        forall|i: int|
            from <= i < due_until(frames, target_ms, threshold_ms, from) ==> is_due(
                #[trigger] frames[i],
                target_ms,
                threshold_ms,
            ),
        due_until(frames, target_ms, threshold_ms, from) < frames.len() ==> !is_due(
            frames[due_until(frames, target_ms, threshold_ms, from)],
            target_ms,
            threshold_ms,
        ),
    decreases frames.len() - from,
{
    if from < frames.len() && is_due(frames[from], target_ms, threshold_ms) {
        lemma_due(frames, target_ms, threshold_ms, from + 1);
    }
}

proof fn lemma_last_timed(frames: Seq<Frame>, n: int)
    requires
        0 <= n <= frames.len(),
    ensures
        match last_timed(frames, n) {
            Some(frame) => exists|i: int|
                0 <= i < n && #[trigger] frames[i] == frame && frame.pts_ms is Some && forall|
                    j: int,
                | i < j < n ==> (#[trigger] frames[j]).pts_ms is None,
            None => forall|j: int| 0 <= j < n ==> (#[trigger] frames[j]).pts_ms is None,
        },
    decreases n,
{
    if n > 0 {
        if frames[n - 1].pts_ms is Some {
            assert(frames[n - 1] == last_timed(frames, n)->0);
        } else {
            lemma_last_timed(frames, n - 1);
        }
    }
}

/// The frame that is shown at a time is not later than that time, give or take the threshold; it
/// is the last of the due ones that has a time; and the frame that is left in front is later.
pub proof fn law_shown_frame_is_latest_due(frames: Seq<Frame>, target_ms: i64, threshold_ms: i64)
    ensures
        ({
            let due = due_until(frames, target_ms, threshold_ms, 0);
            &&& 0 <= due <= frames.len()
            &&& match last_timed(frames, due) {
                Some(shown) => {
                    &&& shown.pts_ms matches Some(pts) && pts <= clamped(target_ms + threshold_ms)
                    &&& exists|i: int|
                        0 <= i < due && #[trigger] frames[i] == shown && forall|j: int|
                            i < j < due ==> (#[trigger] frames[j]).pts_ms is None
                },
                None => forall|j: int| 0 <= j < due ==> (#[trigger] frames[j]).pts_ms is None,
            }
            &&& due < frames.len() ==> (frames[due].pts_ms matches Some(pts) && pts > clamped(
                target_ms + threshold_ms,
            ))
        }),
{
    let due = due_until(frames, target_ms, threshold_ms, 0);
    lemma_due(frames, target_ms, threshold_ms, 0);
    lemma_last_timed(frames, due);
    if let Some(shown) = last_timed(frames, due) {
        let i = choose|i: int|
            0 <= i < due && #[trigger] frames[i] == shown && forall|j: int|
                i < j < due ==> (#[trigger] frames[j]).pts_ms is None;
        assert(is_due(frames[i], target_ms, threshold_ms));
    }
}

/// No buffer is lost and none is given back twice: those of the frames that are taken from the
/// front are those that were given back and the one that is shown.
pub proof fn law_no_buffer_is_lost(frames: Seq<Frame>, n: int)
    requires
        0 <= n <= frames.len(),
    ensures
        (passed_over(frames, n) + buffer_of(last_timed(frames, n))).to_multiset() == buffers_of(
            frames.take(n),
        ).to_multiset(),
    decreases n,
{
    broadcast use vstd::seq_lib::group_to_multiset_ensures;
    broadcast use vstd::multiset::group_multiset_axioms;

    let given = passed_over(frames, n);
    let shown = buffer_of(last_timed(frames, n));
    let all = buffers_of(frames.take(n));
    if n == 0 {
        assert(given + shown =~= all);
    } else {
        law_no_buffer_is_lost(frames, n - 1);
        let given0 = passed_over(frames, n - 1);
        let shown0 = buffer_of(last_timed(frames, n - 1));
        let all0 = buffers_of(frames.take(n - 1));
        let new = frames[n - 1].inner.bytes@;
        assert(all =~= all0.push(new));
        assert(all.to_multiset() =~= all0.to_multiset().insert(new));
        vstd::seq_lib::lemma_multiset_commutative(given, shown);
        vstd::seq_lib::lemma_multiset_commutative(given0, shown0);
        if frames[n - 1].pts_ms is None {
            assert(given =~= given0.push(new));
            assert(given.to_multiset() =~= given0.to_multiset().insert(new));
            assert((given + shown).to_multiset() =~= all.to_multiset());
        } else {
            assert(shown =~= Seq::<Seq<u8>>::empty().push(new));
            match last_timed(frames, n - 1) {
                Some(frame) => {
                    let earlier = frame.inner.bytes@;
                    assert(given =~= given0.push(earlier));
                    assert(shown0 =~= Seq::<Seq<u8>>::empty().push(earlier));
                    assert((given + shown).to_multiset() =~= all.to_multiset());
                },
                None => {
                    assert(given =~= given0);
                    assert(shown0 =~= Seq::<Seq<u8>>::empty());
                    assert((given + shown).to_multiset() =~= all.to_multiset());
                },
            }
        }
    }
}

/// A request to go on never interrupts a seek, and never makes the worker catch up to an earlier
/// time than it was asked for before.
pub proof fn law_forward_never_goes_back(state: WorkerState, target_ms: i64, last: Option<i64>)
    ensures
        state is Seeking ==> after_forward(state, target_ms, last) == state,
        state matches WorkerState::Forwarding(before) ==> (after_forward(
            state,
            target_ms,
            last,
        ) matches WorkerState::Forwarding(after) && after >= before),
        last matches Some(pts) && later(target_ms, 0) <= pts ==> after_forward(
            state,
            target_ms,
            last,
        ) == state,
{
}

/// Two requests to go on are as good as the one for the later time.
pub proof fn law_forwards_combine(state: WorkerState, a: i64, b: i64, last: Option<i64>)
    ensures
        after_forward(after_forward(state, a, last), b, last) == after_forward(
            state,
            later(a, b),
            last,
        ),
{
}

/// A worker that plays, or waits with everything loaded, plays again once it was paused and
/// resumed; and pausing twice is pausing once.
pub proof fn law_pause_and_resume(worker: Worker)
    ensures
        after_pause(after_pause(worker)) == after_pause(worker),
        after_resume(after_resume(worker)) == after_resume(worker),
        !worker.paused && (worker.state == WorkerState::Playing || worker.state
            == WorkerState::Idle(IdleReason::CurrentReady)) ==> after_resume(after_pause(worker))
            == (Worker { state: WorkerState::Playing, paused: false }),
        !after_resume(after_pause(worker)).paused,
{
}

proof fn lemma_bytes_in_both(a: Seq<Frame>, b: Seq<Frame>)
    ensures
        bytes_in(a + b) == bytes_in(a) + bytes_in(b),
    decreases b.len(),
{
    if b.len() == 0 {
        assert(a + b =~= a);
    } else {
        lemma_bytes_in_both(a, b.drop_last());
        assert((a + b).drop_last() =~= a + b.drop_last());
    }
}

/// The queue that the worker fills, which is empty where the next pass was not started on.
pub open spec fn filled_queue(state: WorkerState, queues: LoopQueues) -> Option<LoopQueue> {
    if state == WorkerState::Preload(PreloadTarget::NextLoop) {
        queues.next
    } else {
        Some(queues.current)
    }
}

/// The worker overruns the limits of a queue by no more than the frames of one packet.
pub proof fn law_queue_overruns_by_one_packet(
    state: WorkerState,
    queues: LoopQueues,
    clock_ms: i64,
    packet: Packet,
    frames: Seq<Frame>,
    before: LoopQueue,
    after: LoopQueue,
)
    requires
        queues.wf(),
        !target_full(state, queues, clock_ms),
        match filled_queue(state, queues) {
            Some(queue) => before == queue,
            None => before.is_clear(),
        },
        queued(before, packet, frames, after),
    ensures
        after.frames.frames@.len() < MAX_FRAME_QUEUE_LEN + frames.len(),
        after.frames.cached_bytes < MAX_FRAME_QUEUE_BYTES + bytes_in(frames),
{
    lemma_bytes_in_both(before.frames.frames@, frames);
}

/// A row of a frame of `row_bytes` bytes to a row stands in the buffer `pitch` bytes behind the row
/// before it, byte for byte. The bytes between two rows, and those behind the last, are left alone.
pub proof fn law_rows_are_copied(
    before: Seq<u8>,
    frame: Seq<u8>,
    row_bytes: int,
    height: int,
    pitch: int,
    y: int,
    j: int,
    behind: int,
)
    requires
        0 <= row_bytes <= pitch,
        height * pitch <= before.len(),
        0 <= y < height,
        0 <= j < pitch,
    ensures
        ({
            let after = with_rows(before, frame, row_bytes, height, pitch);
            &&& after.len() == before.len()
            &&& 0 <= y * pitch + j < before.len()
            &&& j < row_bytes ==> after[y * pitch + j] == frame[y * row_bytes + j]
            &&& row_bytes <= j ==> after[y * pitch + j] == before[y * pitch + j]
            &&& height * pitch <= behind < before.len() ==> after[behind] == before[behind]
        }),
{
    assert(0 <= y * pitch && y * pitch + pitch <= height * pitch) by (nonlinear_arith)
        requires
            0 <= y,
            y + 1 <= height,
            0 < pitch,
    ;
    lemma_fundamental_div_mod_converse(y * pitch + j, pitch, y, j);
    if height * pitch <= behind {
        lemma_row_behind(behind, pitch, height);
    }
}

proof fn lemma_row_behind(i: int, pitch: int, height: int)
    requires
        0 < pitch,
        height * pitch <= i,
    ensures
        i / pitch >= height,
{
    let q = i / pitch;
    vstd::arithmetic::div_mod::lemma_fundamental_div_mod(i, pitch);
    vstd::arithmetic::div_mod::lemma_mod_bound(i, pitch);
    assert(q >= height) by (nonlinear_arith)
        requires
            height * pitch <= i,
            i == pitch * q + i % pitch,
            0 <= i % pitch < pitch,
    ;
}

/// With rows as far apart as they are long, the front of the buffer is the front of the frame.
pub proof fn law_tight_rows_are_the_frame(
    before: Seq<u8>,
    frame: Seq<u8>,
    row_bytes: int,
    height: int,
)
    requires
        0 < row_bytes,
        0 <= height,
        height * row_bytes <= before.len(),
        height * row_bytes <= frame.len(),
    ensures
        with_rows(before, frame, row_bytes, height, row_bytes).take(height * row_bytes)
            == frame.take(height * row_bytes),
{
    let len = height * row_bytes;
    assert(0 <= len) by (nonlinear_arith)
        requires
            0 < row_bytes,
            0 <= height,
            len == height * row_bytes,
    ;
    let after = with_rows(before, frame, row_bytes, height, row_bytes);
    assert forall|i: int| 0 <= i < len implies after[i] == frame[i] by {
        let y = i / row_bytes;
        let j = i % row_bytes;
        vstd::arithmetic::div_mod::lemma_fundamental_div_mod(i, row_bytes);
        vstd::arithmetic::div_mod::lemma_mod_bound(i, row_bytes);
        vstd::arithmetic::mul::lemma_mul_is_commutative(row_bytes, y);
        assert(0 <= y < height) by (nonlinear_arith)
            requires
                0 <= i < height * row_bytes,
                i == y * row_bytes + j,
                0 <= j < row_bytes,
        ;
        law_rows_are_copied(before, frame, row_bytes, height, row_bytes, y, j, 0);
    }
    assert(after.take(len) =~= frame.take(len));
}

/// A buffer that was filled holds the picture of the frame that the player then remembers, four
/// bytes to a pixel and row by row, and nothing else of it has changed. That frame is one that was
/// queued and due, up to ten milliseconds early, or else the one that was shown before.
pub proof fn law_filled_buffer_shows_a_frame(
    player: Player,
    buffer: Seq<u8>,
    queues: LoopQueues,
    pool: FramePool,
    time_ms: i64,
    pitch: i32,
    fill: Fill,
    after: Player,
    shown: Seq<u8>,
    queues_after: LoopQueues,
    pool_after: FramePool,
    y: int,
    j: int,
    behind: int,
)
    requires
        player.filled(
            buffer,
            queues,
            pool,
            time_ms,
            pitch,
            fill,
            after,
            shown,
            queues_after,
            pool_after,
        ),
        fill.result == Ok::<bool, String>(true),
        player.display_height * pitch <= buffer.len(),
        0 <= y < player.display_height,
        0 <= j < pitch,
    ensures
        shown.len() == buffer.len(),
        player.display_height * pitch <= behind < buffer.len() ==> shown[behind] == buffer[behind],
        after.last_frame matches Some(frame) && {
            &&& fill.frame_pts_ms == frame.pts_ms
            &&& fill.frame_duration_ms == frame.duration_ms
            &&& 4 * player.display_width <= pitch
            &&& 4 * player.display_width * player.display_height <= frame.inner.bytes@.len()
            &&& shown[y * pitch + j] == if j < 4 * player.display_width {
                frame.inner.bytes@[y * (4 * player.display_width) + j]
            } else {
                buffer[y * pitch + j]
            }
            &&& after.last_frame == player.last_frame || {
                &&& queues.current.frames.frames@.contains(frame)
                &&& frame.pts_ms matches Some(pts) && pts <= clamped(time_ms + 10)
            }
        },
{
    let frames = queues.current.frames.frames@;
    let due = due_until(frames, time_ms, 10, 0);
    lemma_due(frames, time_ms, 10, 0);
    lemma_last_timed(frames, due);
    law_shown_frame_is_latest_due(frames, time_ms, 10);
    let frame = after.last_frame->0;
    law_rows_are_copied(
        buffer,
        frame.inner.bytes@,
        4 * player.display_width,
        player.display_height as int,
        pitch as int,
        y,
        j,
        behind,
    );
}

/// Where the frame in front of the queue is due, the buffer is filled with the last frame that has
/// a time among those that are due, and these leave the queue.
pub proof fn law_due_frame_is_shown(
    player: Player,
    buffer: Seq<u8>,
    queues: LoopQueues,
    pool: FramePool,
    time_ms: i64,
    pitch: i32,
    fill: Fill,
    after: Player,
    shown: Seq<u8>,
    queues_after: LoopQueues,
    pool_after: FramePool,
)
    requires
        player.filled(
            buffer,
            queues,
            pool,
            time_ms,
            pitch,
            fill,
            after,
            shown,
            queues_after,
            pool_after,
        ),
        0 < pitch,
        4 * player.display_width <= pitch,
        4 * player.display_width <= usize::MAX,
        4 * player.display_width * player.display_height <= usize::MAX,
        queues.current.frames.frames@.len() > 0,
        queues.current.frames.frames@[0].pts_ms matches Some(first) && first <= clamped(
            time_ms + 10,
        ),
        forall|i: int|
            0 <= i < queues.current.frames.frames@.len() ==> (
            #[trigger] queues.current.frames.frames@[i]).inner.bytes@.len() >= 4
                * player.display_width * player.display_height,
    ensures
        fill.result == Ok::<bool, String>(true),
        fill.command is None,
        after.last_frame is Some,
        queues_after.current.frames.frames@.len() < queues.current.frames.frames@.len(),
        ({
            let frames = queues.current.frames.frames@;
            let left = queues_after.current.frames.frames@;
            let taken = frames.len() - left.len();
            &&& left == frames.skip(taken)
            &&& exists|k: int|
                0 <= k < taken && #[trigger] frames[k] == after.last_frame->0 && forall|j: int|
                    k < j < taken ==> (#[trigger] frames[j]).pts_ms is None
            &&& left.len() > 0 ==> queues_after.current.frames.first_pts_ms == left[0].pts_ms
            &&& left.len() > 0 ==> queues_after.current.frames.last_pts_ms == left.last().pts_ms
        }),
        queues_after.current.frames.frames@.len() > 0 ==> (
        queues_after.current.frames.frames@[0].pts_ms matches Some(next) && next > clamped(
            time_ms + 10,
        )),
{
    let frames = queues.current.frames.frames@;
    let due = due_until(frames, time_ms, 10, 0);
    lemma_due(frames, time_ms, 10, 0);
    lemma_last_timed(frames, due);
    assert(is_due(frames[0], time_ms, 10));
    assert(due >= 1) by {
        lemma_due(frames, time_ms, 10, 1);
    }
    assert(last_timed(frames, due) is Some) by {
        if last_timed(frames, due) is None {
            assert(frames[0].pts_ms is None);
        }
    }
}

/// Where the queue starts more than 750 milliseconds ahead, the worker is sent back to the clock's
/// time and the queue is emptied; what was shown before stays, and without that the picture is
/// blank.
pub proof fn law_queue_far_ahead_sends_worker_back(
    player: Player,
    buffer: Seq<u8>,
    queues: LoopQueues,
    pool: FramePool,
    time_ms: i64,
    pitch: i32,
    fill: Fill,
    after: Player,
    shown: Seq<u8>,
    queues_after: LoopQueues,
    pool_after: FramePool,
)
    requires
        player.filled(
            buffer,
            queues,
            pool,
            time_ms,
            pitch,
            fill,
            after,
            shown,
            queues_after,
            pool_after,
        ),
        0 < pitch,
        queues.current.frames.frames@.len() > 0,
        queues.current.frames.frames@[0].pts_ms matches Some(first) && first > clamped(
            time_ms + 10,
        ),
    ensures
        ({
            let first = queues.current.frames.frames@[0].pts_ms->0;
            if first > clamped(time_ms + 750) {
                &&& fill.command == Some(WorkerCommand::Seek(time_ms))
                &&& queues_after.current.frames.frames@.len() == 0
            } else {
                &&& fill.command is None
                &&& queues_after.current.frames.frames@ == queues.current.frames.frames@
            }
        }),
        queues_after.next == queues.next,
        after.last_frame == player.last_frame,
        player.last_frame is None ==> fill.result == Ok::<bool, String>(false),
{
    let frames = queues.current.frames.frames@;
    assert(!is_due(frames[0], time_ms, 10));
    assert(due_until(frames, time_ms, 10, 0) == 0);
    assert(frames.skip(0) =~= frames);
}

/// A buffer that was filled without a frame is blank in all of its rows and untouched behind them,
/// and the player has shown nothing yet; one that could not be filled is as it was.
pub proof fn law_unfilled_buffer_is_blank_or_kept(
    player: Player,
    buffer: Seq<u8>,
    queues: LoopQueues,
    pool: FramePool,
    time_ms: i64,
    pitch: i32,
    fill: Fill,
    after: Player,
    shown: Seq<u8>,
    queues_after: LoopQueues,
    pool_after: FramePool,
    i: int,
)
    requires
        player.filled(
            buffer,
            queues,
            pool,
            time_ms,
            pitch,
            fill,
            after,
            shown,
            queues_after,
            pool_after,
        ),
        fill.result != Ok::<bool, String>(true),
        0 <= i < buffer.len(),
    ensures
        shown.len() == buffer.len(),
        fill.result is Err ==> shown[i] == buffer[i] && after.last_frame == player.last_frame,
        fill.result is Ok ==> after.last_frame is None && player.last_frame is None && shown[i]
            == if i < player.display_height * pitch {
            0u8
        } else {
            buffer[i]
        },
        pitch <= 0 ==> fill.result is Err,
        pitch < 4 * player.display_width && after.last_frame is Some ==> fill.result is Err,
{
}

/// While the clock goes on, the worker is told to go on to its time where nothing is queued, and
/// where what is queued reaches less than 375 milliseconds ahead; it is left alone where what is
/// queued reaches that far, and where it starts more than 750 milliseconds ahead.
pub proof fn law_worker_is_kept_ahead(
    player: Player,
    last_ms: i64,
    time_ms: i64,
    config: LoopConfig,
    queues: LoopQueues,
)
    requires
        player.clock.last_clock_ms == Some(last_ms),
        last_ms <= time_ms,
        !config.enabled || time_ms > config.head_guard_ms || last_ms < 0 || last_ms
            < config.loop_duration_ms - config.tail_guard_ms,
        time_ms + 750 <= i64::MAX,
    ensures
        ({
            let queue = queues.current.frames;
            let command = player.command_at(time_ms, config, queues);
            &&& queue.frames@.len() == 0 ==> command == Some(WorkerCommand::Forward(time_ms))
            &&& queue.frames@.len() > 0 ==> {
                let ahead = queue.first_pts_ms matches Some(first) && first > time_ms + 750;
                &&& ahead ==> command is None
                &&& !ahead && (queue.last_pts_ms matches Some(last) ==> last < time_ms + 375)
                    ==> command == Some(WorkerCommand::Forward(time_ms))
                &&& !ahead && (queue.last_pts_ms matches Some(last) && last >= time_ms + 375)
                    ==> command is None
            }
        }),
{
}

/// The first sample of the clock sends the worker to its time, a jump back makes it seek there, and
/// only a loop comes round: from the tail that it was given to its head.
pub proof fn law_clock_drives_worker(
    player: Player,
    time_ms: i64,
    config: LoopConfig,
    queues: LoopQueues,
)
    ensures
        ({
            let command = player.command_at(time_ms, config, queues);
            match player.clock.last_clock_ms {
                None => command == Some(WorkerCommand::Forward(time_ms)),
                Some(last_ms) => {
                    let at_end = last_ms >= 0 && last_ms >= config.loop_duration_ms
                        - config.tail_guard_ms;
                    let at_start = time_ms <= config.head_guard_ms;
                    &&& command == Some(WorkerCommand::Wrap) <==> config.enabled && at_end
                        && at_start
                    &&& time_ms < last_ms && !(config.enabled && at_end && at_start) ==> command
                        == Some(WorkerCommand::Seek(time_ms))
                    &&& time_ms >= last_ms ==> command != Some(WorkerCommand::Seek(time_ms))
                },
            }
        }),
{
}

/// The worker reads on up to 750 milliseconds ahead of the clock, eight frames or 96 mebibytes of
/// them, whichever comes first; the next pass of a loop is limited by its own frames alone.
pub proof fn law_worker_reads_up_to_its_limits(
    state: WorkerState,
    queues: LoopQueues,
    clock_ms: i64,
)
    requires
        !(state is Idle),
        clock_ms + 750 <= i64::MAX,
    ensures
        state != WorkerState::Preload(PreloadTarget::NextLoop) ==> {
            let queue = queues.current.frames;
            target_full(state, queues, clock_ms) == {
                ||| queue.frames@.len() >= 8
                ||| queue.cached_bytes >= 96 * 1024 * 1024
                ||| queue.last_pts_ms matches Some(last) && last > clock_ms + 750
            }
        },
        state == WorkerState::Preload(PreloadTarget::NextLoop) ==> target_full(
            state,
            queues,
            clock_ms,
        ) == match queues.next {
            Some(next) => next.frames.frames@.len() >= 8 || next.frames.cached_bytes >= 96 * 1024
                * 1024,
            None => false,
        },
{
}

/// A worker that plays, waits or loads the pass that is shown goes on to a time that what is queued
/// does not reach; one that is on its way goes on to the later of the two times; one that loads the
/// next pass is left to it.
pub proof fn law_worker_goes_on(state: WorkerState, target_ms: i64, last: Option<i64>)
    requires
        last matches Some(pts) ==> pts < target_ms,
        0 <= target_ms,
    ensures
        state == WorkerState::Playing || state is Idle || state == WorkerState::Preload(
            PreloadTarget::Current,
        ) ==> after_forward(state, target_ms, last) == WorkerState::Forwarding(target_ms),
        state matches WorkerState::Forwarding(before) ==> after_forward(state, target_ms, last)
            == WorkerState::Forwarding(
            if before < target_ms {
                target_ms
            } else {
                before
            },
        ),
        state == WorkerState::Preload(PreloadTarget::NextLoop) ==> after_forward(
            state,
            target_ms,
            last,
        ) == state,
{
}

/// A frame may be shown from a little before its time to a little after its end; one that does not
/// say how long it is shown counts as long as that little, and one without a time never.
pub proof fn law_frame_is_for_its_time(frame: Frame, time_ms: i64, little: i64)
    requires
        0 <= little,
        match (frame.pts_ms, frame.duration_ms) {
            (Some(pts), None) => i64::MIN <= pts - little && pts + 2 * little <= i64::MAX,
            (Some(pts), Some(duration)) => i64::MIN <= pts - little && pts + duration + little
                <= i64::MAX && pts + little <= i64::MAX,
            (None, _) => true,
        },
    ensures
        matches_time(frame, time_ms, little) == match (frame.pts_ms, frame.duration_ms) {
            (None, _) => false,
            (Some(pts), None) => pts - little <= time_ms <= pts + 2 * little,
            (Some(pts), Some(duration)) => if duration <= 0 {
                pts - little <= time_ms <= pts + little
            } else {
                pts - little <= time_ms <= pts + duration + little
            },
        },
{
}

/// While a movie plays, a new frame is needed where it is asked for by force and where none is
/// shown, so always after the clock jumped back or came round; and not where the frame that is
/// shown is for the time, ten milliseconds more or less. While it does not play none is needed.
pub proof fn law_update_is_needed(
    player: Player,
    check: UpdateCheck,
    queues: LoopQueues,
    pool: FramePool,
    after: Player,
    queues_after: LoopQueues,
    pool_after: FramePool,
    time_ms: i64,
    update_by_force: bool,
    playback: PlaybackState,
    config: LoopConfig,
)
    requires
        after.checked(
            check,
            queues_after,
            pool_after,
            player,
            queues,
            pool,
            time_ms,
            update_by_force,
            playback,
            config,
        ),
        0 <= time_ms,
    ensures
        playback == PlaybackState::Playing && (update_by_force || player.last_frame is None)
            ==> check.needed,
        playback == PlaybackState::Playing && (player.clock.last_clock_ms matches Some(last) && last
            > time_ms) ==> check.needed && after.last_frame is None,
        playback == PlaybackState::Playing && !update_by_force && (
        player.clock.last_clock_ms matches Some(last) && last <= time_ms) && (!config.enabled
            || time_ms > config.head_guard_ms) && (player.last_frame matches Some(frame)
            && frame.pts_ms matches Some(pts) && pts <= time_ms < pts + 10) ==> !check.needed
            && after.last_frame == player.last_frame,
        playback == PlaybackState::Playing ==> (check.chase matches Some(chase) && chase.clock_ms
            == time_ms) && after.clock.last_clock_ms == Some(time_ms),
        playback != PlaybackState::Playing ==> !check.needed && check.chase is None && after
            == player && queues_after == queues && pool_after == pool,
{
}

/// Jumping back empties the queue of this pass and no other; going on leaves both as they are.
pub proof fn law_jumping_back_empties_the_queue(
    player: Player,
    queues: LoopQueues,
    pool: FramePool,
    after: Player,
    queues_after: LoopQueues,
    pool_after: FramePool,
    time_ms: i64,
    config: LoopConfig,
)
    requires
        after.chased(queues_after, pool_after, player, queues, pool, time_ms, config),
    ensures
        queues_after.next == queues.next,
        after.display_width == player.display_width,
        after.display_height == player.display_height,
        match player.clock.last_clock_ms {
            None => queues_after == queues && after.last_frame == player.last_frame,
            Some(last) => {
                &&& last <= time_ms ==> queues_after == queues
                &&& time_ms < last && !config.enabled ==> {
                    &&& queues_after.current.frames.frames@.len() == 0
                    &&& queues_after.current.packets.packets@.len() == 0
                    &&& after.last_frame is None
                }
            },
        },
{
}

/// Where every frame that is queued is before the clock, by its own time and by what the queue
/// remembers, the worker is told to go on to the clock's time.
pub proof fn law_late_queue_is_passed(
    player: Player,
    last_ms: i64,
    time_ms: i64,
    config: LoopConfig,
    queues: LoopQueues,
)
    requires
        player.clock.last_clock_ms == Some(last_ms),
        last_ms <= time_ms,
        !config.enabled || time_ms > config.head_guard_ms,
        time_ms < i64::MAX,
        ({
            let queue = queues.current.frames;
            &&& forall|i: int|
                0 <= i < queue.frames@.len() ==> ((#[trigger] queue.frames@[i]).pts_ms matches Some(
                    pts,
                ) && pts < time_ms)
            &&& queue.frames@.len() > 0 ==> queue.first_pts_ms == queue.frames@[0].pts_ms
                && queue.last_pts_ms == queue.frames@.last().pts_ms
        }),
    ensures
        player.command_at(time_ms, config, queues) == Some(WorkerCommand::Forward(time_ms)),
{
}

/// Frames are queued behind those from before, in order. The queue remembers the time of the first
/// frame that has one, from when it was empty, and that of the last.
pub proof fn law_queued_frames_follow(
    before: LoopQueue,
    packet: Packet,
    frames: Seq<Frame>,
    after: LoopQueue,
    i: int,
)
    requires
        queued(before, packet, frames, after),
    ensures
        ({
            let n = before.frames.frames@.len() as int;
            let all = after.frames.frames@;
            &&& all.len() == n + frames.len()
            &&& 0 <= i < n ==> all[i] == before.frames.frames@[i]
            &&& 0 <= i < frames.len() ==> all[n + i] == frames[i]
        }),
        before.frames.first_pts_ms is Some ==> after.frames.first_pts_ms
            == before.frames.first_pts_ms,
        before.frames.first_pts_ms is None && frames.len() > 0 && frames[0].pts_ms is Some
            ==> after.frames.first_pts_ms == frames[0].pts_ms,
        frames.len() > 0 && frames.last().pts_ms is Some ==> after.frames.last_pts_ms
            == frames.last().pts_ms,
        (forall|k: int| 0 <= k < frames.len() ==> (#[trigger] frames[k]).pts_ms is None) ==> {
            &&& after.frames.first_pts_ms == before.frames.first_pts_ms
            &&& after.frames.last_pts_ms == before.frames.last_pts_ms
        },
        packet.pts_ms is Some ==> after.packets.last_pts_ms == packet.pts_ms,
        after.packets.packets@.last().size == packet.size,
        after.packets.packets@.last().pts_ms == packet.pts_ms,
        1 <= after.packets.packets@.len() <= 64,
{
    lemma_first_after(before.frames.first_pts_ms, frames);
    lemma_last_after(before.frames.last_pts_ms, frames);
}

proof fn lemma_first_after(first: Option<i64>, frames: Seq<Frame>)
    ensures
        first is Some ==> first_after(first, frames) == first,
        first is None && frames.len() > 0 && frames[0].pts_ms is Some ==> first_after(first, frames)
            == frames[0].pts_ms,
        (forall|k: int| 0 <= k < frames.len() ==> (#[trigger] frames[k]).pts_ms is None)
            ==> first_after(first, frames) == first,
    decreases frames.len(),
{
    if frames.len() > 0 {
        let front = frames.drop_last();
        lemma_first_after(first, front);
        if forall|k: int| 0 <= k < frames.len() ==> (#[trigger] frames[k]).pts_ms is None {
            assert forall|k: int| 0 <= k < front.len() implies (#[trigger] front[k]).pts_ms
                is None by {
                assert(front[k] == frames[k]);
            }
        }
        if frames.len() == 1 {
            assert(first_after(first, front) == first);
        }
    }
}

proof fn lemma_last_after(last: Option<i64>, frames: Seq<Frame>)
    ensures
        (forall|k: int| 0 <= k < frames.len() ==> (#[trigger] frames[k]).pts_ms is None)
            ==> last_after(last, frames) == last,
    decreases frames.len(),
{
    if frames.len() > 0 {
        let front = frames.drop_last();
        lemma_last_after(last, front);
        if forall|k: int| 0 <= k < frames.len() ==> (#[trigger] frames[k]).pts_ms is None {
            assert forall|k: int| 0 <= k < front.len() implies (#[trigger] front[k]).pts_ms
                is None by {
                assert(front[k] == frames[k]);
            }
        }
    }
}

/// A worker that has nothing left to do waits, and remembers which pass it was loading; one that
/// got on stays at what it does. One that has caught up plays, or loads ahead while the movie is
/// paused.
pub proof fn law_worker_settles(worker: Worker)
    ensures
        worker.after_step(WorkerStep::Progress) == worker.state,
        worker.after_step(WorkerStep::Ended) == WorkerState::Idle(IdleReason::Ended),
        worker.state == WorkerState::Preload(PreloadTarget::NextLoop) ==> worker.after_step(
            WorkerStep::NoWork,
        ) == WorkerState::Idle(IdleReason::NextLoopReady),
        worker.state != WorkerState::Preload(PreloadTarget::NextLoop) ==> worker.after_step(
            WorkerStep::NoWork,
        ) == WorkerState::Idle(IdleReason::CurrentReady),
        caught_up(PlaybackState::Playing) == WorkerState::Playing,
        caught_up(PlaybackState::Ended) == WorkerState::Playing,
        caught_up(PlaybackState::Paused) == WorkerState::Preload(PreloadTarget::Current),
{
}

/// A picture with alpha is asked for with a third of its rows more, rounded up, and one without
/// with no more than its own.
pub proof fn law_alpha_rows_are_a_third(info: OmvVideoInfo)
    ensures
        info.format == OmvVideoFormat::Rgba ==> {
            let extra = rows_needed(info) - info.display_height;
            info.display_height <= 3 * extra < info.display_height + 3
        },
        info.format != OmvVideoFormat::Rgba ==> rows_needed(info) == info.display_height,
{
}

/// Frames take as many bytes as they have together: those of one size so many times that size, and
/// those of two rows of frames the bytes of both.
pub proof fn law_bytes_add_up(frames: Seq<Frame>, more: Seq<Frame>, size: int)
    ensures
        bytes_in(frames + more) == bytes_in(frames) + bytes_in(more),
        (forall|i: int|
            0 <= i < frames.len() ==> (#[trigger] frames[i]).inner.bytes@.len() == size)
            ==> bytes_in(frames) == size * frames.len(),
{
    lemma_bytes_in_both(frames, more);
    if forall|i: int| 0 <= i < frames.len() ==> (#[trigger] frames[i]).inner.bytes@.len() == size {
        lemma_bytes_of_a_size(frames, size);
    }
}

proof fn lemma_bytes_of_a_size(frames: Seq<Frame>, size: int)
    requires
        forall|i: int| 0 <= i < frames.len() ==> (#[trigger] frames[i]).inner.bytes@.len() == size,
    ensures
        bytes_in(frames) == size * frames.len(),
    decreases frames.len(),
{
    if frames.len() > 0 {
        let front = frames.drop_last();
        assert forall|i: int| 0 <= i < front.len() implies (
        #[trigger] front[i]).inner.bytes@.len() == size by {
            assert(front[i] == frames[i]);
        }
        lemma_bytes_of_a_size(front, size);
        let n = frames.len() as int;
        assert(size * n == size * (n - 1) + size) by (nonlinear_arith);
    } else {
        assert(size * 0 == 0) by (nonlinear_arith);
    }
}

} // verus!

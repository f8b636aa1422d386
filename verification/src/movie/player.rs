//! The decisions of the player: which frame is shown, and what the worker is told.

use vstd::prelude::*;

use crate::movie::clock::{ClockEvent, ClockTracker};
use crate::movie::frame::{
    back_pts, buffers_of, due_until, frame_matches, front_pts, last_timed, lemma_push_given,
    matches_time, passed_over, Frame,
};
use crate::movie::looper::{LoopConfig, LoopQueues};
use crate::movie::pool::{lemma_released_in_turn, FramePool};
use crate::movie::time::{add_ms, clamped, later, max_ms};
use crate::movie::worker::{WorkerCommand, MAX_CURRENT_PREFETCH_AHEAD_MS};
use crate::text::{dec, push_dec, push_signed, signed_dec};

verus! {

/// How far from its time a frame may be shown.
pub const FRAME_MATCH_THRESHOLD_MS: i64 = 10;

/// What a player is doing.
#[derive(Clone, Copy, Debug, PartialEq, Eq, Structural)]
pub enum PlaybackState {
    Playing,
    Paused,
    Ended,
}

impl PlaybackState {
    /// The words for the state.
    pub open spec fn text(self) -> Seq<char> {
        match self {
            PlaybackState::Playing => "Playing"@,
            PlaybackState::Paused => "Paused"@,
            PlaybackState::Ended => "Ended"@,
        }
    }

    /// What the state is called.
    pub fn as_str(self) -> (name: &'static str)
        ensures
            name@ == self.text(),
    {
        match self {
            PlaybackState::Playing => "Playing",
            PlaybackState::Paused => "Paused",
            PlaybackState::Ended => "Ended",
        }
    }
}

/// What a player remembers from one call to the next.
#[derive(Debug)]
pub struct Player {
    pub clock: ClockTracker,
    pub last_frame: Option<Frame>,
    pub display_width: u32,
    pub display_height: u32,
}

/// What following the clock takes: the time that the worker is to see, and what it is told.
#[derive(Clone, Copy, Debug, PartialEq, Eq, Structural)]
pub struct Chase {
    pub clock_ms: i64,
    pub command: Option<WorkerCommand>,
}

/// Whether a new frame is needed, and what following the clock takes where the movie plays.
#[derive(Clone, Copy, Debug, PartialEq, Eq, Structural)]
pub struct UpdateCheck {
    pub needed: bool,
    pub chase: Option<Chase>,
}

/// The buffers of a frame that may be there.
pub open spec fn buffer_of(frame: Option<Frame>) -> Seq<Seq<u8>> {
    match frame {
        Some(frame) => seq![frame.inner.bytes@],
        None => seq![],
    }
}

/// Whether what is queued does not reach far enough ahead of the clock.
pub open spec fn forward_needed(queues: LoopQueues, time_ms: i64) -> bool {
    let frames = queues.current.frames;
    if frames.frames@.len() == 0 {
        true
    } else if frames.first_pts_ms matches Some(first) && first > clamped(
        time_ms + MAX_CURRENT_PREFETCH_AHEAD_MS,
    ) {
        false
    } else {
        match frames.last_pts_ms {
            Some(last) => last < clamped(time_ms + MAX_CURRENT_PREFETCH_AHEAD_MS / 2),
            None => true,
        }
    }
}

impl Player {
    /// What the worker is told when the clock shows `time_ms`.
    pub open spec fn command_at(
        self,
        time_ms: i64,
        config: LoopConfig,
        queues: LoopQueues,
    ) -> Option<WorkerCommand> {
        match self.clock.event(time_ms, config) {
            ClockEvent::FirstSample => Some(WorkerCommand::Forward(time_ms)),
            ClockEvent::Advanced => if forward_needed(queues, time_ms) {
                Some(WorkerCommand::Forward(time_ms))
            } else {
                None
            },
            ClockEvent::Wrapped => Some(WorkerCommand::Wrap),
            ClockEvent::Seeked => Some(WorkerCommand::Seek(time_ms)),
        }
    }

    /// Whether this player, these queues and this pool are what is left of `before` once the
    /// clock was followed to `time_ms`: coming round or jumping back forgets the last frame, and
    /// jumping back empties the queue.
    pub open spec fn chased(
        self,
        queues: LoopQueues,
        pool: FramePool,
        before: Player,
        queues_before: LoopQueues,
        pool_before: FramePool,
        time_ms: i64,
        config: LoopConfig,
    ) -> bool {
        let event = before.clock.event(time_ms, config);
        &&& self.clock.last_clock_ms == Some(time_ms)
        &&& self.display_width == before.display_width
        &&& self.display_height == before.display_height
        &&& queues.wf()
        &&& queues.next == queues_before.next
        &&& match event {
            ClockEvent::FirstSample | ClockEvent::Advanced => {
                &&& self.last_frame == before.last_frame
                &&& queues == queues_before
                &&& pool == pool_before
            },
            ClockEvent::Wrapped => {
                &&& self.last_frame is None
                &&& queues == queues_before
                &&& pool.took_back(pool_before, buffer_of(before.last_frame))
            },
            ClockEvent::Seeked => {
                &&& self.last_frame is None
                &&& queues.current.is_clear()
                &&& pool.took_back(
                    pool_before,
                    buffer_of(before.last_frame) + buffers_of(queues_before.current.frames.frames@),
                )
            },
        }
    }

    /// A player that has shown nothing yet.
    pub fn new(display_width: u32, display_height: u32) -> (player: Player)
        ensures
            player.clock.last_clock_ms is None,
            player.last_frame is None,
            player.display_width == display_width,
            player.display_height == display_height,
    {
        Player { clock: ClockTracker::new(), last_frame: None, display_width, display_height }
    }

    /// What the worker is told to play.
    pub fn play(&self) -> (command: WorkerCommand)
        ensures
            command == WorkerCommand::Resume,
    {
        WorkerCommand::Resume
    }

    /// What the worker is told to pause.
    pub fn pause(&self) -> (command: WorkerCommand)
        ensures
            command == WorkerCommand::Pause,
    {
        WorkerCommand::Pause
    }

    /// Gives the buffer of the last frame back and forgets the frame.
    fn forget_last_frame(&mut self, pool: &mut FramePool)
        requires
            old(pool).wf(),
        ensures
            *final(self) == (Player { last_frame: None, ..*old(self) }),
            final(pool).took_back(*old(pool), buffer_of(old(self).last_frame)),
    {
        if let Some(frame) = self.last_frame.take() {
            pool.release(frame.inner);
        }
    }

    /// Forgets what is shown and queued, and has the worker go to a time.
    pub fn seek(
        &mut self,
        target_ms: i64,
        queues: &mut LoopQueues,
        pool: &mut FramePool,
    ) -> (command: WorkerCommand)
        requires
            old(queues).wf(),
            old(pool).wf(),
        ensures
            command == WorkerCommand::Seek(later(target_ms, 0)),
            *final(self) == (Player { last_frame: None, ..*old(self) }),
            final(queues).wf(),
            final(queues).current.is_clear(),
            final(queues).next == old(queues).next,
            final(pool).took_back(
                *old(pool),
                buffer_of(old(self).last_frame) + buffers_of(old(queues).current.frames.frames@),
            ),
    {
        let target_ms: i64 = max_ms(target_ms, 0);
        self.forget_last_frame(pool);
        proof {
            lemma_released_in_turn(
                old(pool).cached(),
                old(pool).max_cached as int,
                old(pool).size(),
                buffer_of(old(self).last_frame),
                buffers_of(old(queues).current.frames.frames@),
            );
        }
        queues.current.clear(pool);
        WorkerCommand::Seek(target_ms)
    }

    /// Whether the movie plays.
    pub fn is_playing(&self, playback: PlaybackState) -> (playing: bool)
        ensures
            playing == (playback == PlaybackState::Playing),
    {
        playback == PlaybackState::Playing
    }

    /// Whether what is queued does not reach far enough ahead of the clock.
    fn needs_forward(&self, time_ms: i64, queues: &LoopQueues) -> (needs: bool)
        ensures
            needs == forward_needed(*queues, time_ms),
    {
        let frame_stats = queues.current.frames.stats();
        if frame_stats.len == 0 {
            return true;
        }
        if let Some(first_pts_ms) = frame_stats.first_pts_ms {
            if first_pts_ms > add_ms(time_ms, MAX_CURRENT_PREFETCH_AHEAD_MS) {
                return false;
            }
        }
        match frame_stats.last_pts_ms {
            Some(last_pts_ms) => last_pts_ms < add_ms(time_ms, MAX_CURRENT_PREFETCH_AHEAD_MS / 2),
            None => true,
        }
    }

    /// Follows the clock, and says what the worker is told.
    fn chase_to(
        &mut self,
        time_ms: i64,
        loop_config: &LoopConfig,
        queues: &mut LoopQueues,
        pool: &mut FramePool,
    ) -> (command: Option<WorkerCommand>)
        requires
            time_ms >= 0,
            old(self).clock.tail_fits(time_ms, *loop_config),
            old(queues).wf(),
            old(pool).wf(),
        ensures
            command == old(self).command_at(time_ms, *loop_config, *old(queues)),
            final(self).chased(
                *final(queues),
                *final(pool),
                *old(self),
                *old(queues),
                *old(pool),
                time_ms,
                *loop_config,
            ),
            final(pool).wf(),
    {
        match self.clock.update(time_ms, loop_config) {
            ClockEvent::FirstSample => Some(WorkerCommand::Forward(time_ms)),
            ClockEvent::Advanced => if self.needs_forward(time_ms, queues) {
                Some(WorkerCommand::Forward(time_ms))
            } else {
                None
            },
            ClockEvent::Wrapped => {
                self.forget_last_frame(pool);
                Some(WorkerCommand::Wrap)
            },
            ClockEvent::Seeked => Some(self.seek(time_ms, queues, pool)),
        }
    }

    /// Whether a new frame is needed at `time_ms`.
    pub fn check_need_update(
        &mut self,
        time_ms: i64,
        playback: PlaybackState,
        loop_config: &LoopConfig,
        queues: &mut LoopQueues,
        pool: &mut FramePool,
    ) -> (check: UpdateCheck)
        requires
            old(self).clock.tail_fits(later(time_ms, 0), *loop_config),
            old(queues).wf(),
            old(pool).wf(),
        ensures
            final(self).checked(
                check,
                *final(queues),
                *final(pool),
                *old(self),
                *old(queues),
                *old(pool),
                time_ms,
                false,
                playback,
                *loop_config,
            ),
            final(pool).wf(),
            final(queues).wf(),
    {
        self.check_need_update_at(time_ms, false, playback, loop_config, queues, pool)
    }

    /// Whether `check` is the answer to whether a new frame is needed, and this player, these
    /// queues and this pool are what is left of `before`.
    pub open spec fn checked(
        self,
        check: UpdateCheck,
        queues: LoopQueues,
        pool: FramePool,
        before: Player,
        queues_before: LoopQueues,
        pool_before: FramePool,
        time: i64,
        update_by_force: bool,
        playback: PlaybackState,
        config: LoopConfig,
    ) -> bool {
        let time_ms = later(time, 0);
        if playback != PlaybackState::Playing {
            &&& check == (UpdateCheck { needed: false, chase: None })
            &&& self == before
            &&& queues == queues_before
            &&& pool == pool_before
        } else {
            &&& check.chase == Some(
                Chase {
                    clock_ms: time_ms,
                    command: before.command_at(time_ms, config, queues_before),
                },
            )
            &&& self.chased(
                queues,
                pool,
                before,
                queues_before,
                pool_before,
                time_ms,
                config,
            )
            &&& check.needed == (update_by_force || match self.last_frame {
                Some(frame) => !matches_time(frame, time_ms, FRAME_MATCH_THRESHOLD_MS),
                None => true,
            })
        }
    }

    /// Whether a new frame is needed at `time_ms`: where one is asked for by force, where none was
    /// shown yet, and where the last one is not for this time.
    pub fn check_need_update_at(
        &mut self,
        time_ms: i64,
        update_by_force: bool,
        playback: PlaybackState,
        loop_config: &LoopConfig,
        queues: &mut LoopQueues,
        pool: &mut FramePool,
    ) -> (check: UpdateCheck)
        requires
            old(self).clock.tail_fits(later(time_ms, 0), *loop_config),
            old(queues).wf(),
            old(pool).wf(),
        ensures
            final(self).checked(
                check,
                *final(queues),
                *final(pool),
                *old(self),
                *old(queues),
                *old(pool),
                time_ms,
                update_by_force,
                playback,
                *loop_config,
            ),
            final(pool).wf(),
            final(queues).wf(),
    {
        if playback != PlaybackState::Playing {
            return UpdateCheck { needed: false, chase: None };
        }
        let time_ms: i64 = max_ms(time_ms, 0);
        let command = self.chase_to(time_ms, loop_config, queues, pool);
        let chase = Some(Chase { clock_ms: time_ms, command });
        let needed = update_by_force || match &self.last_frame {
            Some(frame) => !frame_matches(frame, time_ms, FRAME_MATCH_THRESHOLD_MS),
            None => true,
        };
        UpdateCheck { needed, chase }
    }
}

/// What is wrong with a buffer that is to be filled, or `None`.
pub open spec fn buffer_fault(has_buffer: bool, pitch: i32) -> Option<Seq<char>> {
    if !has_buffer {
        Some("buffer is null"@)
    } else if pitch <= 0 {
        Some("invalid pitch="@ + signed_dec(pitch as int))
    } else {
        None
    }
}

fn bad_pitch(pitch: i32) -> (message: String)
    ensures
        message@ == "invalid pitch="@ + signed_dec(pitch as int),
{
    let mut message: String = "invalid pitch=".to_owned();
    push_signed(&mut message, pitch as i64);
    message
}

/// Why a frame of `len` bytes cannot be copied, or `None`.
pub open spec fn copy_fault(width: u32, height: u32, pitch: int, len: int) -> Option<Seq<char>> {
    let row_bytes = 4 * width;
    if pitch < 0 {
        Some("invalid pitch="@ + signed_dec(pitch))
    } else if row_bytes > usize::MAX {
        Some("row byte count overflow"@)
    } else if pitch < row_bytes {
        Some(
            "pitch too small pitch="@ + dec(pitch as nat) + " row_bytes="@ + dec(row_bytes as nat),
        )
    } else if row_bytes * height > usize::MAX {
        Some("frame size overflow"@)
    } else if len < row_bytes * height {
        Some(
            "frame buffer too small len="@ + dec(len as nat) + " expected="@ + dec(
                (row_bytes * height) as nat,
            ),
        )
    } else {
        None
    }
}

/// `before` with the rows of a frame in it, `pitch` bytes apart.
pub open spec fn with_rows(
    before: Seq<u8>,
    frame: Seq<u8>,
    row_bytes: int,
    height: int,
    pitch: int,
) -> Seq<u8> {
    Seq::new(
        before.len(),
        |i: int|
            if 0 < pitch && i / pitch < height && i % pitch < row_bytes {
                frame[(i / pitch) * row_bytes + i % pitch]
            } else {
                before[i]
            },
    )
}

/// `before` with its first `height` rows of `pitch` bytes zeroed.
pub open spec fn with_blank_rows(before: Seq<u8>, height: int, pitch: int) -> Seq<u8> {
    Seq::new(before.len(), |i: int| if i < height * pitch { 0u8 } else { before[i] })
}

impl Player {
    /// How many bytes a row of the picture takes.
    fn row_bytes_count(&self) -> (r: Result<usize, String>)
        ensures
            match r {
                Ok(row_bytes) => row_bytes == 4 * self.display_width,
                Err(message) => 4 * self.display_width > usize::MAX && message@
                    == "row byte count overflow"@,
            },
    {
        match (self.display_width as usize).checked_mul(4) {
            Some(row_bytes) => Ok(row_bytes),
            None => Err("row byte count overflow".to_owned()),
        }
    }

    /// The distance of rows in bytes; a negative one is an error.
    fn checked_pitch(pitch: i32) -> (r: Result<usize, String>)
        ensures
            match r {
                Ok(checked) => checked == pitch,
                Err(message) => pitch < 0 && message@ == "invalid pitch="@ + signed_dec(
                    pitch as int,
                ),
            },
    {
        if pitch < 0 {
            return Err(bad_pitch(pitch));
        }
        Ok(pitch as usize)
    }

    /// Copies a frame row by row.
    fn copy_frame_to_buffer(&self, frame: &Frame, buffer: &mut [u8], pitch: i32) -> (r: Result<
        (),
        String,
    >)
        requires
            self.display_height * pitch <= old(buffer)@.len(),
        ensures
            match r {
                Ok(_) => {
                    &&& copy_fault(
                        self.display_width,
                        self.display_height,
                        pitch as int,
                        frame.inner.bytes@.len() as int,
                    ) is None
                    &&& final(buffer)@ == with_rows(
                        old(buffer)@,
                        frame.inner.bytes@,
                        4 * self.display_width,
                        self.display_height as int,
                        pitch as int,
                    )
                },
                Err(message) => copy_fault(
                    self.display_width,
                    self.display_height,
                    pitch as int,
                    frame.inner.bytes@.len() as int,
                ) == Some(message@) && final(buffer)@ == old(buffer)@,
            },
    {
        let pitch: usize = match Player::checked_pitch(pitch) {
            Ok(pitch) => pitch,
            Err(message) => return Err(message),
        };
        let row_bytes: usize = match self.row_bytes_count() {
            Ok(row_bytes) => row_bytes,
            Err(message) => return Err(message),
        };
        if pitch < row_bytes {
            let mut message: String = "pitch too small pitch=".to_owned();
            push_dec(&mut message, pitch as u64);
            message.append(" row_bytes=");
            push_dec(&mut message, row_bytes as u64);
            return Err(message);
        }
        let height: usize = self.display_height as usize;
        let expected_len: usize = match row_bytes.checked_mul(height) {
            Some(expected_len) => expected_len,
            None => return Err("frame size overflow".to_owned()),
        };
        if frame.inner.len() < expected_len {
            let mut message: String = "frame buffer too small len=".to_owned();
            push_dec(&mut message, frame.inner.len() as u64);
            message.append(" expected=");
            push_dec(&mut message, expected_len as u64);
            return Err(message);
        }
        if pitch > 0 {
            copy_rows(&frame.inner.bytes, row_bytes, height, buffer, pitch);
        }
        Ok(())
    }

    /// Zeroes the rows of the picture.
    fn clear_buffer(&self, buffer: &mut [u8], pitch: i32) -> (r: Result<(), String>)
        requires
            self.display_height * pitch <= old(buffer)@.len(),
        ensures
            match r {
                Ok(_) => pitch >= 0 && final(buffer)@ == with_blank_rows(
                    old(buffer)@,
                    self.display_height as int,
                    pitch as int,
                ),
                Err(message) => pitch < 0 && message@ == "invalid pitch="@ + signed_dec(
                    pitch as int,
                ) && final(buffer)@ == old(buffer)@,
            },
    {
        let ghost end = self.display_height * pitch;
        let pitch: usize = match Player::checked_pitch(pitch) {
            Ok(pitch) => pitch,
            Err(message) => return Err(message),
        };
        assert(old(buffer)@.len() == buffer.len());
        let len: usize = self.display_height as usize * pitch;
        let mut i: usize = 0;
        while i < len
            invariant
                i <= len,
                len == end,
                len <= buffer@.len(),
                buffer@ == Seq::new(
                    old(buffer)@.len(),
                    |j: int| if j < i { 0u8 } else { old(buffer)@[j] },
                ),
            decreases len - i,
        {
            buffer[i] = 0;
            assert(buffer@ =~= Seq::new(
                old(buffer)@.len(),
                |j: int| if j < i + 1 { 0u8 } else { old(buffer)@[j] },
            ));
            i += 1;
        }
        Ok(())
    }
}

/// Copies rows of `row_bytes` bytes to places `pitch` bytes apart.
fn copy_rows(frame: &Vec<u8>, row_bytes: usize, height: usize, buffer: &mut [u8], pitch: usize)
    requires
        0 < pitch,
        row_bytes <= pitch,
        row_bytes * height <= frame.len(),
        height * pitch <= old(buffer)@.len(),
    ensures
        final(buffer)@ == with_rows(
            old(buffer)@,
            frame@,
            row_bytes as int,
            height as int,
            pitch as int,
        ),
{
    let ghost before = buffer@;
    let mut y: usize = 0;
    assert(buffer@ =~= with_rows(before, frame@, row_bytes as int, 0, pitch as int)) by {
        let none = with_rows(before, frame@, row_bytes as int, 0, pitch as int);
        assert forall|i: int| 0 <= i < before.len() implies before[i] == #[trigger] none[i] by {
            vstd::arithmetic::div_mod::lemma_div_pos_is_pos(i, pitch as int);
        }
    }
    while y < height
        invariant
            0 < pitch,
            row_bytes <= pitch,
            y <= height,
            row_bytes * height <= frame.len(),
            height * pitch <= before.len(),
            before == old(buffer)@,
            before.len() == buffer@.len(),
            buffer@ == with_rows(before, frame@, row_bytes as int, y as int, pitch as int),
        decreases height - y,
    {
        proof {
            assert(y * row_bytes + row_bytes <= row_bytes * height && y * pitch + pitch <= height
                * pitch && 0 <= y * row_bytes && 0 <= y * pitch) by (nonlinear_arith)
                requires
                    0 <= y,
                    y + 1 <= height,
                    0 <= row_bytes,
                    0 < pitch,
            ;
            assert(buffer@.len() == buffer.len());
        }
        let source_start: usize = y * row_bytes;
        let destination: usize = y * pitch;
        let ghost started = buffer@;
        let mut x: usize = 0;
        while x < row_bytes
            invariant
                x <= row_bytes <= pitch,
                source_start + row_bytes <= frame.len(),
                destination + pitch <= buffer.len(),
                started.len() == buffer@.len(),
                buffer@ == Seq::new(
                    started.len(),
                    |i: int|
                        if destination <= i < destination + x {
                            frame@[source_start + (i - destination)]
                        } else {
                            started[i]
                        },
                ),
            decreases row_bytes - x,
        {
            buffer[destination + x] = frame[source_start + x];
            assert(buffer@ =~= Seq::new(
                started.len(),
                |i: int|
                    if destination <= i < destination + (x + 1) {
                        frame@[source_start + (i - destination)]
                    } else {
                        started[i]
                    },
            ));
            x += 1;
        }
        proof {
            let p = pitch as int;
            let next = with_rows(before, frame@, row_bytes as int, y + 1, p);
            assert forall|i: int| 0 <= i < before.len() implies buffer@[i]
                == #[trigger] next[i] by {
                let q = i / p;
                let r = i % p;
                vstd::arithmetic::div_mod::lemma_fundamental_div_mod(i, p);
                vstd::arithmetic::div_mod::lemma_mod_bound(i, p);
                vstd::arithmetic::mul::lemma_mul_is_commutative(p, q);
                if q == y {
                    assert(i == destination + r);
                } else if q < y {
                    assert(i < destination) by (nonlinear_arith)
                        requires
                            i == q * p + r,
                            0 <= r < p,
                            q + 1 <= y,
                            destination == y * p,
                    ;
                } else {
                    assert(i >= destination + p) by (nonlinear_arith)
                        requires
                            i == q * p + r,
                            0 <= r < p,
                            q >= y + 1,
                            destination == y * p,
                    ;
                }
            }
            assert(buffer@ =~= next);
        }
        y += 1;
    }
}

/// How a buffer was filled, and what the worker is told.
#[derive(Debug)]
pub struct Fill {
    /// Whether there was a frame to show, or why it could not be shown.
    pub result: Result<bool, String>,
    pub command: Option<WorkerCommand>,
    /// The time and duration of the frame that is shown, or that could not be.
    pub frame_pts_ms: Option<i64>,
    pub frame_duration_ms: Option<i64>,
}

/// The frame that is taken from the queue at `time_ms`.
pub open spec fn popped(queues: LoopQueues, time_ms: i64) -> Option<Frame> {
    let frames = queues.current.frames.frames@;
    last_timed(frames, due_until(frames, time_ms, FRAME_MATCH_THRESHOLD_MS, 0))
}

/// The frames that are left in the queue at `time_ms`.
pub open spec fn not_due(queues: LoopQueues, time_ms: i64) -> Seq<Frame> {
    let frames = queues.current.frames.frames@;
    frames.skip(due_until(frames, time_ms, FRAME_MATCH_THRESHOLD_MS, 0))
}

/// Whether nothing is due and the queue starts so far ahead that the worker has to go back.
pub open spec fn seeks_back(queues: LoopQueues, time_ms: i64) -> bool {
    popped(queues, time_ms) is None && (front_pts(not_due(queues, time_ms)) matches Some(first)
        && first > clamped(time_ms + MAX_CURRENT_PREFETCH_AHEAD_MS))
}

/// The buffers that taking a frame gives back.
pub open spec fn given_back(queues: LoopQueues, time_ms: i64) -> Seq<Seq<u8>> {
    let frames = queues.current.frames.frames@;
    passed_over(frames, due_until(frames, time_ms, FRAME_MATCH_THRESHOLD_MS, 0)) + if seeks_back(
        queues,
        time_ms,
    ) {
        buffers_of(not_due(queues, time_ms))
    } else {
        seq![]
    }
}

/// Whether `after` is what taking a frame at `time_ms` leaves of `before`.
pub open spec fn taken_from(after: LoopQueues, before: LoopQueues, time_ms: i64) -> bool {
    &&& after.wf()
    &&& after.next == before.next
    &&& if seeks_back(before, time_ms) {
        after.current.is_clear()
    } else {
        &&& after.current.packets == before.current.packets
        &&& after.current.frames.frames@ == not_due(before, time_ms)
        &&& after.current.frames.first_pts_ms == front_pts(not_due(before, time_ms))
        &&& after.current.frames.last_pts_ms == back_pts(not_due(before, time_ms))
    }
}

impl Player {
    /// Why a frame cannot be shown, or `None`.
    pub open spec fn fault_of(self, frame: Frame, pitch: i32) -> Option<Seq<char>> {
        copy_fault(
            self.display_width,
            self.display_height,
            pitch as int,
            frame.inner.bytes@.len() as int,
        )
    }

    /// A buffer with a frame in it.
    pub open spec fn showing(self, before: Seq<u8>, frame: Frame, pitch: i32) -> Seq<u8> {
        with_rows(
            before,
            frame.inner.bytes@,
            4 * self.display_width,
            self.display_height as int,
            pitch as int,
        )
    }

    /// Starts to fill a buffer: checks the buffer and follows the clock. The worker is to see the
    /// time and to be told what is to be told before the buffer is filled.
    pub fn begin_fill(
        &mut self,
        time_ms: i64,
        has_buffer: bool,
        pitch: i32,
        loop_config: &LoopConfig,
        queues: &mut LoopQueues,
        pool: &mut FramePool,
    ) -> (r: Result<Chase, String>)
        requires
            buffer_fault(has_buffer, pitch) is None ==> old(self).clock.tail_fits(
                later(time_ms, 0),
                *loop_config,
            ),
            old(queues).wf(),
            old(pool).wf(),
        ensures
            final(pool).wf(),
            final(queues).wf(),
            match r {
                Ok(chase) => {
                    &&& buffer_fault(has_buffer, pitch) is None
                    &&& chase == (Chase {
                        clock_ms: later(time_ms, 0),
                        command: old(self).command_at(
                            later(time_ms, 0),
                            *loop_config,
                            *old(queues),
                        ),
                    })
                    &&& final(self).chased(
                        *final(queues),
                        *final(pool),
                        *old(self),
                        *old(queues),
                        *old(pool),
                        later(time_ms, 0),
                        *loop_config,
                    )
                },
                Err(message) => {
                    &&& buffer_fault(has_buffer, pitch) == Some(message@)
                    &&& *final(self) == *old(self)
                    &&& *final(queues) == *old(queues)
                    &&& *final(pool) == *old(pool)
                },
            },
    {
        if !has_buffer {
            return Err("buffer is null".to_owned());
        }
        if pitch <= 0 {
            return Err(bad_pitch(pitch));
        }
        let time_ms: i64 = max_ms(time_ms, 0);
        let command = self.chase_to(time_ms, loop_config, queues, pool);
        Ok(Chase { clock_ms: time_ms, command })
    }

    /// Takes the frame for `time_ms` from the queue. Where there is none and the queue starts far
    /// ahead, the queue is emptied and the worker is told to go back.
    fn pop_frame(
        &self,
        time_ms: i64,
        queues: &mut LoopQueues,
        pool: &mut FramePool,
    ) -> (r: (Option<Frame>, Option<WorkerCommand>))
        requires
            old(queues).wf(),
            old(pool).wf(),
        ensures
            r.0 == popped(*old(queues), time_ms),
            r.1 == if seeks_back(*old(queues), time_ms) {
                Some(WorkerCommand::Seek(time_ms))
            } else {
                None
            },
            taken_from(*final(queues), *old(queues), time_ms),
            final(pool).took_back(*old(pool), given_back(*old(queues), time_ms)),
    {
        let ghost frames = queues.current.frames.frames@;
        let ghost due = due_until(frames, time_ms, FRAME_MATCH_THRESHOLD_MS, 0);
        let frame = queues.current.frames.pop_frame_for(time_ms, FRAME_MATCH_THRESHOLD_MS, pool);
        let mut command: Option<WorkerCommand> = None;
        if frame.is_none() {
            if let Some(first_pts_ms) = queues.current.frames.stats().first_pts_ms {
                if first_pts_ms > add_ms(time_ms, MAX_CURRENT_PREFETCH_AHEAD_MS) {
                    proof {
                        lemma_released_in_turn(
                            old(pool).cached(),
                            old(pool).max_cached as int,
                            old(pool).size(),
                            passed_over(frames, due),
                            buffers_of(not_due(*old(queues), time_ms)),
                        );
                    }
                    queues.current.clear(pool);
                    command = Some(WorkerCommand::Seek(time_ms));
                }
            }
        }
        assert(command is None ==> given_back(*old(queues), time_ms) =~= passed_over(frames, due));
        (frame, command)
    }

    /// Whether `fill` says how a buffer was filled at `time_ms`, and the player, the buffer, the
    /// queues and the pool are what is then left of them.
    pub open spec fn filled(
        self,
        buffer: Seq<u8>,
        queues: LoopQueues,
        pool: FramePool,
        time_ms: i64,
        pitch: i32,
        fill: Fill,
        after: Player,
        shown: Seq<u8>,
        queues_after: LoopQueues,
        pool_after: FramePool,
    ) -> bool {
        if pitch <= 0 {
            &&& fill.result matches Err(message) && buffer_fault(true, pitch) == Some(message@)
            &&& fill.command is None
            &&& fill.frame_pts_ms is None
            &&& fill.frame_duration_ms is None
            &&& after == self
            &&& shown == buffer
            &&& queues_after == queues
            &&& pool_after == pool
        } else {
            &&& after.clock == self.clock
            &&& after.display_width == self.display_width
            &&& after.display_height == self.display_height
            &&& taken_from(queues_after, queues, time_ms)
            &&& fill.command == if seeks_back(queues, time_ms) {
                Some(WorkerCommand::Seek(time_ms))
            } else {
                None
            }
            &&& match popped(queues, time_ms) {
                Some(frame) => match self.fault_of(frame, pitch) {
                    None => {
                        &&& fill.result == Ok::<bool, String>(true)
                        &&& fill.frame_pts_ms == frame.pts_ms
                        &&& fill.frame_duration_ms == frame.duration_ms
                        &&& shown == self.showing(buffer, frame, pitch)
                        &&& after.last_frame == Some(frame)
                        &&& pool_after.took_back(
                            pool,
                            given_back(queues, time_ms) + buffer_of(self.last_frame),
                        )
                    },
                    Some(text) => {
                        &&& fill.result matches Err(message) && message@ == text
                        &&& fill.frame_pts_ms == frame.pts_ms
                        &&& fill.frame_duration_ms == frame.duration_ms
                        &&& shown == buffer
                        &&& after.last_frame == self.last_frame
                        &&& pool_after.took_back(
                            pool,
                            given_back(queues, time_ms).push(frame.inner.bytes@),
                        )
                    },
                },
                None => {
                    &&& after.last_frame == self.last_frame
                    &&& pool_after.took_back(pool, given_back(queues, time_ms))
                    &&& match self.last_frame {
                        Some(frame) => match self.fault_of(frame, pitch) {
                            None => {
                                &&& fill.result == Ok::<bool, String>(true)
                                &&& fill.frame_pts_ms == frame.pts_ms
                                &&& fill.frame_duration_ms == frame.duration_ms
                                &&& shown == self.showing(buffer, frame, pitch)
                            },
                            Some(text) => {
                                &&& fill.result matches Err(message) && message@ == text
                                &&& fill.frame_pts_ms == frame.pts_ms
                                &&& fill.frame_duration_ms == frame.duration_ms
                                &&& shown == buffer
                            },
                        },
                        None => {
                            &&& fill.result == Ok::<bool, String>(false)
                            &&& fill.frame_pts_ms is None
                            &&& fill.frame_duration_ms is None
                            &&& shown == with_blank_rows(
                                buffer,
                                self.display_height as int,
                                pitch as int,
                            )
                        },
                    }
                },
            }
        }
    }

    /// Fills a buffer: with the frame for `time_ms`, or else with the last one, or else with zeros.
    /// Rows that are no bytes apart, or less, are an error.
    pub fn fill_buffer(
        &mut self,
        time_ms: i64,
        pitch: i32,
        buffer: &mut [u8],
        queues: &mut LoopQueues,
        pool: &mut FramePool,
    ) -> (fill: Fill)
        requires
            old(self).display_height * pitch <= old(buffer)@.len(),
            old(queues).wf(),
            old(pool).wf(),
        ensures
            old(self).filled(
                old(buffer)@,
                *old(queues),
                *old(pool),
                later(time_ms, 0),
                pitch,
                fill,
                *final(self),
                final(buffer)@,
                *final(queues),
                *final(pool),
            ),
            final(queues).wf(),
            final(pool).wf(),
            final(buffer)@.len() == old(buffer)@.len(),
    {
        if pitch <= 0 {
            return Fill {
                result: Err(bad_pitch(pitch)),
                command: None,
                frame_pts_ms: None,
                frame_duration_ms: None,
            };
        }
        let time_ms: i64 = max_ms(time_ms, 0);
        let (frame, command) = self.pop_frame(time_ms, queues, pool);
        let ghost after_pop = *pool;
        let ghost given = given_back(*old(queues), time_ms);
        if let Some(frame) = frame {
            let frame_pts_ms = frame.pts_ms;
            let frame_duration_ms = frame.duration_ms;
            match self.copy_frame_to_buffer(&frame, buffer, pitch) {
                Ok(()) => {
                    proof {
                        lemma_released_in_turn(
                            old(pool).cached(),
                            old(pool).max_cached as int,
                            old(pool).size(),
                            given,
                            buffer_of(old(self).last_frame),
                        );
                    }
                    self.forget_last_frame(pool);
                    self.last_frame = Some(frame);
                    Fill { result: Ok(true), command, frame_pts_ms, frame_duration_ms }
                },
                Err(message) => {
                    let ghost bytes = frame.inner.bytes@;
                    pool.release(frame.inner);
                    proof {
                        lemma_push_given(*old(pool), after_pop, *pool, given, bytes);
                    }
                    Fill { result: Err(message), command, frame_pts_ms, frame_duration_ms }
                },
            }
        } else {
            match &self.last_frame {
                Some(frame) => {
                    let frame_pts_ms = frame.pts_ms;
                    let frame_duration_ms = frame.duration_ms;
                    match self.copy_frame_to_buffer(frame, buffer, pitch) {
                        Ok(()) => Fill {
                            result: Ok(true),
                            command,
                            frame_pts_ms,
                            frame_duration_ms,
                        },
                        Err(message) => Fill {
                            result: Err(message),
                            command,
                            frame_pts_ms,
                            frame_duration_ms,
                        },
                    }
                },
                None => {
                    let result = match self.clear_buffer(buffer, pitch) {
                        Ok(()) => Ok(false),
                        Err(message) => Err(message),
                    };
                    Fill { result, command, frame_pts_ms: None, frame_duration_ms: None }
                },
            }
        }
    }
}

} // verus!

//! The decisions of the thread that reads, decodes and queues ahead of the player.

use vstd::prelude::*;

use crate::movie::frame::{buffers_of, bytes_in, Frame};
use crate::movie::looper::{LoopQueue, LoopQueues};
use crate::movie::packet::{newest, Packet};
use crate::movie::player::PlaybackState;
use crate::movie::pool::FramePool;
use crate::movie::time::{add_ms, clamped, later, max_ms};

verus! {

/// How far ahead of the playback clock frames are queued.
pub const MAX_CURRENT_PREFETCH_AHEAD_MS: i64 = 750;

/// What the player asks of the worker.
#[derive(Clone, Copy, Debug, PartialEq, Eq, Structural)]
pub enum WorkerCommand {
    Pause,
    Resume,
    /// The clock came round to the start of the loop; the player waits until this is done.
    Wrap,
    Seek(i64),
    /// The clock is ahead of what is queued: skip packets up to this time.
    Forward(i64),
    Shutdown,
}

/// Why the worker waits.
#[derive(Clone, Copy, Debug, PartialEq, Eq, Structural)]
pub enum IdleReason {
    CurrentReady,
    NextLoopReady,
    Ended,
}

/// Which pass is being loaded.
#[derive(Clone, Copy, Debug, PartialEq, Eq, Structural)]
pub enum PreloadTarget {
    Current,
    NextLoop,
}

/// What the worker is doing.
#[derive(Clone, Copy, Debug, PartialEq, Eq, Structural)]
pub enum WorkerState {
    Playing,
    /// Packets before this time are decoded, but not shown: a seek ends at the keyframe before.
    Seeking(i64),
    /// Packets before this time are dropped, to catch up with the clock.
    Forwarding(i64),
    Idle(IdleReason),
    Preload(PreloadTarget),
}

/// What came of one step.
#[derive(Clone, Copy, Debug, PartialEq, Eq, Structural)]
pub enum WorkerStep {
    Progress,
    NoWork,
    Ended,
}

/// What a seek is for.
#[derive(Clone, Copy, Debug, PartialEq, Eq, Structural)]
pub enum SeekPurpose {
    /// The player asked for it.
    Command,
    /// The loop starts over without a pass that was loaded ahead.
    Wrap,
    /// The next pass is to be loaded.
    Preload,
}

/// A seek that the demuxer is to make.
#[derive(Clone, Copy, Debug, PartialEq, Eq, Structural)]
pub struct SeekRequest {
    pub target_ms: i64,
    pub purpose: SeekPurpose,
}

/// What is left to do of a command.
#[derive(Clone, Copy, Debug, PartialEq, Eq, Structural)]
pub enum CommandOutcome {
    Handled,
    Seek(SeekRequest),
    Stop,
}

/// How to wait for the next command.
#[derive(Clone, Copy, Debug, PartialEq, Eq, Structural)]
pub enum Receive {
    Stop,
    /// Nothing else is to be done until there is one.
    Wait,
    /// Only look whether there is one.
    Poll,
}

/// What is to be done with a packet.
#[derive(Clone, Copy, Debug, PartialEq, Eq, Structural)]
pub enum PacketAction {
    /// Nothing more.
    Step(WorkerStep),
    /// The stream is at its end, and the next pass is to be loaded.
    PreloadNextLoop,
    /// Decode it, its frames shown or not, and queue them.
    Decode { presentable: bool, target: PreloadTarget },
}

/// What the worker is doing, and whether the player has paused it.
#[derive(Clone, Copy, Debug, PartialEq, Eq, Structural)]
pub struct Worker {
    pub state: WorkerState,
    pub paused: bool,
}

impl WorkerState {
    /// Whether the worker does nothing before the next command.
    pub fn should_wait_cmd(&self) -> (wait: bool)
        ensures
            wait == (self is Idle),
    {
        match self {
            WorkerState::Idle(_) => true,
            _ => false,
        }
    }

    /// Whether the worker goes on without a command.
    pub fn should_process(&self) -> (process: bool)
        ensures
            process == !(self is Idle),
    {
        match self {
            WorkerState::Idle(_) => false,
            _ => true,
        }
    }
}

/// Whether a packet's time is known and not before `target_ms`.
pub open spec fn reached(pts_ms: Option<i64>, target_ms: i64) -> bool {
    pts_ms matches Some(pts) && pts >= target_ms
}

/// What the worker goes on with once it has caught up.
pub open spec fn caught_up(playback: PlaybackState) -> WorkerState {
    if playback == PlaybackState::Paused {
        WorkerState::Preload(PreloadTarget::Current)
    } else {
        WorkerState::Playing
    }
}

/// Whether the queue that the worker fills takes no more.
pub open spec fn target_full(state: WorkerState, queues: LoopQueues, clock_ms: i64) -> bool {
    match state {
        WorkerState::Preload(PreloadTarget::NextLoop) => queues.next matches Some(next)
            && next.frames.full(),
        WorkerState::Idle(_) => queues.current.frames.full(),
        _ => queues.current.frames.full() || (queues.current.frames.last_pts_ms matches Some(last)
            && last > clamped(clock_ms + MAX_CURRENT_PREFETCH_AHEAD_MS)),
    }
}

/// The worker after it was paused: what it plays it goes on loading.
pub open spec fn after_pause(worker: Worker) -> Worker {
    Worker {
        paused: true,
        state: if !worker.paused && (worker.state == WorkerState::Playing || worker.state
            == WorkerState::Idle(IdleReason::CurrentReady)) {
            WorkerState::Preload(PreloadTarget::Current)
        } else {
            worker.state
        },
    }
}

/// The worker after it was resumed: what it was loading it plays.
pub open spec fn after_resume(worker: Worker) -> Worker {
    Worker {
        paused: false,
        state: if worker.state == WorkerState::Idle(IdleReason::CurrentReady) || worker.state
            == WorkerState::Preload(PreloadTarget::Current) {
            WorkerState::Playing
        } else {
            worker.state
        },
    }
}

/// What the worker does after it was told to go on to `target_ms`.
pub open spec fn after_forward(state: WorkerState, target: i64, last: Option<i64>) -> WorkerState {
    let target_ms = later(target, 0);
    match state {
        WorkerState::Seeking(_) => state,
        _ => if last matches Some(last_pts) && target_ms <= last_pts {
            state
        } else {
            match state {
                WorkerState::Forwarding(current) => WorkerState::Forwarding(
                    later(current, target_ms),
                ),
                WorkerState::Preload(PreloadTarget::NextLoop) => state,
                _ => WorkerState::Forwarding(target_ms),
            }
        },
    }
}

impl Worker {
    /// A worker that plays from the start.
    pub fn new() -> (worker: Worker)
        ensures
            worker == (Worker { state: WorkerState::Playing, paused: false }),
    {
        Worker { state: WorkerState::Playing, paused: false }
    }

    /// How to wait for the next command.
    pub fn receive(&self, shutdown: bool) -> (receive: Receive)
        ensures
            receive == if shutdown {
                Receive::Stop
            } else if self.state is Idle {
                Receive::Wait
            } else {
                Receive::Poll
            },
    {
        if shutdown {
            Receive::Stop
        } else if self.state.should_wait_cmd() {
            Receive::Wait
        } else {
            Receive::Poll
        }
    }

    /// Does what a command says, up to a seek that the demuxer has to make.
    pub fn handle_command(
        &mut self,
        command: WorkerCommand,
        loop_enabled: bool,
        playback: &mut PlaybackState,
        queues: &mut LoopQueues,
        pool: &mut FramePool,
    ) -> (outcome: CommandOutcome)
        requires
            old(queues).wf(),
            old(pool).wf(),
        ensures
            final(queues).wf(),
            final(pool).wf(),
            !(command is Wrap && loop_enabled) ==> *final(queues) == *old(queues) && *final(pool)
                == *old(pool),
            match command {
                WorkerCommand::Pause => {
                    &&& outcome == CommandOutcome::Handled
                    &&& *final(self) == after_pause(*old(self))
                    &&& *final(playback) == if old(self).paused {
                        *old(playback)
                    } else {
                        PlaybackState::Paused
                    }
                },
                WorkerCommand::Resume => {
                    &&& outcome == CommandOutcome::Handled
                    &&& *final(self) == after_resume(*old(self))
                    &&& *final(playback) == PlaybackState::Playing
                },
                WorkerCommand::Wrap => {
                    &&& final(self).paused == old(self).paused
                    &&& *final(playback) == *old(playback)
                    &&& if !loop_enabled {
                        outcome == CommandOutcome::Handled && final(self).state
                            == WorkerState::Idle(IdleReason::CurrentReady)
                    } else {
                        &&& final(queues).next is None
                        &&& final(pool).took_back(
                            *old(pool),
                            buffers_of(old(queues).current.frames.frames@),
                        )
                        &&& match old(queues).next {
                            Some(next) => outcome == CommandOutcome::Handled && final(self).state
                                == WorkerState::Playing && final(queues).current == next,
                            None => outcome == CommandOutcome::Seek(
                                SeekRequest { target_ms: 0, purpose: SeekPurpose::Wrap },
                            ) && final(self).state == old(self).state
                                && final(queues).current.is_clear(),
                        }
                    }
                },
                WorkerCommand::Seek(target_ms) => {
                    &&& outcome == CommandOutcome::Seek(
                        SeekRequest {
                            target_ms: later(target_ms, 0),
                            purpose: SeekPurpose::Command,
                        },
                    )
                    &&& *final(self) == *old(self)
                    &&& *final(playback) == *old(playback)
                },
                WorkerCommand::Forward(target_ms) => {
                    &&& outcome == CommandOutcome::Handled
                    &&& final(self).state == after_forward(
                        old(self).state,
                        target_ms,
                        old(queues).current.last_pts(),
                    )
                    &&& final(self).paused == old(self).paused
                    &&& *final(playback) == *old(playback)
                },
                WorkerCommand::Shutdown => {
                    &&& outcome == CommandOutcome::Stop
                    &&& *final(self) == *old(self)
                    &&& *final(playback) == *old(playback)
                },
            },
    {
        match command {
            WorkerCommand::Pause => {
                if !self.paused {
                    self.paused = true;
                    *playback = PlaybackState::Paused;
                    match self.state {
                        WorkerState::Playing | WorkerState::Idle(IdleReason::CurrentReady) => {
                            self.state = WorkerState::Preload(PreloadTarget::Current);
                        },
                        _ => {},
                    }
                }
                CommandOutcome::Handled
            },
            WorkerCommand::Resume => {
                self.paused = false;
                *playback = PlaybackState::Playing;
                match self.state {
                    WorkerState::Idle(IdleReason::CurrentReady)
                    | WorkerState::Preload(PreloadTarget::Current) => {
                        self.state = WorkerState::Playing;
                    },
                    _ => {},
                }
                CommandOutcome::Handled
            },
            WorkerCommand::Wrap => self.handle_wrap(loop_enabled, queues, pool),
            WorkerCommand::Seek(target_ms) => CommandOutcome::Seek(
                SeekRequest { target_ms: max_ms(target_ms, 0), purpose: SeekPurpose::Command },
            ),
            WorkerCommand::Forward(target_ms) => {
                self.handle_forward(target_ms, queues);
                CommandOutcome::Handled
            },
            WorkerCommand::Shutdown => CommandOutcome::Stop,
        }
    }

    /// Starts the loop over: with what was loaded ahead, or by a seek to the start.
    fn handle_wrap(
        &mut self,
        loop_enabled: bool,
        queues: &mut LoopQueues,
        pool: &mut FramePool,
    ) -> (outcome: CommandOutcome)
        requires
            old(queues).wf(),
            old(pool).wf(),
        ensures
            final(queues).wf(),
            final(pool).wf(),
            final(self).paused == old(self).paused,
            !loop_enabled ==> {
                &&& outcome == CommandOutcome::Handled
                &&& final(self).state == WorkerState::Idle(IdleReason::CurrentReady)
                &&& *final(queues) == *old(queues)
                &&& *final(pool) == *old(pool)
            },
            loop_enabled ==> {
                &&& final(queues).next is None
                &&& final(pool).took_back(
                    *old(pool),
                    buffers_of(old(queues).current.frames.frames@),
                )
                &&& match old(queues).next {
                    Some(next) => outcome == CommandOutcome::Handled && final(self).state
                        == WorkerState::Playing && final(queues).current == next,
                    None => outcome == CommandOutcome::Seek(
                        SeekRequest { target_ms: 0, purpose: SeekPurpose::Wrap },
                    ) && final(self).state == old(self).state && final(queues).current.is_clear(),
                }
            },
    {
        if !loop_enabled {
            self.state = WorkerState::Idle(IdleReason::CurrentReady);
            return CommandOutcome::Handled;
        }
        let has_preloaded_queue = queues.next.is_some();
        queues.switch(pool);
        if has_preloaded_queue {
            self.state = WorkerState::Playing;
            CommandOutcome::Handled
        } else {
            CommandOutcome::Seek(SeekRequest { target_ms: 0, purpose: SeekPurpose::Wrap })
        }
    }

    /// Goes on to a time, unless what is queued reaches it or a seek is under way.
    fn handle_forward(&mut self, target_ms: i64, queues: &LoopQueues)
        ensures
            final(self).paused == old(self).paused,
            final(self).state == after_forward(
                old(self).state,
                target_ms,
                queues.current.last_pts(),
            ),
    {
        let target_ms: i64 = max_ms(target_ms, 0);
        if let WorkerState::Seeking(_) = self.state {
            return ;
        }
        if let Some(last_pts_ms) = queues.current.last_pts_ms() {
            if target_ms <= last_pts_ms {
                return ;
            }
        }
        match self.state {
            WorkerState::Forwarding(current_target_ms) => {
                self.state = WorkerState::Forwarding(max_ms(current_target_ms, target_ms));
            },
            WorkerState::Preload(PreloadTarget::NextLoop) => {},
            _ => {
                self.state = WorkerState::Forwarding(target_ms);
            },
        }
    }

    /// Goes on after a seek: where the demuxer made it, the queue that is filled next is emptied.
    pub fn finish_seek(
        &mut self,
        request: SeekRequest,
        seek_ok: bool,
        queues: &mut LoopQueues,
        pool: &mut FramePool,
    )
        requires
            old(queues).wf(),
            old(pool).wf(),
        ensures
            final(queues).wf(),
            final(self).paused == old(self).paused,
            final(self).state == if !seek_ok {
                WorkerState::Idle(IdleReason::CurrentReady)
            } else if request.purpose == SeekPurpose::Preload {
                WorkerState::Preload(PreloadTarget::NextLoop)
            } else {
                WorkerState::Seeking(request.target_ms)
            },
            !seek_ok ==> *final(queues) == *old(queues) && *final(pool) == *old(pool),
            seek_ok && request.purpose != SeekPurpose::Preload ==> {
                &&& final(queues).current.is_clear()
                &&& final(queues).next == old(queues).next
                &&& final(pool).took_back(
                    *old(pool),
                    buffers_of(old(queues).current.frames.frames@),
                )
            },
            seek_ok && request.purpose == SeekPurpose::Preload ==> {
                &&& final(queues).current == old(queues).current
                &&& match old(queues).next {
                    Some(next) => {
                        &&& final(queues).next matches Some(cleared) && cleared.is_clear()
                        &&& final(pool).took_back(*old(pool), buffers_of(next.frames.frames@))
                    },
                    None => final(queues).next is None && *final(pool) == *old(pool),
                }
            },
    {
        if !seek_ok {
            self.state = WorkerState::Idle(IdleReason::CurrentReady);
            return ;
        }
        match request.purpose {
            SeekPurpose::Preload => {
                if let Some(mut next) = queues.next.take() {
                    next.clear(pool);
                    queues.next = Some(next);
                }
                self.state = WorkerState::Preload(PreloadTarget::NextLoop);
            },
            _ => {
                queues.current.clear(pool);
                self.state = WorkerState::Seeking(request.target_ms);
            },
        }
    }

    /// Whether there is room for another packet.
    pub fn wants_packet(&self, queues: &LoopQueues, clock_ms: i64) -> (wants: bool)
        ensures
            wants == !target_full(self.state, *queues, clock_ms),
    {
        !self.target_queue_is_full(queues, clock_ms)
    }

    /// Whether the queue that is filled takes no more.
    fn target_queue_is_full(&self, queues: &LoopQueues, clock_ms: i64) -> (full: bool)
        ensures
            full == target_full(self.state, *queues, clock_ms),
    {
        match self.state {
            WorkerState::Preload(PreloadTarget::NextLoop) => match &queues.next {
                Some(next) => next.is_full(),
                None => false,
            },
            WorkerState::Idle(_) => queues.current.is_full(),
            _ => {
                let ahead = match queues.current.frames.last_pts_ms() {
                    Some(last_pts_ms) => last_pts_ms > add_ms(
                        clock_ms,
                        MAX_CURRENT_PREFETCH_AHEAD_MS,
                    ),
                    None => false,
                };
                ahead || queues.current.is_full()
            },
        }
    }

    /// What to do with the packet that was read, or with the end of the stream.
    pub fn on_packet(
        &mut self,
        packet: Option<Packet>,
        loop_enabled: bool,
        playback: PlaybackState,
    ) -> (action: PacketAction)
        ensures
            final(self).paused == old(self).paused,
            match packet {
                None => {
                    &&& *final(self) == *old(self)
                    &&& action == if loop_enabled {
                        PacketAction::PreloadNextLoop
                    } else {
                        PacketAction::Step(WorkerStep::Ended)
                    }
                },
                Some(packet) => match old(self).state {
                    WorkerState::Playing => *final(self) == *old(self) && action
                        == PacketAction::Decode {
                        presentable: packet.presentable,
                        target: PreloadTarget::Current,
                    },
                    WorkerState::Preload(target) => *final(self) == *old(self) && action
                        == PacketAction::Decode { presentable: packet.presentable, target },
                    WorkerState::Seeking(target_ms) => {
                        &&& action == PacketAction::Decode {
                            presentable: reached(packet.pts_ms, target_ms),
                            target: PreloadTarget::Current,
                        }
                        &&& final(self).state == if reached(packet.pts_ms, target_ms) {
                            caught_up(playback)
                        } else {
                            old(self).state
                        }
                    },
                    WorkerState::Forwarding(target_ms) => if reached(packet.pts_ms, target_ms) {
                        &&& action == PacketAction::Decode {
                            presentable: true,
                            target: PreloadTarget::Current,
                        }
                        &&& final(self).state == caught_up(playback)
                    } else {
                        &&& action == PacketAction::Step(WorkerStep::Progress)
                        &&& *final(self) == *old(self)
                    },
                    WorkerState::Idle(_) => *final(self) == *old(self) && action
                        == PacketAction::Step(WorkerStep::NoWork),
                },
            },
    {
        let mut packet = match packet {
            Some(packet) => packet,
            None => {
                return if loop_enabled {
                    PacketAction::PreloadNextLoop
                } else {
                    PacketAction::Step(WorkerStep::Ended)
                };
            },
        };
        match self.state {
            WorkerState::Playing => PacketAction::Decode {
                presentable: packet.presentable,
                target: PreloadTarget::Current,
            },
            WorkerState::Preload(target) => PacketAction::Decode {
                presentable: packet.presentable,
                target,
            },
            WorkerState::Seeking(target_ms) => {
                if packet_reached(&packet, target_ms) {
                    packet.set_presentable(true);
                    self.state = go_on(playback);
                } else {
                    packet.set_presentable(false);
                }
                PacketAction::Decode {
                    presentable: packet.presentable,
                    target: PreloadTarget::Current,
                }
            },
            WorkerState::Forwarding(target_ms) => {
                if packet_reached(&packet, target_ms) {
                    packet.set_presentable(true);
                    self.state = go_on(playback);
                    PacketAction::Decode {
                        presentable: packet.presentable,
                        target: PreloadTarget::Current,
                    }
                } else {
                    PacketAction::Step(WorkerStep::Progress)
                }
            },
            WorkerState::Idle(_) => PacketAction::Step(WorkerStep::NoWork),
        }
    }

    /// Starts to load the next pass, unless the movie is to end after all.
    pub fn handle_preload_next_loop(&mut self, loop_enabled: bool) -> (seek: Option<SeekRequest>)
        ensures
            final(self).paused == old(self).paused,
            loop_enabled ==> final(self).state == old(self).state && seek == Some(
                SeekRequest { target_ms: 0, purpose: SeekPurpose::Preload },
            ),
            !loop_enabled ==> final(self).state == WorkerState::Idle(IdleReason::Ended) && seek
                is None,
    {
        if !loop_enabled {
            self.state = WorkerState::Idle(IdleReason::Ended);
            return None;
        }
        Some(SeekRequest { target_ms: 0, purpose: SeekPurpose::Preload })
    }

    /// What the worker does after a step.
    pub open spec fn after_step(self, step: WorkerStep) -> WorkerState {
        match step {
            WorkerStep::Progress => self.state,
            WorkerStep::NoWork => if self.state == WorkerState::Preload(PreloadTarget::NextLoop) {
                WorkerState::Idle(IdleReason::NextLoopReady)
            } else {
                WorkerState::Idle(IdleReason::CurrentReady)
            },
            WorkerStep::Ended => WorkerState::Idle(IdleReason::Ended),
        }
    }

    /// Goes on after a step.
    pub fn finish_step(&mut self, step: WorkerStep, playback: &mut PlaybackState)
        ensures
            final(self).paused == old(self).paused,
            final(self).state == old(self).after_step(step),
            *final(playback) == if step == WorkerStep::Ended {
                PlaybackState::Ended
            } else {
                *old(playback)
            },
    {
        match step {
            WorkerStep::Progress => {},
            WorkerStep::NoWork => {
                self.state = match self.state {
                    WorkerState::Preload(PreloadTarget::NextLoop) => WorkerState::Idle(
                        IdleReason::NextLoopReady,
                    ),
                    _ => WorkerState::Idle(IdleReason::CurrentReady),
                };
            },
            WorkerStep::Ended => {
                *playback = PlaybackState::Ended;
                self.state = WorkerState::Idle(IdleReason::Ended);
            },
        }
    }
}

fn packet_reached(packet: &Packet, target_ms: i64) -> (yes: bool)
    ensures
        yes == reached(packet.pts_ms, target_ms),
{
    match packet.pts_ms {
        Some(pts_ms) => pts_ms >= target_ms,
        None => false,
    }
}

fn go_on(playback: PlaybackState) -> (state: WorkerState)
    ensures
        state == caught_up(playback),
{
    match playback {
        PlaybackState::Paused => WorkerState::Preload(PreloadTarget::Current),
        _ => WorkerState::Playing,
    }
}

/// Whether a packet and its frames can be added to a queue without its counts running over.
pub open spec fn room_for(queue: LoopQueue, packet: Packet, frames: Seq<Frame>) -> bool {
    &&& queue.packets.retained_bytes + packet.size <= usize::MAX
    &&& queue.frames.cached_bytes + bytes_in(frames) <= usize::MAX
}

/// The first time that is remembered once some frames were added.
pub open spec fn first_after(first: Option<i64>, frames: Seq<Frame>) -> Option<i64>
    decreases frames.len(),
{
    if frames.len() == 0 {
        first
    } else {
        match first_after(first, frames.drop_last()) {
            Some(pts) => Some(pts),
            None => frames.last().pts_ms,
        }
    }
}

/// The last time that is remembered once some frames were added.
pub open spec fn last_after(last: Option<i64>, frames: Seq<Frame>) -> Option<i64>
    decreases frames.len(),
{
    if frames.len() == 0 {
        last
    } else {
        match frames.last().pts_ms {
            Some(pts) => Some(pts),
            None => last_after(last, frames.drop_last()),
        }
    }
}

/// Whether `after` is `before` with a packet and its frames added.
pub open spec fn queued(
    before: LoopQueue,
    packet: Packet,
    frames: Seq<Frame>,
    after: LoopQueue,
) -> bool {
    &&& after.wf()
    &&& after.packets.packets@ == newest(before.packets.packets@.push(packet.info()))
    &&& after.packets.first_pts_ms == after.packets.packets@[0].pts_ms
    &&& after.packets.last_pts_ms == match packet.pts_ms {
        Some(pts) => Some(pts),
        None => before.packets.last_pts_ms,
    }
    &&& after.frames.frames@ == before.frames.frames@ + frames
    &&& after.frames.first_pts_ms == first_after(before.frames.first_pts_ms, frames)
    &&& after.frames.last_pts_ms == last_after(before.frames.last_pts_ms, frames)
}

/// Adds a packet and its frames to a queue.
fn queue_into(queue: &mut LoopQueue, packet: &Packet, frames: Vec<Frame>)
    requires
        old(queue).wf(),
        room_for(*old(queue), *packet, frames@),
    ensures
        queued(*old(queue), *packet, frames@, *final(queue)),
{
    let ghost all = frames@;
    let ghost before = *queue;
    queue.packets.push_back(packet);
    let mut waiting: Vec<Frame> = frames;
    let ghost mut done: int = 0;
    assert(all.skip(0) =~= all);
    assert(all.take(0) =~= Seq::<Frame>::empty());
    assert(before.frames.frames@ + all.take(0) =~= before.frames.frames@);
    while waiting.len() > 0
        invariant
            0 <= done <= all.len(),
            waiting@ == all.skip(done),
            queue.wf(),
            before.frames.wf(),
            before.frames.cached_bytes + bytes_in(all) <= usize::MAX,
            queue.packets.packets@ == newest(before.packets.packets@.push(packet.info())),
            queue.packets.first_pts_ms == queue.packets.packets@[0].pts_ms,
            queue.packets.last_pts_ms == (match packet.pts_ms {
                Some(pts) => Some(pts),
                None => before.packets.last_pts_ms,
            }),
            queue.frames.frames@ == before.frames.frames@ + all.take(done),
            queue.frames.cached_bytes == before.frames.cached_bytes + bytes_in(all.take(done)),
            queue.frames.first_pts_ms == first_after(before.frames.first_pts_ms, all.take(done)),
            queue.frames.last_pts_ms == last_after(before.frames.last_pts_ms, all.take(done)),
        decreases waiting@.len(),
    {
        let frame = waiting.remove(0);
        proof {
            assert(frame == all[done]);
            assert(all.take(done + 1).drop_last() =~= all.take(done));
            lemma_bytes_of_front(all, done + 1);
            assert((before.frames.frames@ + all.take(done)).push(frame) =~= before.frames.frames@
                + all.take(done + 1));
            assert(waiting@ =~= all.skip(done + 1));
        }
        queue.frames.push_back(frame);
        proof {
            done = done + 1;
        }
    }
    assert(all.take(done) =~= all);
}

/// The first frames take no more bytes than all of them.
proof fn lemma_bytes_of_front(frames: Seq<Frame>, n: int)
    requires
        0 <= n <= frames.len(),
    ensures
        bytes_in(frames.take(n)) <= bytes_in(frames),
    decreases frames.len() - n,
{
    if n < frames.len() {
        lemma_bytes_of_front(frames, n + 1);
        assert(frames.take(n + 1).drop_last() =~= frames.take(n));
    } else {
        assert(frames.take(n) =~= frames);
    }
}

/// Whether a packet and its frames can be added to the queue of a pass.
pub open spec fn pass_has_room(
    queues: LoopQueues,
    target: PreloadTarget,
    packet: Packet,
    frames: Seq<Frame>,
) -> bool {
    match target {
        PreloadTarget::Current => room_for(queues.current, packet, frames),
        PreloadTarget::NextLoop => match queues.next {
            Some(next) => room_for(next, packet, frames),
            None => bytes_in(frames) <= usize::MAX,
        },
    }
}

/// How many bytes some frames take; `None` where that is more than can be counted.
fn count_bytes(frames: &[Frame]) -> (bytes: Option<usize>)
    ensures
        match bytes {
            Some(bytes) => bytes == bytes_in(frames@),
            None => bytes_in(frames@) > usize::MAX,
        },
{
    let mut bytes: usize = 0;
    let mut i: usize = 0;
    assert(frames@.take(0) =~= Seq::<Frame>::empty());
    while i < frames.len()
        invariant
            i <= frames.len(),
            bytes == bytes_in(frames@.take(i as int)),
        decreases frames.len() - i,
    {
        assert(frames@.take(i + 1).drop_last() =~= frames@.take(i as int));
        proof {
            lemma_bytes_of_front(frames@, i + 1);
        }
        bytes = match bytes.checked_add(frames[i].inner.len()) {
            Some(bytes) => bytes,
            None => return None,
        };
        i += 1;
    }
    assert(frames@.take(i as int) =~= frames@);
    Some(bytes)
}

/// Whether a packet and its frames can be added to the queue of a pass.
pub fn has_room(
    queues: &LoopQueues,
    target: PreloadTarget,
    packet: &Packet,
    frames: &[Frame],
) -> (room: bool)
    ensures
        room == pass_has_room(*queues, target, *packet, frames@),
{
    let bytes: usize = match count_bytes(frames) {
        Some(bytes) => bytes,
        None => return false,
    };
    let queue = match target {
        PreloadTarget::Current => &queues.current,
        PreloadTarget::NextLoop => match &queues.next {
            Some(next) => next,
            None => return true,
        },
    };
    queue.packets.retained_bytes.checked_add(packet.size).is_some()
        && queue.frames.cached_bytes.checked_add(bytes).is_some()
}

/// Queues a packet that was decoded, with its frames, for the pass that is shown. One that could
/// not be decoded is no work.
pub fn queue_packet(
    queues: &mut LoopQueues,
    packet: &Packet,
    decoded: Result<Vec<Frame>, String>,
) -> (step: WorkerStep)
    requires
        old(queues).wf(),
        decoded matches Ok(frames) ==> pass_has_room(
            *old(queues),
            PreloadTarget::Current,
            *packet,
            frames@,
        ),
    ensures
        final(queues).wf(),
        final(queues).next == old(queues).next,
        match decoded {
            Ok(frames) => step == WorkerStep::Progress && queued(
                old(queues).current,
                *packet,
                frames@,
                final(queues).current,
            ),
            Err(_) => step == WorkerStep::NoWork && *final(queues) == *old(queues),
        },
{
    match decoded {
        Ok(frames) => {
            queue_into(&mut queues.current, packet, frames);
            WorkerStep::Progress
        },
        Err(_) => WorkerStep::NoWork,
    }
}

/// Queues a packet that was decoded, with its frames, for the pass that comes next.
pub fn queue_next_loop_packet(
    queues: &mut LoopQueues,
    packet: &Packet,
    decoded: Result<Vec<Frame>, String>,
) -> (step: WorkerStep)
    requires
        old(queues).wf(),
        decoded matches Ok(frames) ==> pass_has_room(
            *old(queues),
            PreloadTarget::NextLoop,
            *packet,
            frames@,
        ),
    ensures
        final(queues).wf(),
        final(queues).current == old(queues).current,
        match decoded {
            Ok(frames) => {
                &&& step == WorkerStep::Progress
                &&& final(queues).next matches Some(after) && match old(queues).next {
                    Some(next) => queued(next, *packet, frames@, after),
                    None => exists|empty: LoopQueue|
                        empty.is_clear() && #[trigger] queued(empty, *packet, frames@, after),
                }
            },
            Err(_) => step == WorkerStep::NoWork && *final(queues) == *old(queues),
        },
{
    match decoded {
        Ok(frames) => {
            let mut next: LoopQueue = match queues.next.take() {
                Some(next) => next,
                None => LoopQueue::new(),
            };
            queue_into(&mut next, packet, frames);
            queues.next = Some(next);
            WorkerStep::Progress
        },
        Err(_) => WorkerStep::NoWork,
    }
}

} // verus!

//! A movie from when it is opened until it is closed.

use vstd::prelude::*;

use crate::movie::looper::{LoopConfig, LoopQueues};
use crate::movie::player::{
    buffer_fault, buffer_of, Chase, Fill, PlaybackState, Player, UpdateCheck,
};
use crate::movie::pool::FramePool;
use crate::movie::time::later;
use crate::movie::worker::WorkerCommand;
use crate::omv::video::{OmvVideoFormat, OmvVideoInfo};
use crate::text::{dec, push_dec};

verus! {

/// What the player and its worker share.
#[derive(Debug)]
pub struct Shared {
    pub queues: LoopQueues,
    pub pool: FramePool,
    pub playback: PlaybackState,
    pub clock_ms: i64,
    pub loop_config: LoopConfig,
}

impl Shared {
    pub open spec fn wf(self) -> bool {
        self.queues.wf() && self.pool.wf()
    }
}

/// A movie that is open.
#[derive(Debug)]
pub struct OmvPlayerInner {
    pub player: Player,
    pub video_info: OmvVideoInfo,
    pub duration_ms: i64,
}

/// A player, with a movie or without one.
#[derive(Debug)]
pub struct OmvPlayer {
    pub inner: Option<OmvPlayerInner>,
    pub last_error: String,
}

/// What is known of the video stream of a file that could be opened.
#[derive(Clone, Copy, Debug)]
pub struct StreamProbe {
    pub duration_ms: i64,
    pub decoded_width: u32,
    pub decoded_height: u32,
}

/// Why a file could not be opened.
#[derive(Debug)]
pub enum OpenFault {
    /// There is no reader for the container format of this name.
    FormatNotFound(String),
    Input(String),
    NoVideoStream,
    DecoderContext(String),
    Decoder(String),
}

impl OpenFault {
    /// The failure in words.
    pub open spec fn text(self) -> Seq<char> {
        match self {
            OpenFault::FormatNotFound(name) => "ffmpeg input format not found: "@ + name@,
            OpenFault::Input(reason) => "open video input failed: "@ + reason@,
            OpenFault::NoVideoStream => "no video stream found"@,
            OpenFault::DecoderContext(reason) => "create decoder context failed: "@ + reason@,
            OpenFault::Decoder(reason) => "open video decoder failed: "@ + reason@,
        }
    }

    /// The failure in words.
    pub fn message(&self) -> (message: String)
        ensures
            message@ == self.text(),
    {
        match self {
            OpenFault::FormatNotFound(name) => "ffmpeg input format not found: ".to_owned().concat(
                name.as_str(),
            ),
            OpenFault::Input(reason) => "open video input failed: ".to_owned().concat(
                reason.as_str(),
            ),
            OpenFault::NoVideoStream => "no video stream found".to_owned(),
            OpenFault::DecoderContext(reason) => {
                "create decoder context failed: ".to_owned().concat(reason.as_str())
            },
            OpenFault::Decoder(reason) => "open video decoder failed: ".to_owned().concat(
                reason.as_str(),
            ),
        }
    }
}

/// How many rows the decoder has to give for a picture: an alpha picture has a third more.
pub open spec fn rows_needed(info: OmvVideoInfo) -> int {
    if info.format == OmvVideoFormat::Rgba {
        info.display_height + (info.display_height + 2) / 3
    } else {
        info.display_height as int
    }
}

/// What is wrong with the size of the decoded pictures, or `None`.
pub open spec fn size_fault(width: u32, height: u32, info: OmvVideoInfo) -> Option<Seq<char>> {
    if width != info.display_width {
        Some(
            "decoded width mismatch decoded="@ + dec(width as nat) + " display="@ + dec(
                info.display_width as nat,
            ),
        )
    } else if rows_needed(info) > u32::MAX {
        Some("rgba expected decoded height overflow"@)
    } else if height < rows_needed(info) {
        Some(
            "decoded height too small decoded="@ + dec(height as nat) + " expected_at_least="@
                + dec(rows_needed(info) as nat),
        )
    } else {
        None
    }
}

/// Checks the size of the decoded pictures against the header.
pub fn validate_decoder_size(
    decoded_width: u32,
    decoded_height: u32,
    video_info: &OmvVideoInfo,
) -> (r: Result<(), String>)
    ensures
        match r {
            Ok(_) => size_fault(decoded_width, decoded_height, *video_info) is None,
            Err(message) => size_fault(decoded_width, decoded_height, *video_info) == Some(
                message@,
            ),
        },
{
    if decoded_width != video_info.display_width {
        let mut message: String = "decoded width mismatch decoded=".to_owned();
        push_dec(&mut message, decoded_width as u64);
        message.append(" display=");
        push_dec(&mut message, video_info.display_width as u64);
        return Err(message);
    }
    let mut expected_min_height: u64 = video_info.display_height as u64;
    if video_info.format == OmvVideoFormat::Rgba {
        expected_min_height = expected_min_height + (video_info.display_height as u64 + 2) / 3;
        if expected_min_height > u32::MAX as u64 {
            return Err("rgba expected decoded height overflow".to_owned());
        }
    }
    if (decoded_height as u64) < expected_min_height {
        let mut message: String = "decoded height too small decoded=".to_owned();
        push_dec(&mut message, decoded_height as u64);
        message.append(" expected_at_least=");
        push_dec(&mut message, expected_min_height);
        return Err(message);
    }
    Ok(())
}

/// Whether the buffer of a frame can exist on this machine.
pub open spec fn frame_can_exist(info: OmvVideoInfo) -> bool {
    4 * (info.display_width * info.display_height) <= isize::MAX
}

/// Whether the buffer of a frame can exist on this machine.
pub fn frame_fits_machine(info: &OmvVideoInfo) -> (fits: bool)
    ensures
        fits == frame_can_exist(*info),
{
    assert(info.display_width * info.display_height <= 0xFFFF_FFFF * 0xFFFF_FFFF)
        by (nonlinear_arith)
        requires
            info.display_width <= 0xFFFF_FFFF,
            info.display_height <= 0xFFFF_FFFF,
    ;
    let pixels: u64 = info.display_width as u64 * info.display_height as u64;
    pixels <= (isize::MAX as u64) / 4
}

/// What keeps a movie from being opened, or `None`.
pub open spec fn open_fault(info: OmvVideoInfo, probe: Result<StreamProbe, OpenFault>) -> Option<
    Seq<char>,
> {
    match probe {
        Err(fault) => Some(fault.text()),
        Ok(stream) => size_fault(stream.decoded_width, stream.decoded_height, info),
    }
}

impl OmvPlayerInner {
    /// Opens a movie whose header was read and whose stream was probed: it plays from the start,
    /// with nothing queued.
    pub fn open(
        video_info: OmvVideoInfo,
        probe: Result<StreamProbe, OpenFault>,
        loop_enabled: bool,
    ) -> (r: Result<(OmvPlayerInner, Shared), String>)
        requires
            open_fault(video_info, probe) is None ==> frame_can_exist(video_info),
        ensures
            match r {
                Ok((inner, shared)) => {
                    &&& open_fault(video_info, probe) is None
                    &&& inner.video_info == video_info
                    &&& inner.duration_ms == probe->Ok_0.duration_ms
                    &&& inner.player.clock.last_clock_ms is None
                    &&& inner.player.last_frame is None
                    &&& inner.player.display_width == video_info.display_width
                    &&& inner.player.display_height == video_info.display_height
                    &&& shared.wf()
                    &&& shared.queues.current.is_clear()
                    &&& shared.queues.next is None
                    &&& shared.pool.pixel_count == video_info.display_width
                        * video_info.display_height
                    &&& shared.pool.cached().len() == 0
                    &&& shared.playback == PlaybackState::Playing
                    &&& shared.clock_ms == 0
                    &&& shared.loop_config == (LoopConfig {
                        enabled: loop_enabled,
                        head_guard_ms: 100,
                        tail_guard_ms: 100,
                        loop_duration_ms: probe->Ok_0.duration_ms,
                    })
                },
                Err(message) => open_fault(video_info, probe) == Some(message@),
            },
    {
        let stream = match probe {
            Ok(stream) => stream,
            Err(fault) => return Err(fault.message()),
        };
        match validate_decoder_size(stream.decoded_width, stream.decoded_height, &video_info) {
            Ok(()) => {},
            Err(message) => return Err(message),
        }
        let pool = match FramePool::new(
            video_info.display_width as usize,
            video_info.display_height as usize,
        ) {
            Ok(pool) => pool,
            Err(message) => return Err(message),
        };
        let inner = OmvPlayerInner {
            player: Player::new(video_info.display_width, video_info.display_height),
            video_info,
            duration_ms: stream.duration_ms,
        };
        let shared = Shared {
            queues: LoopQueues::new(),
            pool,
            playback: PlaybackState::Playing,
            clock_ms: 0,
            loop_config: LoopConfig::new(loop_enabled, stream.duration_ms),
        };
        Ok((inner, shared))
    }
}

impl OmvPlayer {
    /// A player without a movie.
    pub fn new_boxed() -> (player: Box<OmvPlayer>)
        ensures
            player.inner is None,
            player.last_error@ == Seq::<char>::empty(),
    {
        Box::new(OmvPlayer { inner: None, last_error: String::new() })
    }

    /// Whether a movie may be opened; one that has a movie already remembers the failure.
    pub fn begin_init(&mut self) -> (may_open: bool)
        ensures
            may_open == (old(self).inner is None),
            final(self).inner == old(self).inner,
            final(self).last_error@ == if old(self).inner is Some {
                "player is already initialized"@
            } else {
                old(self).last_error@
            },
    {
        if self.inner.is_some() {
            self.set_last_error("player is already initialized");
            return false;
        }
        true
    }

    /// Takes the movie that was opened, or remembers why it was not.
    pub fn init(&mut self, opened: Result<OmvPlayerInner, String>) -> (done: bool)
        ensures
            match (old(self).inner, opened) {
                (Some(inner), _) => !done && final(self).inner == Some(inner)
                    && final(self).last_error@ == "player is already initialized"@,
                (None, Ok(inner)) => done && final(self).inner == Some(inner)
                    && final(self).last_error@ == ""@,
                (None, Err(message)) => !done && final(self).inner is None
                    && final(self).last_error@ == message@,
            },
    {
        if self.inner.is_some() {
            self.set_last_error("player is already initialized");
            return false;
        }
        match opened {
            Ok(inner) => {
                self.inner = Some(inner);
                self.set_last_error("");
                true
            },
            Err(message) => {
                self.last_error = message;
                false
            },
        }
    }

    /// The size of the picture; nothing without a movie.
    pub fn get_size(&self) -> (size: (u32, u32))
        ensures
            size == match self.inner {
                Some(inner) => (inner.video_info.display_width, inner.video_info.display_height),
                None => (0u32, 0u32),
            },
    {
        match &self.inner {
            Some(inner) => (inner.video_info.display_width, inner.video_info.display_height),
            None => (0, 0),
        }
    }

    /// Whether the clock can be followed to a time.
    pub open spec fn clock_fits(self, time_ms: i64, config: LoopConfig) -> bool {
        self.inner matches Some(inner) ==> inner.player.clock.tail_fits(later(time_ms, 0), config)
    }

    /// Whether the clock can be followed to a time.
    pub fn follows_clock(&self, time_ms: i64, config: &LoopConfig) -> (fits: bool)
        ensures
            fits == self.clock_fits(time_ms, *config),
    {
        match &self.inner {
            Some(inner) => {
                let clock_ms: i64 = if time_ms >= 0 {
                    time_ms
                } else {
                    0
                };
                if inner.player.clock.last_clock_ms.is_some() && config.enabled && clock_ms
                    <= config.head_guard_ms {
                    let tail: i128 = config.loop_duration_ms as i128 - config.tail_guard_ms as i128;
                    i64::MIN as i128 <= tail && tail <= i64::MAX as i128
                } else {
                    true
                }
            },
            None => true,
        }
    }

    /// Whether a new frame is needed.
    pub fn check_need_update(&mut self, time_ms: i64, shared: &mut Shared) -> (check: UpdateCheck)
        requires
            old(shared).wf(),
            old(self).clock_fits(time_ms, old(shared).loop_config),
        ensures
            final(shared).wf(),
            updated(*old(self), *old(shared), *final(self), *final(shared), time_ms, false, check),
    {
        self.check_need_update_at(time_ms, false, shared)
    }

    /// Whether a new frame is needed; never without a movie.
    pub fn check_need_update_at(
        &mut self,
        time_ms: i64,
        update_by_force: bool,
        shared: &mut Shared,
    ) -> (check: UpdateCheck)
        requires
            old(shared).wf(),
            old(self).clock_fits(time_ms, old(shared).loop_config),
        ensures
            final(shared).wf(),
            updated(
                *old(self),
                *old(shared),
                *final(self),
                *final(shared),
                time_ms,
                update_by_force,
                check,
            ),
    {
        match self.inner.take() {
            Some(mut inner) => {
                let check = inner.player.check_need_update_at(
                    time_ms,
                    update_by_force,
                    shared.playback,
                    &shared.loop_config,
                    &mut shared.queues,
                    &mut shared.pool,
                );
                if let Some(chase) = check.chase {
                    shared.clock_ms = chase.clock_ms;
                }
                self.inner = Some(inner);
                check
            },
            None => UpdateCheck { needed: false, chase: None },
        }
    }

    /// Lets the movie end at the end of this pass.
    pub fn end_loop(&self, shared: &mut Shared)
        ensures
            *final(shared) == if self.inner is Some {
                Shared {
                    loop_config: LoopConfig { enabled: false, ..old(shared).loop_config },
                    ..*old(shared)
                }
            } else {
                *old(shared)
            },
    {
        if self.inner.is_some() {
            shared.loop_config.disable();
        }
    }

    /// How long the movie is; nothing without a movie.
    pub fn get_total_time(&self) -> (duration_ms: i64)
        ensures
            duration_ms == match self.inner {
                Some(inner) => inner.duration_ms,
                None => 0i64,
            },
    {
        match &self.inner {
            Some(inner) => inner.duration_ms,
            None => 0,
        }
    }

    /// Starts to fill a buffer. The worker is to see the time and to be told what is to be told
    /// before the buffer is filled. Without a movie, or with an unsound buffer, this fails and is
    /// remembered.
    pub fn begin_fill_at(
        &mut self,
        time_ms: i64,
        has_buffer: bool,
        pitch: i32,
        shared: &mut Shared,
    ) -> (chase: Option<Chase>)
        requires
            old(shared).wf(),
            buffer_fault(has_buffer, pitch) is None ==> old(self).clock_fits(
                time_ms,
                old(shared).loop_config,
            ),
        ensures
            final(shared).wf(),
            final(shared).playback == old(shared).playback,
            final(shared).loop_config == old(shared).loop_config,
            match old(self).inner {
                None => {
                    &&& chase is None
                    &&& final(self).inner is None
                    &&& final(self).last_error@ == "player is not initialized"@
                    &&& *final(shared) == *old(shared)
                },
                Some(inner) => match buffer_fault(has_buffer, pitch) {
                    Some(text) => {
                        &&& chase is None
                        &&& final(self).inner == Some(inner)
                        &&& final(self).last_error@ == text
                        &&& *final(shared) == *old(shared)
                    },
                    None => {
                        &&& chase == Some(
                            Chase {
                                clock_ms: later(time_ms, 0),
                                command: inner.player.command_at(
                                    later(time_ms, 0),
                                    old(shared).loop_config,
                                    old(shared).queues,
                                ),
                            },
                        )
                        &&& final(shared).clock_ms == later(time_ms, 0)
                        &&& final(self).last_error == old(self).last_error
                        &&& final(self).inner matches Some(inner_after) && inner_after.video_info
                            == inner.video_info && inner_after.duration_ms == inner.duration_ms
                            && inner_after.player.chased(
                            final(shared).queues,
                            final(shared).pool,
                            inner.player,
                            old(shared).queues,
                            old(shared).pool,
                            later(time_ms, 0),
                            old(shared).loop_config,
                        )
                    },
                },
            },
    {
        match self.inner.take() {
            Some(mut inner) => {
                let begun = inner.player.begin_fill(
                    time_ms,
                    has_buffer,
                    pitch,
                    &shared.loop_config,
                    &mut shared.queues,
                    &mut shared.pool,
                );
                self.inner = Some(inner);
                match begun {
                    Ok(chase) => {
                        shared.clock_ms = chase.clock_ms;
                        Some(chase)
                    },
                    Err(message) => {
                        self.last_error = message;
                        None
                    },
                }
            },
            None => {
                self.set_last_error("player is not initialized");
                None
            },
        }
    }

    /// Fills a buffer, and remembers what went wrong or that nothing did.
    pub fn fill_buffer_at(
        &mut self,
        time_ms: i64,
        pitch: i32,
        buffer: &mut [u8],
        shared: &mut Shared,
    ) -> (fill: Fill)
        requires
            old(shared).wf(),
            old(self).inner matches Some(inner) ==> inner.player.display_height * pitch <= old(
                buffer,
            )@.len(),
        ensures
            final(shared).wf(),
            final(shared).playback == old(shared).playback,
            final(shared).loop_config == old(shared).loop_config,
            final(shared).clock_ms == old(shared).clock_ms,
            match old(self).inner {
                None => {
                    &&& fill.result matches Err(message) && message@
                        == "player is not initialized"@
                    &&& fill.command is None
                    &&& fill.frame_pts_ms is None
                    &&& fill.frame_duration_ms is None
                    &&& final(self).inner is None
                    &&& final(self).last_error@ == "player is not initialized"@
                    &&& *final(shared) == *old(shared)
                    &&& final(buffer)@ == old(buffer)@
                },
                Some(inner) => {
                    &&& final(self).inner matches Some(inner_after) && inner_after.video_info
                        == inner.video_info && inner_after.duration_ms == inner.duration_ms
                        && inner.player.filled(
                        old(buffer)@,
                        old(shared).queues,
                        old(shared).pool,
                        later(time_ms, 0),
                        pitch,
                        fill,
                        inner_after.player,
                        final(buffer)@,
                        final(shared).queues,
                        final(shared).pool,
                    )
                    &&& match fill.result {
                        Ok(_) => final(self).last_error@ == ""@,
                        Err(message) => final(self).last_error@ == message@,
                    }
                },
            },
    {
        match self.inner.take() {
            Some(mut inner) => {
                let fill = inner.player.fill_buffer(
                    time_ms,
                    pitch,
                    buffer,
                    &mut shared.queues,
                    &mut shared.pool,
                );
                self.inner = Some(inner);
                match &fill.result {
                    Ok(_) => {
                        self.set_last_error("");
                    },
                    Err(message) => {
                        self.last_error = message.clone();
                    },
                }
                fill
            },
            None => {
                self.set_last_error("player is not initialized");
                Fill {
                    result: Err("player is not initialized".to_owned()),
                    command: None,
                    frame_pts_ms: None,
                    frame_duration_ms: None,
                }
            },
        }
    }

    /// Whether the picture has no alpha.
    pub fn is_rgb(&self) -> (rgb: bool)
        ensures
            rgb == (self.inner matches Some(inner) && inner.video_info.format
                == OmvVideoFormat::Rgb),
    {
        match &self.inner {
            Some(inner) => inner.video_info.format == OmvVideoFormat::Rgb,
            None => false,
        }
    }

    /// Whether a movie plays.
    pub fn is_playing(&self, shared: &Shared) -> (playing: bool)
        ensures
            playing == (self.inner is Some && shared.playback == PlaybackState::Playing),
    {
        match &self.inner {
            Some(inner) => inner.player.is_playing(shared.playback),
            None => false,
        }
    }

    /// Goes to a time; without a movie this fails and is remembered.
    pub fn seek(&mut self, target_ms: i64, shared: &mut Shared) -> (command: Option<WorkerCommand>)
        requires
            old(shared).wf(),
        ensures
            final(shared).wf(),
            final(shared).playback == old(shared).playback,
            final(shared).clock_ms == old(shared).clock_ms,
            final(shared).loop_config == old(shared).loop_config,
            match old(self).inner {
                Some(inner) => {
                    &&& command == Some(WorkerCommand::Seek(later(target_ms, 0)))
                    &&& final(self).last_error == old(self).last_error
                    &&& final(self).inner == Some(
                        OmvPlayerInner {
                            player: Player { last_frame: None, ..inner.player },
                            ..inner
                        },
                    )
                    &&& final(shared).queues.current.is_clear()
                    &&& final(shared).queues.next == old(shared).queues.next
                    &&& final(shared).pool.took_back(
                        old(shared).pool,
                        buffer_of(inner.player.last_frame) + crate::movie::frame::buffers_of(
                            old(shared).queues.current.frames.frames@,
                        ),
                    )
                },
                None => {
                    &&& command is None
                    &&& final(self).inner is None
                    &&& final(self).last_error@ == "player is not initialized"@
                    &&& final(shared).queues == old(shared).queues
                    &&& final(shared).pool == old(shared).pool
                },
            },
    {
        match self.inner.take() {
            Some(mut inner) => {
                let command = inner.player.seek(target_ms, &mut shared.queues, &mut shared.pool);
                self.inner = Some(inner);
                Some(command)
            },
            None => {
                self.set_last_error("player is not initialized");
                None
            },
        }
    }

    /// What went wrong last.
    pub fn last_error(&self) -> (error: String)
        ensures
            error@ == self.last_error@,
    {
        self.last_error.clone()
    }

    fn set_last_error(&mut self, error: &str)
        ensures
            final(self).inner == old(self).inner,
            final(self).last_error@ == error@,
    {
        self.last_error = error.to_owned();
    }
}

/// Whether `check` answers whether a new frame is needed, and the player and what it shares are
/// what is then left of them.
pub open spec fn updated(
    player: OmvPlayer,
    shared: Shared,
    player_after: OmvPlayer,
    shared_after: Shared,
    time_ms: i64,
    update_by_force: bool,
    check: UpdateCheck,
) -> bool {
    &&& player_after.last_error == player.last_error
    &&& shared_after.playback == shared.playback
    &&& shared_after.loop_config == shared.loop_config
    &&& match player.inner {
        Some(inner) => {
            &&& player_after.inner matches Some(inner_after) && inner_after.video_info
                == inner.video_info && inner_after.duration_ms == inner.duration_ms
                && inner_after.player.checked(
                check,
                shared_after.queues,
                shared_after.pool,
                inner.player,
                shared.queues,
                shared.pool,
                time_ms,
                update_by_force,
                shared.playback,
                shared.loop_config,
            )
            &&& shared_after.clock_ms == match check.chase {
                Some(chase) => chase.clock_ms,
                None => shared.clock_ms,
            }
        },
        None => {
            &&& check == (UpdateCheck { needed: false, chase: None })
            &&& player_after.inner is None
            &&& shared_after == shared
        },
    }
}

} // verus!

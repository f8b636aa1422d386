use siglus_patch::hook::cstr::ProgramCStr;
use siglus_patch::movie::clock::{ClockEvent, ClockTracker};
use siglus_patch::movie::convert::{
    can_convert, convert_fake_rgb_to_bgra, convert_fake_rgba_to_bgra, convert_frame_pix_fmt,
    convert_yuv444_to_bgra, Plane, VideoFrame,
};
use siglus_patch::movie::decoder::{Decoder, Drain, DrainStep, Received};
use siglus_patch::movie::demuxer::{Demuxer, NextPacket, ReadPacket};
use siglus_patch::movie::exports::{
    spp_movie_player_check_error, spp_movie_player_end_loop, spp_movie_player_get_last_error,
    spp_movie_player_get_size, spp_movie_player_init, spp_movie_player_is_playing,
    spp_movie_player_is_rgb, spp_movie_player_total_time_ms, tstr_str_from_ptr,
};
use siglus_patch::movie::frame::{frame_matches, Frame, FrameQueue};
use siglus_patch::movie::looper::{LoopConfig, LoopQueue, LoopQueues};
use siglus_patch::movie::overlay::{fmt_ms, rgb, ByteTexts, Hotkey, OverlayStats};
use siglus_patch::movie::packet::{Packet, PacketQueue, MAX_PACKET_STATS_LEN};
use siglus_patch::movie::player::{PlaybackState, Player};
use siglus_patch::movie::pool::{FramePool, PooledFrameBuffer, MAX_FRAME_QUEUE_LEN};
use siglus_patch::movie::session::{
    frame_fits_machine, validate_decoder_size, OmvPlayer, OmvPlayerInner, OpenFault, Shared,
    StreamProbe,
};
use siglus_patch::movie::worker::{
    has_room, queue_next_loop_packet, queue_packet, CommandOutcome, IdleReason, PacketAction,
    PreloadTarget, Receive, SeekPurpose, SeekRequest, Worker, WorkerCommand, WorkerState,
    WorkerStep,
};
use siglus_patch::omv::video::{OmvVideoFormat, OmvVideoInfo};

fn frame(pool: &mut FramePool, pts_ms: Option<i64>, fill: u8) -> Frame {
    let mut inner = pool.acquire();
    inner.as_mut_slice().fill(fill);
    Frame { inner, pts_ms, duration_ms: Some(33) }
}

fn packet(pts_ms: Option<i64>) -> Packet {
    Packet::new(100, pts_ms, 33, true)
}

fn looping(enabled: bool) -> LoopConfig {
    LoopConfig::new(enabled, 10_000)
}

#[test]
fn due_frames_are_taken_and_the_latest_is_shown() {
    let mut pool = FramePool::new(1, 1).unwrap();
    let mut queue = FrameQueue::new();
    for (pts, fill) in [(Some(0), 1), (Some(33), 2), (None, 3), (Some(100), 4)] {
        queue.push_back(frame(&mut pool, pts, fill));
    }
    assert_eq!(queue.len(), 4);
    assert_eq!(queue.first_pts_ms(), Some(0));
    assert_eq!(queue.last_pts_ms(), Some(100));
    let shown = queue.pop_frame_for(25, 10, &mut pool).unwrap();
    assert_eq!(shown.pts_ms, Some(33));
    assert_eq!(shown.inner.as_slice(), &[2, 2, 2, 2]);
    assert_eq!(queue.len(), 1);
    assert_eq!(queue.next_pts_ms(), Some(100));
    assert_eq!(pool.cached_buffer_count(), 2);
    assert!(queue.pop_frame_for(89, 10, &mut pool).is_none());
    assert_eq!(queue.len(), 1);
    queue.clear(&mut pool);
    assert_eq!(pool.cached_buffer_count(), 3);
    assert_eq!(queue.stats().cached_bytes, 0);
    assert_eq!(queue.last_pts_ms(), None);
}

#[test]
fn a_queue_is_full_at_its_limit() {
    let mut pool = FramePool::new(1, 1).unwrap();
    let mut queue = FrameQueue::new();
    for i in 0..MAX_FRAME_QUEUE_LEN {
        assert!(!queue.is_full());
        queue.push_back(frame(&mut pool, Some(i as i64), 0));
    }
    assert!(queue.is_full());
}

#[test]
fn a_queue_that_starts_far_ahead_is_trimmed() {
    let mut pool = FramePool::new(1, 1).unwrap();
    let mut queue = FrameQueue::new();
    for pts in [1000, 1033, 1066] {
        queue.push_back(frame(&mut pool, Some(pts), 0));
    }
    queue.trim_to_first_future_frame(500, 500, &mut pool);
    assert_eq!(queue.len(), 3);
    queue.trim_to_first_future_frame(499, 500, &mut pool);
    assert_eq!(queue.len(), 1);
    assert_eq!((queue.first_pts_ms(), queue.last_pts_ms()), (Some(1000), Some(1000)));
    assert_eq!(queue.stats().cached_bytes, 4);
    assert_eq!(pool.cached_buffer_count(), 2);
}

#[test]
fn a_frame_matches_from_before_its_time_to_after_its_end() {
    let mut pool = FramePool::new(1, 1).unwrap();
    let shown = frame(&mut pool, Some(100), 0);
    assert!(!frame_matches(&shown, 89, 10));
    assert!(frame_matches(&shown, 90, 10));
    assert!(frame_matches(&shown, 143, 10));
    assert!(!frame_matches(&shown, 144, 10));
    let untimed = frame(&mut pool, None, 0);
    assert!(!frame_matches(&untimed, 0, 10));
    let mut open_ended = frame(&mut pool, Some(100), 0);
    open_ended.duration_ms = None;
    assert!(frame_matches(&open_ended, 120, 10));
    assert!(!frame_matches(&open_ended, 121, 10));
    open_ended.duration_ms = Some(-5);
    assert!(!frame_matches(&open_ended, 111, 10));
    open_ended.pts_ms = Some(i64::MAX);
    assert!(frame_matches(&open_ended, i64::MAX, 10));
}

#[test]
fn packets_are_remembered_up_to_a_limit() {
    let mut queue = PacketQueue::new();
    for i in 0..MAX_PACKET_STATS_LEN as i64 + 2 {
        queue.push_back(&packet(Some(i)));
    }
    let stats = queue.stats();
    assert_eq!(stats.len, MAX_PACKET_STATS_LEN);
    assert_eq!(stats.cached_bytes, 100 * MAX_PACKET_STATS_LEN);
    assert_eq!(stats.first_pts_ms, Some(2));
    assert_eq!(stats.last_pts_ms, Some(65));
    queue.clear();
    assert_eq!(queue.stats().len, 0);
}

#[test]
fn the_clock_is_followed() {
    let config = looping(true);
    let mut clock = ClockTracker::new();
    assert_eq!(clock.update(500, &config), ClockEvent::FirstSample);
    assert_eq!(clock.update(500, &config), ClockEvent::Advanced);
    assert_eq!(clock.update(9_950, &config), ClockEvent::Advanced);
    assert_eq!(clock.update(50, &config), ClockEvent::Wrapped);
    assert_eq!(clock.update(4_000, &config), ClockEvent::Advanced);
    assert_eq!(clock.update(3_000, &config), ClockEvent::Seeked);
    assert_eq!(clock.update(9_900, &config), ClockEvent::Advanced);
    assert_eq!(clock.update(101, &config), ClockEvent::Seeked);
    let once = looping(false);
    assert_eq!(clock.update(9_990, &once), ClockEvent::Advanced);
    assert_eq!(clock.update(0, &once), ClockEvent::Seeked);
}

#[test]
fn the_queues_switch_to_the_next_pass() {
    let mut pool = FramePool::new(1, 1).unwrap();
    let mut queues = LoopQueues::new();
    queues.current.frames.push_back(frame(&mut pool, Some(1), 0));
    let mut next = LoopQueue::new();
    next.frames.push_back(frame(&mut pool, Some(2), 0));
    queues.next = Some(next);
    assert_eq!(queues.stats().next.unwrap().frames.len, 1);
    queues.switch(&mut pool);
    assert_eq!(queues.current.last_pts_ms(), Some(2));
    assert!(queues.next.is_none());
    assert_eq!(pool.cached_buffer_count(), 1);
    queues.switch(&mut pool);
    assert_eq!(queues.current.frames.len(), 0);
    assert_eq!(queues.stats().current.packets.len, 0);
    assert!(!queues.current.is_full());
}

#[test]
fn the_worker_pauses_and_resumes() {
    let mut pool = FramePool::new(1, 1).unwrap();
    let mut queues = LoopQueues::new();
    let mut playback = PlaybackState::Playing;
    let mut worker = Worker::new();
    let before = worker;
    for command in [WorkerCommand::Pause, WorkerCommand::Pause] {
        let outcome =
            worker.handle_command(command, true, &mut playback, &mut queues, &mut pool);
        assert_eq!(outcome, CommandOutcome::Handled);
    }
    assert_eq!(worker.state, WorkerState::Preload(PreloadTarget::Current));
    assert_eq!(playback, PlaybackState::Paused);
    worker.handle_command(WorkerCommand::Resume, true, &mut playback, &mut queues, &mut pool);
    assert_eq!(worker, before);
    assert_eq!(playback, PlaybackState::Playing);
    let stopped =
        worker.handle_command(WorkerCommand::Shutdown, true, &mut playback, &mut queues, &mut pool);
    assert_eq!(stopped, CommandOutcome::Stop);
}

#[test]
fn requests_to_go_on_combine() {
    let mut pool = FramePool::new(1, 1).unwrap();
    let mut queues = LoopQueues::new();
    let mut playback = PlaybackState::Playing;
    let mut worker = Worker::new();
    for target in [300, 100, 500, -4] {
        worker.handle_command(
            WorkerCommand::Forward(target),
            true,
            &mut playback,
            &mut queues,
            &mut pool,
        );
    }
    assert_eq!(worker.state, WorkerState::Forwarding(500));
    worker.state = WorkerState::Seeking(7);
    worker.handle_command(
        WorkerCommand::Forward(900),
        true,
        &mut playback,
        &mut queues,
        &mut pool,
    );
    assert_eq!(worker.state, WorkerState::Seeking(7));
    worker.state = WorkerState::Playing;
    queues.current.frames.push_back(frame(&mut pool, Some(1000), 0));
    worker.handle_command(
        WorkerCommand::Forward(1000),
        true,
        &mut playback,
        &mut queues,
        &mut pool,
    );
    assert_eq!(worker.state, WorkerState::Playing);
}

#[test]
fn a_seek_decodes_up_to_its_target_without_showing() {
    let mut pool = FramePool::new(1, 1).unwrap();
    let mut queues = LoopQueues::new();
    queues.current.frames.push_back(frame(&mut pool, Some(5), 0));
    let mut playback = PlaybackState::Playing;
    let mut worker = Worker::new();
    let outcome = worker.handle_command(
        WorkerCommand::Seek(-3),
        false,
        &mut playback,
        &mut queues,
        &mut pool,
    );
    let request = SeekRequest { target_ms: 0, purpose: SeekPurpose::Command };
    assert_eq!(outcome, CommandOutcome::Seek(request));
    let request = SeekRequest { target_ms: 400, ..request };
    worker.finish_seek(request, true, &mut queues, &mut pool);
    assert_eq!(worker.state, WorkerState::Seeking(400));
    assert_eq!(queues.current.frames.len(), 0);
    assert_eq!(
        worker.on_packet(Some(packet(Some(399))), false, playback),
        PacketAction::Decode { presentable: false, target: PreloadTarget::Current }
    );
    assert_eq!(
        worker.on_packet(Some(packet(None)), false, playback),
        PacketAction::Decode { presentable: false, target: PreloadTarget::Current }
    );
    assert_eq!(
        worker.on_packet(Some(packet(Some(400))), false, playback),
        PacketAction::Decode { presentable: true, target: PreloadTarget::Current }
    );
    assert_eq!(worker.state, WorkerState::Playing);
    worker.finish_seek(request, false, &mut queues, &mut pool);
    assert_eq!(worker.state, WorkerState::Idle(IdleReason::CurrentReady));
}

#[test]
fn catching_up_drops_packets() {
    let mut worker = Worker { state: WorkerState::Forwarding(400), paused: true };
    assert_eq!(
        worker.on_packet(Some(packet(Some(399))), false, PlaybackState::Paused),
        PacketAction::Step(WorkerStep::Progress)
    );
    assert_eq!(
        worker.on_packet(Some(packet(Some(401))), false, PlaybackState::Paused),
        PacketAction::Decode { presentable: true, target: PreloadTarget::Current }
    );
    assert_eq!(worker.state, WorkerState::Preload(PreloadTarget::Current));
}

#[test]
fn a_loop_loads_its_next_pass_at_the_end() {
    let mut pool = FramePool::new(1, 1).unwrap();
    let mut queues = LoopQueues::new();
    let mut playback = PlaybackState::Playing;
    let mut worker = Worker::new();
    assert_eq!(worker.on_packet(None, true, playback), PacketAction::PreloadNextLoop);
    let request = worker.handle_preload_next_loop(true).unwrap();
    assert_eq!(request, SeekRequest { target_ms: 0, purpose: SeekPurpose::Preload });
    worker.finish_seek(request, true, &mut queues, &mut pool);
    assert_eq!(worker.state, WorkerState::Preload(PreloadTarget::NextLoop));
    let frames = vec![frame(&mut pool, Some(0), 9)];
    assert!(has_room(&queues, PreloadTarget::NextLoop, &packet(Some(0)), &frames));
    assert_eq!(
        queue_next_loop_packet(&mut queues, &packet(Some(0)), Ok(frames)),
        WorkerStep::Progress
    );
    worker.finish_step(WorkerStep::NoWork, &mut playback);
    assert_eq!(worker.state, WorkerState::Idle(IdleReason::NextLoopReady));
    assert_eq!(worker.receive(false), Receive::Wait);
    let outcome =
        worker.handle_command(WorkerCommand::Wrap, true, &mut playback, &mut queues, &mut pool);
    assert_eq!(outcome, CommandOutcome::Handled);
    assert_eq!(worker.state, WorkerState::Playing);
    assert_eq!(queues.current.frames.next_pts_ms(), Some(0));
    let outcome =
        worker.handle_command(WorkerCommand::Wrap, true, &mut playback, &mut queues, &mut pool);
    assert_eq!(
        outcome,
        CommandOutcome::Seek(SeekRequest { target_ms: 0, purpose: SeekPurpose::Wrap })
    );
    assert!(worker.handle_preload_next_loop(false).is_none());
    assert_eq!(worker.state, WorkerState::Idle(IdleReason::Ended));
}

#[test]
fn a_movie_that_does_not_loop_ends() {
    let mut playback = PlaybackState::Playing;
    let mut worker = Worker::new();
    assert_eq!(
        worker.on_packet(None, false, playback),
        PacketAction::Step(WorkerStep::Ended)
    );
    worker.finish_step(WorkerStep::Ended, &mut playback);
    assert_eq!(playback, PlaybackState::Ended);
    assert_eq!(worker.state, WorkerState::Idle(IdleReason::Ended));
    assert_eq!(worker.receive(true), Receive::Stop);
    assert_eq!(Worker::new().receive(false), Receive::Poll);
}

#[test]
fn the_worker_stays_a_little_ahead_of_the_clock() {
    let mut pool = FramePool::new(1, 1).unwrap();
    let mut queues = LoopQueues::new();
    let worker = Worker::new();
    assert!(worker.wants_packet(&queues, 0));
    let frames = vec![frame(&mut pool, Some(751), 0)];
    assert!(has_room(&queues, PreloadTarget::Current, &packet(Some(751)), &frames));
    assert_eq!(
        queue_packet(&mut queues, &packet(Some(751)), Ok(frames)),
        WorkerStep::Progress
    );
    assert!(!worker.wants_packet(&queues, 0));
    assert!(worker.wants_packet(&queues, 1));
    assert_eq!(
        queue_packet(&mut queues, &packet(Some(800)), Err("bad".to_string())),
        WorkerStep::NoWork
    );
    assert_eq!(queues.current.packets.stats().len, 1);
}

#[test]
fn the_demuxer_keeps_to_its_stream() {
    let demuxer = Demuxer::new(1);
    let read = ReadPacket {
        stream_index: 1,
        size: 10,
        pts_ms: Some(5),
        duration_ms: 33,
        is_keyframe: true,
    };
    match demuxer.next_packet(Some(read)) {
        NextPacket::Found(found) => {
            assert_eq!((found.size, found.pts_ms, found.presentable), (10, Some(5), true));
        }
        _ => panic!("the packet was passed over"),
    }
    let read = ReadPacket {
        stream_index: 0,
        size: 10,
        pts_ms: None,
        duration_ms: 0,
        is_keyframe: false,
    };
    assert!(matches!(demuxer.next_packet(Some(read)), NextPacket::ReadOn));
    assert!(matches!(demuxer.next_packet(None), NextPacket::Ended));
    let range = demuxer.seek(40);
    assert_eq!((range.target, range.start, range.end), (40, 0, 41));
}

fn planes<'a>(r: &'a [u8], g: &'a [u8], b: &'a [u8], stride: usize) -> [Plane<'a>; 3] {
    [Plane { data: r, stride }, Plane { data: g, stride }, Plane { data: b, stride }]
}

#[test]
fn rgb_planes_become_opaque_pixels() {
    let picture = VideoFrame {
        width: 2,
        height: 2,
        planes: planes(&[1, 2, 0, 3, 4], &[5, 6, 0, 7, 8], &[9, 10, 0, 11, 12], 3),
        pts_ms: None,
    };
    let buffer = PooledFrameBuffer { bytes: vec![0; 17] };
    let bgra = convert_fake_rgb_to_bgra(&picture, buffer);
    assert_eq!(
        bgra.bytes,
        vec![9, 5, 1, 255, 10, 6, 2, 255, 11, 7, 3, 255, 12, 8, 4, 255, 0]
    );
}

#[test]
fn alpha_comes_from_below_the_planes() {
    // Four rows of one pixel; the alpha of rows 0 and 1 stands below the red plane, that of rows 2
    // and 3 below the green one.
    let r = [10, 11, 12, 13, 100, 101];
    let g = [20, 21, 22, 23, 102, 103];
    let b = [30, 31, 32, 33, 104, 105];
    let picture =
        VideoFrame { width: 1, height: 6, planes: planes(&r, &g, &b, 1), pts_ms: None };
    let mut pool = FramePool::new(1, 4).unwrap();
    assert!(can_convert(&picture, OmvVideoFormat::Rgba, 4, 1, &pool));
    let buffer = pool.acquire();
    let bgra = convert_fake_rgba_to_bgra(&picture, 1, 4, buffer);
    assert_eq!(
        bgra.bytes,
        vec![30, 20, 10, 100, 31, 21, 11, 101, 32, 22, 12, 102, 33, 23, 13, 103]
    );
}

#[test]
fn a_wide_picture_keeps_its_alpha() {
    let width = 67usize;
    let height = 5usize;
    let rows = height + 2;
    let plane = |seed: usize| -> Vec<u8> {
        (0..rows * width).map(|i| (i * 31 + seed) as u8).collect()
    };
    let (r, g, b) = (plane(1), plane(2), plane(3));
    let picture = VideoFrame {
        width: width as u32,
        height: rows as u32,
        planes: planes(&r, &g, &b, width),
        pts_ms: None,
    };
    let mut pool = FramePool::new(width, height).unwrap();
    assert!(can_convert(&picture, OmvVideoFormat::Rgba, height, width, &pool));
    let bgra =
        convert_frame_pix_fmt(&picture, OmvVideoFormat::Rgba, height, width, &mut pool).unwrap();
    for y in 0..height {
        for x in 0..width {
            let alpha_plane = [&r, &g, &b][y / 2];
            let alpha = alpha_plane[(height + y % 2) * width + x];
            let at = 4 * (y * width + x);
            assert_eq!(
                bgra.bytes[at..at + 4],
                [b[y * width + x], g[y * width + x], r[y * width + x], alpha]
            );
        }
    }
}

#[test]
fn yuv_is_converted_in_limited_range() {
    let (y, u, v) = ([16u8, 235], [128u8, 128], [128u8, 128]);
    let picture = VideoFrame { width: 2, height: 1, planes: planes(&y, &u, &v, 2), pts_ms: None };
    let bgra = convert_yuv444_to_bgra(&picture, PooledFrameBuffer { bytes: vec![7; 9] });
    assert_eq!(bgra.bytes.len(), 9);
    assert_eq!(bgra.bytes[..4], [0, 0, 0, 255]);
    for i in 4..7 {
        assert!(bgra.bytes[i] >= 254);
    }
    assert_eq!(bgra.bytes[7..], [255, 7]);
    let unsound =
        VideoFrame { width: 2, height: 1, planes: planes(&y[..1], &u, &v, 2), pts_ms: None };
    let kept = convert_yuv444_to_bgra(&unsound, PooledFrameBuffer { bytes: vec![7; 8] });
    assert_eq!(kept.bytes, vec![7; 8]);
}

#[test]
fn pictures_of_an_unknown_kind_are_refused() {
    let data = [0u8; 4];
    let picture =
        VideoFrame { width: 1, height: 1, planes: planes(&data, &data, &data, 1), pts_ms: None };
    let mut pool = FramePool::new(1, 1).unwrap();
    let refused = convert_frame_pix_fmt(&picture, OmvVideoFormat::Unknown, 1, 1, &mut pool);
    assert_eq!(refused.unwrap_err(), "Unknown real source pixel format");
    assert_eq!(pool.cached_buffer_count(), 1);
    assert!(!can_convert(&picture, OmvVideoFormat::Rgba, 1, 1, &pool));
}

fn info(format: OmvVideoFormat) -> OmvVideoInfo {
    OmvVideoInfo { format, display_width: 1, display_height: 1, payload_offset: 168 }
}

#[test]
fn the_decoder_is_drained() {
    let decoder = Decoder::new(info(OmvVideoFormat::Rgb));
    let mut pool = FramePool::new(1, 1).unwrap();
    assert_eq!(
        decoder.decode_packet(Err("no".to_string()), true).unwrap_err(),
        "send packet to decoder failed: no"
    );
    let mut drain: Drain = decoder.decode_packet(Ok(()), true).unwrap();
    let picture = VideoFrame {
        width: 1,
        height: 1,
        planes: planes(&[1], &[2], &[3], 1),
        pts_ms: Some(40),
    };
    let step = decoder.drain_frames(&mut drain, Received::Picture(picture), &mut pool);
    assert!(matches!(step, DrainStep::Continue));
    assert_eq!(drain.frames[0].pts_ms, Some(40));
    assert_eq!(drain.frames[0].duration_ms, None);
    assert_eq!(drain.frames[0].inner.bytes, vec![3, 2, 1, 255]);
    assert!(matches!(
        decoder.drain_frames(&mut drain, Received::Again, &mut pool),
        DrainStep::Done
    ));
    assert!(matches!(
        decoder.drain_frames(&mut drain, Received::Eof, &mut pool),
        DrainStep::Done
    ));
    match decoder.drain_frames(&mut drain, Received::Failed("eh".to_string()), &mut pool) {
        DrainStep::Failed(message) => {
            assert_eq!(message, "receive frame from decoder failed: eh");
        }
        _ => panic!("the failure was passed over"),
    }
    assert_eq!(drain.frames.len(), 0);
    assert_eq!(pool.cached_buffer_count(), 1);
    let mut hidden = decoder.decode_packet(Ok(()), false).unwrap();
    decoder.drain_frames(&mut hidden, Received::Picture(picture), &mut pool);
    assert_eq!(hidden.frames.len(), 0);
}

fn open_player(format: OmvVideoFormat) -> (OmvPlayer, Shared) {
    let probe = StreamProbe { duration_ms: 10_000, decoded_width: 1, decoded_height: 2 };
    let (inner, shared) = OmvPlayerInner::open(info(format), Ok(probe), true).unwrap();
    let mut player = *OmvPlayer::new_boxed();
    assert!(player.begin_init());
    assert!(player.init(Ok(inner)));
    (player, shared)
}

#[test]
fn a_player_without_a_movie_refuses() {
    let mut player = *OmvPlayer::new_boxed();
    let (_, mut shared) = open_player(OmvVideoFormat::Rgb);
    assert_eq!(player.get_size(), (0, 0));
    assert_eq!(player.get_total_time(), 0);
    assert!(!player.is_rgb());
    assert!(!player.is_playing(&shared));
    assert!(!player.check_need_update(5, &mut shared).needed);
    assert!(player.seek(5, &mut shared).is_none());
    assert_eq!(player.last_error(), "player is not initialized");
    assert!(player.begin_fill_at(5, true, 4, &mut shared).is_none());
    let mut buffer = [9u8; 4];
    let fill = player.fill_buffer_at(5, 4, &mut buffer, &mut shared);
    assert_eq!(fill.result.unwrap_err(), "player is not initialized");
    assert_eq!(buffer, [9; 4]);
    assert!(!player.init(Err("no video stream found".to_string())));
    assert_eq!(player.last_error(), "no video stream found");
}

#[test]
fn a_movie_is_opened_once() {
    let (mut player, shared) = open_player(OmvVideoFormat::Rgb);
    assert_eq!(player.get_size(), (1, 1));
    assert_eq!(player.get_total_time(), 10_000);
    assert!(player.is_rgb());
    assert!(player.is_playing(&shared));
    assert_eq!(player.last_error(), "");
    assert!(!player.begin_init());
    assert_eq!(player.last_error(), "player is already initialized");
}

#[test]
fn faults_keep_a_movie_from_being_opened() {
    for (fault, text) in [
        (
            OpenFault::FormatNotFound("ogg".to_string()),
            "ffmpeg input format not found: ogg",
        ),
        (OpenFault::Input("x".to_string()), "open video input failed: x"),
        (OpenFault::NoVideoStream, "no video stream found"),
        (OpenFault::DecoderContext("x".to_string()), "create decoder context failed: x"),
        (OpenFault::Decoder("x".to_string()), "open video decoder failed: x"),
    ] {
        let opened = OmvPlayerInner::open(info(OmvVideoFormat::Rgb), Err(fault), false);
        assert_eq!(opened.unwrap_err(), text);
    }
}

#[test]
fn the_decoded_size_is_checked() {
    let alpha = OmvVideoInfo {
        format: OmvVideoFormat::Rgba,
        display_width: 10,
        display_height: 7,
        payload_offset: 0,
    };
    assert!(validate_decoder_size(10, 10, &alpha).is_ok());
    assert_eq!(
        validate_decoder_size(10, 9, &alpha).unwrap_err(),
        "decoded height too small decoded=9 expected_at_least=10"
    );
    assert_eq!(
        validate_decoder_size(11, 10, &alpha).unwrap_err(),
        "decoded width mismatch decoded=11 display=10"
    );
    let tall = OmvVideoInfo { display_height: u32::MAX, ..alpha };
    assert_eq!(
        validate_decoder_size(10, 10, &tall).unwrap_err(),
        "rgba expected decoded height overflow"
    );
    let opaque = OmvVideoInfo { format: OmvVideoFormat::Yuv, ..alpha };
    assert!(validate_decoder_size(10, 7, &opaque).is_ok());
    assert!(frame_fits_machine(&opaque));
}

#[test]
fn a_buffer_is_filled_with_the_frame_for_its_time() {
    let (mut player, mut shared) = open_player(OmvVideoFormat::Rgb);
    let first = frame(&mut shared.pool, Some(0), 1);
    let second = frame(&mut shared.pool, Some(33), 2);
    shared.queues.current.frames.push_back(first);
    shared.queues.current.frames.push_back(second);
    assert!(player.follows_clock(0, &shared.loop_config));
    let chase = player.begin_fill_at(-5, true, 6, &mut shared).unwrap();
    assert_eq!(chase.clock_ms, 0);
    assert_eq!(chase.command, Some(WorkerCommand::Forward(0)));
    let mut buffer = [9u8; 6];
    let fill = player.fill_buffer_at(0, 6, &mut buffer, &mut shared);
    assert_eq!(fill.result, Ok(true));
    assert_eq!(fill.frame_pts_ms, Some(0));
    assert_eq!(buffer, [1, 1, 1, 1, 9, 9]);
    assert!(!player.check_need_update(40, &mut shared).needed);
    assert!(player.check_need_update_at(40, true, &mut shared).needed);
    assert!(player.check_need_update(60, &mut shared).needed);
    let fill = player.fill_buffer_at(60, 6, &mut buffer, &mut shared);
    assert_eq!(fill.frame_pts_ms, Some(33));
    assert_eq!(buffer[..4], [2, 2, 2, 2]);
    let fill = player.fill_buffer_at(70, 6, &mut buffer, &mut shared);
    assert_eq!(fill.result, Ok(true));
    assert_eq!(fill.frame_pts_ms, Some(33));
}

#[test]
fn a_buffer_without_a_frame_is_blank() {
    let (mut player, mut shared) = open_player(OmvVideoFormat::Rgb);
    let mut buffer = [9u8; 6];
    let fill = player.fill_buffer_at(0, 5, &mut buffer, &mut shared);
    assert_eq!(fill.result, Ok(false));
    assert_eq!(buffer, [0, 0, 0, 0, 0, 9]);
    assert_eq!(player.last_error(), "");
    assert!(player.begin_fill_at(0, false, 4, &mut shared).is_none());
    assert_eq!(player.last_error(), "buffer is null");
    assert!(player.begin_fill_at(0, true, 0, &mut shared).is_none());
    assert_eq!(player.last_error(), "invalid pitch=0");
    let queued = frame(&mut shared.pool, Some(0), 1);
    shared.queues.current.frames.push_back(queued);
    let fill = player.fill_buffer_at(0, -6, &mut buffer, &mut shared);
    assert_eq!(fill.result.unwrap_err(), "invalid pitch=-6");
    assert_eq!(player.last_error(), "invalid pitch=-6");
    assert_eq!(shared.queues.current.frames.len(), 1);
    assert_eq!(buffer, [0, 0, 0, 0, 0, 9]);
    let fill = player.fill_buffer_at(0, 3, &mut buffer, &mut shared);
    assert_eq!(fill.result.unwrap_err(), "pitch too small pitch=3 row_bytes=4");
    assert_eq!(player.last_error(), "pitch too small pitch=3 row_bytes=4");
}

#[test]
fn a_queue_far_ahead_sends_the_worker_back() {
    let (mut player, mut shared) = open_player(OmvVideoFormat::Rgb);
    let queued = frame(&mut shared.pool, Some(2_000), 1);
    shared.queues.current.frames.push_back(queued);
    let mut buffer = [9u8; 4];
    let fill = player.fill_buffer_at(100, 4, &mut buffer, &mut shared);
    assert_eq!(fill.command, Some(WorkerCommand::Seek(100)));
    assert_eq!(shared.queues.current.frames.len(), 0);
}

#[test]
fn jumping_back_forgets_what_is_queued() {
    let (mut player, mut shared) = open_player(OmvVideoFormat::Rgb);
    player.check_need_update(5_000, &mut shared);
    let queued = frame(&mut shared.pool, Some(5_000), 1);
    shared.queues.current.frames.push_back(queued);
    let check = player.check_need_update(1_000, &mut shared);
    assert_eq!(check.chase.unwrap().command, Some(WorkerCommand::Seek(1_000)));
    assert_eq!(shared.queues.current.frames.len(), 0);
    player.check_need_update(9_950, &mut shared);
    let check = player.check_need_update(10, &mut shared);
    assert_eq!(check.chase.unwrap().command, Some(WorkerCommand::Wrap));
    shared.playback = PlaybackState::Paused;
    let check = player.check_need_update(20, &mut shared);
    assert!(!check.needed && check.chase.is_none());
    assert_eq!(player.seek(-1, &mut shared), Some(WorkerCommand::Seek(0)));
    let bare = Player::new(1, 1);
    assert_eq!((bare.play(), bare.pause()), (WorkerCommand::Resume, WorkerCommand::Pause));
}

#[test]
fn the_engine_asks_the_player() {
    let (player, mut shared) = open_player(OmvVideoFormat::Rgba);
    assert_eq!(spp_movie_player_check_error(), 1);
    assert_eq!(spp_movie_player_is_rgb(Some(&player)), 1);
    assert_eq!(spp_movie_player_is_rgb(None), 0);
    assert_eq!(spp_movie_player_is_rgb(Some(&open_player(OmvVideoFormat::Rgb).0)), 0);
    assert_eq!(spp_movie_player_total_time_ms(Some(&player)), 10_000);
    assert_eq!(spp_movie_player_total_time_ms(None), 0);
    assert_eq!(spp_movie_player_get_size(true, true, Some(&player)), Ok((1, 1)));
    assert_eq!(
        spp_movie_player_get_size(true, false, None),
        Err("size output pointer is null".to_string())
    );
    assert_eq!(
        spp_movie_player_get_size(true, true, None),
        Err("player is null".to_string())
    );
    assert!(spp_movie_player_is_playing(Some(&player), &shared));
    assert!(!spp_movie_player_is_playing(None, &shared));
    spp_movie_player_end_loop(None, &mut shared);
    assert!(shared.loop_config.enabled);
    spp_movie_player_end_loop(Some(&player), &mut shared);
    assert!(!shared.loop_config.enabled);
}

#[test]
fn long_movies_keep_the_low_bits_of_their_length() {
    let probe = StreamProbe { duration_ms: 0x1_8000_0000, decoded_width: 1, decoded_height: 1 };
    let (inner, _) = OmvPlayerInner::open(info(OmvVideoFormat::Rgb), Ok(probe), false).unwrap();
    let mut player = *OmvPlayer::new_boxed();
    player.init(Ok(inner));
    assert_eq!(spp_movie_player_total_time_ms(Some(&player)), i32::MIN);
}

#[test]
fn the_engine_hands_over_paths_and_takes_errors() {
    let path = ProgramCStr::new("movie.omv").unwrap();
    assert_eq!(tstr_str_from_ptr(Some(&path)), Ok("movie.omv".to_string()));
    assert_eq!(tstr_str_from_ptr(None), Err("path is null".to_string()));
    let lost = ProgramCStr { fields: [0, 0, 0, 0, 9, 9], heap: None };
    assert_eq!(tstr_str_from_ptr(Some(&lost)), Err("path heap is null".to_string()));
    let request = spp_movie_player_init(true, Some(&path), 2).unwrap();
    assert_eq!((request.path.as_str(), request.loop_enabled), ("movie.omv", true));
    assert!(!spp_movie_player_init(true, Some(&path), 0).unwrap().loop_enabled);
    assert!(spp_movie_player_init(false, Some(&path), 1).is_none());
    assert!(spp_movie_player_init(true, None, 1).is_none());
    let mut player = *OmvPlayer::new_boxed();
    player.init(Err("Ä!".to_string()));
    let error = spp_movie_player_get_last_error(true, Some(&player)).unwrap().unwrap();
    assert_eq!((error.units, error.len), (vec![0xC4, 0x21, 0], 2));
    assert!(spp_movie_player_get_last_error(false, Some(&player)).unwrap().is_none());
    assert!(spp_movie_player_get_last_error(true, None).unwrap().is_none());
}

#[test]
fn the_overlay_is_written_out() {
    let (_, mut shared) = open_player(OmvVideoFormat::Rgb);
    let queued = frame(&mut shared.pool, Some(33), 0);
    shared.queues.current.frames.push_back(queued);
    let bytes = ByteTexts { frames: "4B".to_string(), packets: "0B".to_string() };
    let mut stats = OverlayStats {
        target_ms: 10,
        playback_state: PlaybackState::Playing,
        frame_pts_ms: Some(-3),
        frame_duration_ms: None,
        loop_enabled: true,
        loop_duration_ms: 500,
        pitch: 16,
        queues: Some(shared.queues.stats()),
    };
    assert_eq!(
        stats.to_text(&bytes, &bytes),
        "OMV debug\r\nstate=Playing target=10ms frame=-3ms dur=-\r\nloop=on duration=500ms pitch=16\r\ncur frames=1 4B next=33ms range=33ms..33ms\r\ncur packets=0 0B range=-..-\r\nnext: none"
    );
    stats.queues = None;
    assert!(stats.to_text(&bytes, &bytes).ends_with("\r\nqueues: locked"));
    assert_eq!(fmt_ms(None), "-");
    assert_eq!(rgb(1, 2, 3), 0x030201);
}

#[test]
fn the_hotkey_toggles_once_per_press() {
    let mut hotkey = Hotkey::new();
    assert!(!hotkey.update_hotkey(true, false));
    assert!(hotkey.update_hotkey(true, true));
    assert!(hotkey.visible);
    assert!(!hotkey.update_hotkey(true, true));
    assert!(!hotkey.update_hotkey(false, true));
    assert!(hotkey.update_hotkey(true, true));
    assert!(!hotkey.visible);
}

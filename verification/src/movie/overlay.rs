//! The lines of the window that shows what a player is doing.

use vstd::prelude::*;

use crate::movie::looper::{LoopQueueStats, LoopQueuesStats};
use crate::movie::player::PlaybackState;
use crate::text::{dec, push_dec, push_signed, signed_dec};

verus! {

/// What is shown of a player.
#[derive(Clone, Copy, Debug)]
pub struct OverlayStats {
    pub target_ms: i64,
    pub playback_state: PlaybackState,
    pub frame_pts_ms: Option<i64>,
    pub frame_duration_ms: Option<i64>,
    pub loop_enabled: bool,
    pub loop_duration_ms: i64,
    pub pitch: usize,
    pub queues: Option<LoopQueuesStats>,
}

/// How many bytes the frames and the packets of a pass take, in words.
#[derive(Debug)]
pub struct ByteTexts {
    pub frames: String,
    pub packets: String,
}

/// Whether the window is shown, and whether its keys were down the last time they were looked at.
#[derive(Clone, Copy, Debug)]
pub struct Hotkey {
    pub visible: bool,
    pub was_down: bool,
}

/// A time in words.
pub open spec fn ms_text(value: Option<i64>) -> Seq<char> {
    match value {
        Some(value) => signed_dec(value as int) + "ms"@,
        None => "-"@,
    }
}

/// The line on the frames of a pass.
pub open spec fn frames_line(label: Seq<char>, stats: LoopQueueStats, bytes: Seq<char>) -> Seq<
    char,
> {
    label + " frames="@ + dec(stats.frames.len as nat) + " "@ + bytes + " next="@ + ms_text(
        stats.frames.next_pts_ms,
    ) + " range="@ + ms_text(stats.frames.first_pts_ms) + ".."@ + ms_text(stats.frames.last_pts_ms)
}

/// The line on the packets of a pass.
pub open spec fn packets_line(label: Seq<char>, stats: LoopQueueStats, bytes: Seq<char>) -> Seq<
    char,
> {
    label + " packets="@ + dec(stats.packets.len as nat) + " "@ + bytes + " range="@ + ms_text(
        stats.packets.first_pts_ms,
    ) + ".."@ + ms_text(stats.packets.last_pts_ms)
}

/// Two lines on the queues of a pass, each behind a line break.
pub open spec fn queue_lines(label: Seq<char>, stats: LoopQueueStats, bytes: ByteTexts) -> Seq<
    char,
> {
    "\r\n"@ + frames_line(label, stats, bytes.frames@) + "\r\n"@ + packets_line(
        label,
        stats,
        bytes.packets@,
    )
}

/// A time in words.
pub fn fmt_ms(value: Option<i64>) -> (text: String)
    ensures
        text@ == ms_text(value),
{
    match value {
        Some(value) => {
            let mut text: String = String::new();
            push_signed(&mut text, value);
            text.append("ms");
            assert(text@ =~= ms_text(Some(value)));
            text
        },
        None => "-".to_owned(),
    }
}

/// Appends two lines on the queues of a pass, each behind a line break.
pub fn push_queue_lines(out: &mut String, label: &str, stats: &LoopQueueStats, bytes: &ByteTexts)
    ensures
        final(out)@ == old(out)@ + queue_lines(label@, *stats, *bytes),
{
    let mut frames: String = label.to_owned();
    frames.append(" frames=");
    push_dec(&mut frames, stats.frames.len as u64);
    frames.append(" ");
    frames.append(bytes.frames.as_str());
    frames.append(" next=");
    frames.append(fmt_ms(stats.frames.next_pts_ms).as_str());
    frames.append(" range=");
    frames.append(fmt_ms(stats.frames.first_pts_ms).as_str());
    frames.append("..");
    frames.append(fmt_ms(stats.frames.last_pts_ms).as_str());
    let mut packets: String = label.to_owned();
    packets.append(" packets=");
    push_dec(&mut packets, stats.packets.len as u64);
    packets.append(" ");
    packets.append(bytes.packets.as_str());
    packets.append(" range=");
    packets.append(fmt_ms(stats.packets.first_pts_ms).as_str());
    packets.append("..");
    packets.append(fmt_ms(stats.packets.last_pts_ms).as_str());
    let mut lines: String = "\r\n".to_owned();
    lines.append(frames.as_str());
    lines.append("\r\n");
    lines.append(packets.as_str());
    out.append(lines.as_str());
}

impl OverlayStats {
    /// The line on what is shown.
    pub open spec fn state_line(self) -> Seq<char> {
        "state="@ + self.playback_state.text() + " target="@ + ms_text(Some(self.target_ms))
            + " frame="@ + ms_text(self.frame_pts_ms) + " dur="@ + ms_text(self.frame_duration_ms)
    }

    /// The line on the loop.
    pub open spec fn loop_line(self) -> Seq<char> {
        "loop="@ + (if self.loop_enabled {
            "on"@
        } else {
            "off"@
        }) + " duration="@ + ms_text(Some(self.loop_duration_ms)) + " pitch="@ + dec(
            self.pitch as nat,
        )
    }

    /// The lines on the player itself.
    pub open spec fn player_lines(self) -> Seq<char> {
        "OMV debug"@ + "\r\n"@ + self.state_line() + "\r\n"@ + self.loop_line()
    }

    /// All lines.
    pub open spec fn lines(self, current: ByteTexts, next: ByteTexts) -> Seq<char> {
        self.player_lines() + match self.queues {
            Some(queues) => queue_lines("cur"@, queues.current, current) + match queues.next {
                Some(stats) => queue_lines("next"@, stats, next),
                None => "\r\nnext: none"@,
            },
            None => "\r\nqueues: locked"@,
        }
    }

    fn state_line_text(&self) -> (line: String)
        ensures
            line@ == self.state_line(),
    {
        let mut line: String = "state=".to_owned();
        line.append(self.playback_state.as_str());
        line.append(" target=");
        line.append(fmt_ms(Some(self.target_ms)).as_str());
        line.append(" frame=");
        line.append(fmt_ms(self.frame_pts_ms).as_str());
        line.append(" dur=");
        line.append(fmt_ms(self.frame_duration_ms).as_str());
        line
    }

    fn loop_line_text(&self) -> (line: String)
        ensures
            line@ == self.loop_line(),
    {
        let mut line: String = "loop=".to_owned();
        if self.loop_enabled {
            line.append("on");
        } else {
            line.append("off");
        }
        line.append(" duration=");
        line.append(fmt_ms(Some(self.loop_duration_ms)).as_str());
        line.append(" pitch=");
        push_dec(&mut line, self.pitch as u64);
        line
    }

    /// The text of the window; the sizes of the queues come in words.
    pub fn to_text(&self, current: &ByteTexts, next: &ByteTexts) -> (text: String)
        ensures
            text@ == self.lines(*current, *next),
            self.queues matches Some(queues) ==> (queues.next matches Some(stats) ==> text@
                == self.player_lines() + (queue_lines("cur"@, queues.current, *current)
                + queue_lines("next"@, stats, *next))),
    {
        let mut text: String = "OMV debug".to_owned();
        text.append("\r\n");
        text.append(self.state_line_text().as_str());
        text.append("\r\n");
        text.append(self.loop_line_text().as_str());
        match &self.queues {
            Some(queues) => {
                push_queue_lines(&mut text, "cur", &queues.current, current);
                match &queues.next {
                    Some(stats) => {
                        push_queue_lines(&mut text, "next", stats, next);
                    },
                    None => {
                        text.append("\r\nnext: none");
                    },
                }
            },
            None => {
                text.append("\r\nqueues: locked");
            },
        }
        assert(text@ =~= self.lines(*current, *next));
        text
    }
}

impl Hotkey {
    /// A window that is not shown.
    pub fn new() -> (hotkey: Hotkey)
        ensures
            !hotkey.visible,
            !hotkey.was_down,
    {
        Hotkey { visible: false, was_down: false }
    }

    /// Looks at the keys: pressing both of them shows the window or hides it. Says whether that
    /// changed.
    pub fn update_hotkey(&mut self, alt_down: bool, x_down: bool) -> (changed: bool)
        ensures
            changed == (alt_down && x_down && !old(self).was_down),
            final(self).was_down == (alt_down && x_down),
            final(self).visible == if changed {
                !old(self).visible
            } else {
                old(self).visible
            },
    {
        let hotkey_down = alt_down && x_down;
        let was_down = self.was_down;
        self.was_down = hotkey_down;
        if hotkey_down && !was_down {
            self.visible = !self.visible;
            true
        } else {
            false
        }
    }
}

/// A colour as Windows takes it: red in the low byte, then green, then blue.
pub fn rgb(red: u8, green: u8, blue: u8) -> (colour: u32)
    ensures
        colour == red + 0x100 * green + 0x1_0000 * blue,
{
    red as u32 + 0x100 * green as u32 + 0x1_0000 * blue as u32
}

} // verus!

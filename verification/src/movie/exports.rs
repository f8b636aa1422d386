//! What the engine calls in place of its own movie player. A missing player stands for a null
//! pointer.

use vstd::prelude::*;

use crate::hook::cstr::{read_cstr_plain, ProgramCStr};
use crate::movie::looper::LoopConfig;
use crate::movie::player::PlaybackState;
use crate::movie::session::{OmvPlayer, Shared};
use crate::omv::video::OmvVideoFormat;
use crate::wide::{decoded, encode_utf16, encoded};

verus! {

/// The text of a path that the engine hands over.
pub fn tstr_str_from_ptr(value: Option<&ProgramCStr>) -> (text: Result<String, String>)
    requires
        value matches Some(cstr) ==> cstr.wf(),
    ensures
        match value {
            Some(cstr) => match cstr.units() {
                Some(units) => text matches Ok(text) && text@ == decoded(units),
                None => text matches Err(message) && message@ == "path heap is null"@,
            },
            None => text matches Err(message) && message@ == "path is null"@,
        },
{
    if value.is_none() {
        return Err("path is null".to_owned());
    }
    match read_cstr_plain(value) {
        Some(text) => Ok(text),
        None => Err("path heap is null".to_owned()),
    }
}

/// What a movie is opened from.
#[derive(Debug)]
pub struct InitRequest {
    pub path: String,
    pub loop_enabled: bool,
}

/// What to open; `None` where nothing can be and the engine is told that it failed.
pub fn spp_movie_player_init(
    has_player: bool,
    path: Option<&ProgramCStr>,
    loop_enabled: i32,
) -> (request: Option<InitRequest>)
    requires
        path matches Some(cstr) ==> cstr.wf(),
    ensures
        match request {
            Some(request) => {
                &&& has_player
                &&& path matches Some(cstr)
                &&& cstr.units() matches Some(units)
                &&& request.path@ == decoded(units)
                &&& request.loop_enabled == (loop_enabled != 0)
            },
            None => !has_player || path is None || path->0.units() is None,
        },
{
    if !has_player {
        return None;
    }
    match tstr_str_from_ptr(path) {
        Ok(path) => Some(InitRequest { path, loop_enabled: loop_enabled != 0 }),
        Err(_) => None,
    }
}

/// The last error as the engine takes it: its code units with a zero behind them, and how many
/// they are without it.
#[derive(Debug)]
pub struct WideError {
    pub units: Vec<u16>,
    pub len: u32,
}

/// The last error for the engine; `Ok(None)` where there is no player to ask, or no string to put
/// the error in.
pub fn spp_movie_player_get_last_error(
    has_out: bool,
    player: Option<&OmvPlayer>,
) -> (error: Result<Option<WideError>, String>)
    ensures
        match player {
            Some(player) if has_out => {
                let units = encoded(player.last_error@);
                if units.len() <= u32::MAX {
                    error matches Ok(Some(error)) && error.units@ == units.push(0) && error.len
                        == units.len()
                } else {
                    error matches Err(message) && message@ == "last error string is too long"@
                }
            },
            _ => error matches Ok(None),
        },
{
    if !has_out {
        return Ok(None);
    }
    match player {
        Some(player) => {
            let mut units = encode_utf16(player.last_error().as_str());
            if units.len() as u64 > u32::MAX as u64 {
                return Err("last error string is too long".to_owned());
            }
            let len: u32 = units.len() as u32;
            units.push(0);
            Ok(Some(WideError { units, len }))
        },
        None => Ok(None),
    }
}

/// The engine is always told that there is no error.
pub fn spp_movie_player_check_error() -> (code: i32)
    ensures
        code == 1,
{
    1
}

/// Lets the movie end at the end of this pass.
pub fn spp_movie_player_end_loop(player: Option<&OmvPlayer>, shared: &mut Shared)
    ensures
        *final(shared) == match player {
            Some(player) if player.inner is Some => (Shared {
                loop_config: LoopConfig { enabled: false, ..old(shared).loop_config },
                ..*old(shared)
            }),
            _ => *old(shared),
        },
{
    match player {
        Some(player) => player.end_loop(shared),
        None => {},
    }
}

/// Whether a movie plays.
pub fn spp_movie_player_is_playing(player: Option<&OmvPlayer>, shared: &Shared) -> (playing: bool)
    ensures
        playing == (player matches Some(player) && player.inner is Some && shared.playback
            == PlaybackState::Playing),
{
    match player {
        Some(player) => player.is_playing(shared),
        None => false,
    }
}

/// How long the movie is, in the low 32 bits.
pub fn spp_movie_player_total_time_ms(player: Option<&OmvPlayer>) -> (time_ms: i32)
    ensures
        time_ms == match player {
            Some(player) => match player.inner {
                Some(inner) => inner.duration_ms as i32,
                None => 0i32,
            },
            None => 0i32,
        },
{
    match player {
        Some(player) => {
            let time_ms: i64 = player.get_total_time();
            time_ms as i32
        },
        None => 0,
    }
}

/// The size of the picture, where there is a player to ask and a place to put it.
pub fn spp_movie_player_get_size(
    has_width: bool,
    has_height: bool,
    player: Option<&OmvPlayer>,
) -> (size: Result<(u32, u32), String>)
    ensures
        if !has_width || !has_height {
            size matches Err(message) && message@ == "size output pointer is null"@
        } else {
            match player {
                Some(player) => size == Ok::<(u32, u32), String>(
                    match player.inner {
                        Some(inner) => (
                            inner.video_info.display_width,
                            inner.video_info.display_height,
                        ),
                        None => (0u32, 0u32),
                    },
                ),
                None => size matches Err(message) && message@ == "player is null"@,
            }
        },
{
    if !has_width || !has_height {
        return Err("size output pointer is null".to_owned());
    }
    match player {
        Some(player) => Ok(player.get_size()),
        None => Err("player is null".to_owned()),
    }
}

/// Zero for a picture without alpha or without a player, one otherwise.
pub fn spp_movie_player_is_rgb(player: Option<&OmvPlayer>) -> (code: i32)
    ensures
        code == match player {
            Some(player) => if player.inner matches Some(inner) && inner.video_info.format
                == OmvVideoFormat::Rgb {
                0i32
            } else {
                1i32
            },
            None => 0i32,
        },
{
    match player {
        Some(player) => if player.is_rgb() {
            0
        } else {
            1
        },
        None => 0,
    }
}

} // verus!

//! Collecting the frames that a decoder makes of a packet.

use vstd::prelude::*;

use crate::movie::convert::{
    alpha_pixels, convert_frame_pix_fmt, converted, convertible, frame_fits, opaque_pixels, painted,
    VideoFrame,
};
use crate::movie::frame::{buffers_of, Frame};
use crate::movie::pool::{lemma_released_in_turn, released_all, FramePool};
use crate::omv::video::{OmvVideoFormat, OmvVideoInfo};

verus! {

/// Makes frames of the pictures of a movie.
#[derive(Clone, Copy, Debug)]
pub struct Decoder {
    pub video_info: OmvVideoInfo,
}

/// What the decoder answers when it is asked for a picture.
#[derive(Debug)]
pub enum Received<'a> {
    Picture(VideoFrame<'a>),
    /// It wants more packets first.
    Again,
    /// There is nothing left to decode.
    Eof,
    /// It failed, for this reason.
    Failed(String),
}

/// What to do after an answer.
#[derive(Debug)]
pub enum DrainStep {
    /// Ask for the next picture.
    Continue,
    /// The packet is done.
    Done,
    /// The packet cannot be decoded.
    Failed(String),
}

/// The frames that a packet has made so far.
#[derive(Debug)]
pub struct Drain {
    pub presentable: bool,
    pub frames: Vec<Frame>,
}

/// Whether `frame` is made of a picture of a movie, in the buffer that `pool` gives next.
pub open spec fn frame_of(
    frame: Frame,
    picture: VideoFrame,
    info: OmvVideoInfo,
    pool: FramePool,
) -> bool {
    let taken = pool.next_bytes();
    &&& frame.pts_ms == picture.pts_ms
    &&& frame.duration_ms is None
    &&& match info.format {
        OmvVideoFormat::Rgb => frame.inner.bytes@ == painted(
            taken,
            opaque_pixels(picture),
            picture.width as int,
            picture.height as int,
        ),
        OmvVideoFormat::Rgba => frame.inner.bytes@ == painted(
            taken,
            alpha_pixels(picture, info.display_height as int),
            info.display_width as int,
            info.display_height as int,
        ),
        OmvVideoFormat::Yuv => if convertible(picture, taken.len() as int) {
            converted(picture, taken, frame.inner.bytes@)
        } else {
            frame.inner.bytes@ == taken
        },
        OmvVideoFormat::Unknown => false,
    }
}

impl Decoder {
    /// Makes frames of the pictures of this movie.
    pub fn new(video_info: OmvVideoInfo) -> (decoder: Decoder)
        ensures
            decoder.video_info == video_info,
    {
        Decoder { video_info }
    }

    /// Whether a picture can be made a frame of.
    pub open spec fn fits(self, picture: VideoFrame, pool: FramePool) -> bool {
        frame_fits(
            picture,
            self.video_info.format,
            self.video_info.display_height as int,
            self.video_info.display_width as int,
            pool,
        )
    }

    /// Starts on a packet that was sent to the decoder, or fails with the reason that it was not.
    pub fn decode_packet(&self, sent: Result<(), String>, presentable: bool) -> (r: Result<
        Drain,
        String,
    >)
        ensures
            match sent {
                Ok(_) => r matches Ok(drain) && drain.presentable == presentable
                    && drain.frames@.len() == 0,
                Err(reason) => r matches Err(message) && message@
                    == "send packet to decoder failed: "@ + reason@,
            },
    {
        match sent {
            Ok(()) => Ok(Drain { presentable, frames: Vec::new() }),
            Err(reason) => Err(
                "send packet to decoder failed: ".to_owned().concat(reason.as_str()),
            ),
        }
    }

    /// Makes a frame of a picture.
    pub fn convert_frame(&self, video_frame: &VideoFrame, pool: &mut FramePool) -> (r: Result<
        Frame,
        String,
    >)
        requires
            old(pool).wf(),
            self.fits(*video_frame, *old(pool)),
        ensures
            match r {
                Ok(frame) => final(pool).gave_one(*old(pool)) && frame_of(
                    frame,
                    *video_frame,
                    self.video_info,
                    *old(pool),
                ),
                Err(message) => {
                    &&& self.video_info.format == OmvVideoFormat::Unknown
                    &&& message@ == "Unknown real source pixel format"@
                    &&& final(pool).wf()
                    &&& final(pool).pixel_count == old(pool).pixel_count
                    &&& final(pool).max_cached == old(pool).max_cached
                    &&& final(pool).cached() == released_all(
                        old(pool).left_after_next(),
                        old(pool).max_cached as int,
                        old(pool).size(),
                        seq![old(pool).next_bytes()],
                    )
                },
            },
    {
        match convert_frame_pix_fmt(
            video_frame,
            self.video_info.format,
            self.video_info.display_height as usize,
            self.video_info.display_width as usize,
            pool,
        ) {
            Ok(data) => Ok(Frame { inner: data, pts_ms: video_frame.pts_ms, duration_ms: None }),
            Err(message) => Err(message),
        }
    }

    /// Takes an answer of the decoder: keeps the picture where the packet is to be shown, and
    /// drops it where it is not. Where the packet cannot be decoded, the buffers of the frames
    /// that it made are given back.
    pub fn drain_frames(
        &self,
        drain: &mut Drain,
        received: Received,
        pool: &mut FramePool,
    ) -> (step: DrainStep)
        requires
            old(pool).wf(),
            old(drain).presentable && received is Picture ==> self.fits(
                received->Picture_0,
                *old(pool),
            ),
        ensures
            final(drain).presentable == old(drain).presentable,
            final(pool).wf(),
            match received {
                Received::Picture(picture) => if !old(drain).presentable {
                    step is Continue && final(drain).frames@ == old(drain).frames@ && *final(pool)
                        == *old(pool)
                } else if self.video_info.format == OmvVideoFormat::Unknown {
                    (step matches DrainStep::Failed(message) && message@
                        == "Unknown real source pixel format"@) && final(drain).frames@.len() == 0
                        && final(pool).pixel_count == old(pool).pixel_count
                        && final(pool).max_cached == old(pool).max_cached && final(pool).cached()
                        == released_all(
                        old(pool).left_after_next(),
                        old(pool).max_cached as int,
                        old(pool).size(),
                        seq![old(pool).next_bytes()] + buffers_of(old(drain).frames@),
                    )
                } else {
                    &&& step is Continue
                    &&& final(pool).gave_one(*old(pool))
                    &&& final(drain).frames@.len() == old(drain).frames@.len() + 1
                    &&& final(drain).frames@.drop_last() == old(drain).frames@
                    &&& frame_of(
                        final(drain).frames@.last(),
                        picture,
                        self.video_info,
                        *old(pool),
                    )
                },
                Received::Again => step is Done && final(drain).frames@ == old(drain).frames@
                    && *final(pool) == *old(pool),
                Received::Eof => step is Done && final(drain).frames@ == old(drain).frames@
                    && *final(pool) == *old(pool),
                Received::Failed(reason) => (step matches DrainStep::Failed(message) && message@
                    == "receive frame from decoder failed: "@ + reason@)
                    && final(drain).frames@.len() == 0 && final(pool).took_back(
                    *old(pool),
                    buffers_of(old(drain).frames@),
                ),
            },
    {
        match received {
            Received::Picture(picture) => {
                if !drain.presentable {
                    return DrainStep::Continue;
                }
                match self.convert_frame(&picture, pool) {
                    Ok(frame) => {
                        drain.frames.push(frame);
                        assert(drain.frames@.drop_last() =~= old(drain).frames@);
                        DrainStep::Continue
                    },
                    Err(message) => {
                        proof {
                            lemma_released_in_turn(
                                old(pool).left_after_next(),
                                old(pool).max_cached as int,
                                old(pool).size(),
                                seq![old(pool).next_bytes()],
                                buffers_of(old(drain).frames@),
                            );
                        }
                        drain.give_up(pool);
                        DrainStep::Failed(message)
                    },
                }
            },
            Received::Again => DrainStep::Done,
            Received::Eof => DrainStep::Done,
            Received::Failed(reason) => {
                drain.give_up(pool);
                DrainStep::Failed(
                    "receive frame from decoder failed: ".to_owned().concat(reason.as_str()),
                )
            },
        }
    }
}

impl Drain {
    /// Gives the buffers of the frames back, that of the first one first.
    pub fn give_up(&mut self, pool: &mut FramePool)
        requires
            old(pool).wf(),
        ensures
            final(self).presentable == old(self).presentable,
            final(self).frames@.len() == 0,
            final(pool).took_back(*old(pool), buffers_of(old(self).frames@)),
    {
        let ghost all = self.frames@;
        let ghost mut done: int = 0;
        assert(buffers_of(all).take(0) =~= Seq::<Seq<u8>>::empty());
        assert(all.skip(0) =~= all);
        while self.frames.len() > 0
            invariant
                0 <= done <= all.len(),
                self.presentable == old(self).presentable,
                self.frames@ == all.skip(done),
                pool.took_back(*old(pool), buffers_of(all).take(done)),
            decreases self.frames@.len(),
        {
            let ghost before = *pool;
            let frame = self.frames.remove(0);
            let ghost bytes = frame.inner.bytes@;
            pool.release(frame.inner);
            proof {
                assert(bytes == all[done].inner.bytes@);
                crate::movie::frame::lemma_one_more(
                    *old(pool),
                    before,
                    *pool,
                    buffers_of(all),
                    done,
                );
                assert(self.frames@ =~= all.skip(done + 1));
                done = done + 1;
            }
        }
        assert(buffers_of(all).take(done) =~= buffers_of(all));
    }
}

} // verus!

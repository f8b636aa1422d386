//! Turning the planes of a decoded picture into pixels.

use vstd::arithmetic::div_mod::lemma_fundamental_div_mod_converse;
use vstd::prelude::*;

use crate::movie::pool::{FramePool, PooledFrameBuffer};
use crate::omv::video::OmvVideoFormat;

verus! {

/// One plane of a picture: rows of bytes, `stride` bytes apart.
#[derive(Clone, Copy, Debug)]
pub struct Plane<'a> {
    pub data: &'a [u8],
    pub stride: usize,
}

/// A decoded picture.
#[derive(Clone, Copy, Debug)]
pub struct VideoFrame<'a> {
    pub width: u32,
    pub height: u32,
    pub planes: [Plane<'a>; 3],
    /// When the picture is to be shown, where the decoder knows it.
    pub pts_ms: Option<i64>,
}

impl<'a> Plane<'a> {
    /// The byte in column `x` of row `y`.
    pub open spec fn at(self, x: int, y: int) -> u8 {
        self.data@[y * self.stride + x]
    }

    /// Whether the first `width` bytes of the first `rows` rows are there.
    pub open spec fn holds(self, width: int, rows: int) -> bool {
        rows > 0 ==> (rows - 1) * self.stride + width <= self.data@.len()
    }
}

/// The byte of a pixel that stands at place `k`: blue, green, red and alpha.
pub open spec fn channel(k: int, r: u8, g: u8, b: u8, a: u8) -> u8 {
    if k == 0 {
        b
    } else if k == 1 {
        g
    } else if k == 2 {
        r
    } else {
        a
    }
}

/// The bytes of a picture whose pixels are `width` to a row, the byte at place `k` of the pixel in
/// column `x` of row `y` being `f(x, y, k)`.
pub open spec fn raster(f: spec_fn(int, int, int) -> u8, width: int, i: int) -> u8 {
    f((i / 4) % width, (i / 4) / width, i % 4)
}

/// `before` with the picture `f` of `rows` rows in front.
pub open spec fn painted(
    before: Seq<u8>,
    f: spec_fn(int, int, int) -> u8,
    width: int,
    rows: int,
) -> Seq<u8> {
    Seq::new(
        before.len(),
        |i: int|
            if i < 4 * (rows * width) {
                raster(f, width, i)
            } else {
                before[i]
            },
    )
}

/// The pixels of a picture whose planes are its red, green and blue.
pub open spec fn opaque_pixels(frame: VideoFrame) -> spec_fn(int, int, int) -> u8 {
    |x: int, y: int, k: int|
        channel(
            k,
            frame.planes[0].at(x, y),
            frame.planes[1].at(x, y),
            frame.planes[2].at(x, y),
            0xFF,
        )
}

/// How many rows of a picture have their alpha in the same plane.
pub open spec fn alpha_rows(height: int) -> int {
    (height + 2) / 3
}

/// The alpha of a pixel of a picture whose alpha stands below its colours: that of the first third
/// of the rows in the first plane, and so on.
pub open spec fn alpha_at(frame: VideoFrame, height: int, x: int, y: int) -> u8 {
    let band = y / alpha_rows(height);
    frame.planes[band].at(x, height + y - band * alpha_rows(height))
}

/// The pixels of a picture whose planes are its red, green and blue, with its alpha below them.
pub open spec fn alpha_pixels(frame: VideoFrame, height: int) -> spec_fn(int, int, int) -> u8 {
    |x: int, y: int, k: int|
        channel(
            k,
            frame.planes[0].at(x, y),
            frame.planes[1].at(x, y),
            frame.planes[2].at(x, y),
            alpha_at(frame, height, x, y),
        )
}

/// Whether the planes hold a picture of this size with its alpha below it.
pub open spec fn holds_alpha(frame: VideoFrame, width: int, height: int) -> bool {
    let third = alpha_rows(height);
    &&& forall|p: int| 0 <= p < 3 ==> (#[trigger] frame.planes[p]).holds(width, height)
    &&& forall|p: int| 0 <= p < 3 ==> height * (#[trigger] frame.planes[p]).stride
        <= frame.planes[p].data@.len()
    &&& third > 0 ==> frame.planes[0].holds(width, height + third)
    &&& third > 0 ==> frame.planes[1].holds(width, height + third)
    &&& height > 2 * third ==> frame.planes[2].holds(width, height + (height - 2 * third))
}

/// Where a pixel stands, from its number.
proof fn lemma_place(x: int, y: int, width: int, k: int)
    requires
        0 <= x < width,
        0 <= y,
        0 <= k < 4,
    ensures
        (4 * (y * width + x) + k) / 4 == y * width + x,
        (4 * (y * width + x) + k) % 4 == k,
        (y * width + x) / width == y,
        (y * width + x) % width == x,
{
    lemma_fundamental_div_mod_converse(y * width + x, width, y, x);
}

/// Rows further down start later.
proof fn lemma_rows(y: int, rows: int, stride: int, len: int)
    requires
        0 <= y < rows,
        0 <= stride,
        (rows - 1) * stride <= len,
    ensures
        0 <= y * stride <= (rows - 1) * stride,
{
    assert(y * stride <= (rows - 1) * stride && 0 <= y * stride) by (nonlinear_arith)
        requires
            0 <= y <= rows - 1,
            0 <= stride,
    ;
}

/// Paints `rows` rows from row `first` on; row `y` of what is painted takes its colours from the
/// planes' rows `first + y` and its alpha from row `alpha_first + y` of `alpha`.
fn rgba_to_bgra_loop(
    rows: usize,
    width: usize,
    first: usize,
    alpha: Plane,
    alpha_first: usize,
    r: Plane,
    g: Plane,
    b: Plane,
    bgra: &mut Vec<u8>,
)
    requires
        first + rows <= usize::MAX,
        alpha_first + rows <= usize::MAX,
        4 * ((first + rows) * width) <= old(bgra).len(),
        r.holds(width as int, first + rows),
        g.holds(width as int, first + rows),
        b.holds(width as int, first + rows),
        rows > 0 ==> alpha.holds(width as int, alpha_first + rows),
    ensures
        final(bgra)@.len() == old(bgra)@.len(),
        forall|i: int|
            0 <= i < 4 * (first * width) ==> #[trigger] final(bgra)@[i] == old(bgra)@[i],
        forall|i: int|
            4 * ((first + rows) * width) <= i < old(bgra)@.len() ==> #[trigger] final(bgra)@[i]
                == old(bgra)@[i],
        forall|i: int|
            4 * (first * width) <= i < 4 * ((first + rows) * width) ==> #[trigger] final(bgra)@[i]
                == raster(
                |x: int, y: int, k: int|
                    channel(
                        k,
                        r.at(x, y),
                        g.at(x, y),
                        b.at(x, y),
                        alpha.at(x, alpha_first + y - first),
                    ),
                width as int,
                i,
            ),
{
    let ghost f = |x: int, y: int, k: int|
        channel(k, r.at(x, y), g.at(x, y), b.at(x, y), alpha.at(x, alpha_first + y - first));
    let ghost w = width as int;
    let mut y: usize = 0;
    while y < rows
        invariant
            y <= rows,
            w == width,
            first + rows <= usize::MAX,
            alpha_first + rows <= usize::MAX,
            4 * ((first + rows) * width) <= bgra.len(),
            r.holds(width as int, first + rows),
            g.holds(width as int, first + rows),
            b.holds(width as int, first + rows),
            rows > 0 ==> alpha.holds(width as int, alpha_first + rows),
            f == (|x: int, y: int, k: int|
                channel(
                    k,
                    r.at(x, y),
                    g.at(x, y),
                    b.at(x, y),
                    alpha.at(x, alpha_first + y - first),
                )),
            bgra@.len() == old(bgra)@.len(),
            forall|i: int|
                0 <= i < 4 * (first * w) ==> #[trigger] bgra@[i] == old(bgra)@[i],
            forall|i: int|
                4 * ((first + y) * w) <= i < bgra@.len() ==> #[trigger] bgra@[i] == old(bgra)@[i],
            forall|i: int|
                4 * (first * w) <= i < 4 * ((first + y) * w) ==> #[trigger] bgra@[i] == raster(
                    f,
                    w,
                    i,
                ),
        decreases rows - y,
    {
        let row: usize = first + y;
        let alpha_row: usize = alpha_first + y;
        proof {
            lemma_rows(row as int, first + rows, r.stride as int, r.data@.len() as int);
            lemma_rows(row as int, first + rows, g.stride as int, g.data@.len() as int);
            lemma_rows(row as int, first + rows, b.stride as int, b.data@.len() as int);
            lemma_rows(
                alpha_row as int,
                alpha_first + rows,
                alpha.stride as int,
                alpha.data@.len() as int,
            );
            assert((row + 1) * w <= (first + rows) * w && (row + 1) * w == row * w + w && 0 <= row
                * w && first * w <= row * w) by (nonlinear_arith)
                requires
                    0 <= first <= row,
                    row + 1 <= first + rows,
                    0 <= w,
            ;
            assert(r.data@.len() == r.data.len());
            assert(g.data@.len() == g.data.len());
            assert(b.data@.len() == b.data.len());
            assert(alpha.data@.len() == alpha.data.len());
        }
        let r_start: usize = row * r.stride;
        let g_start: usize = row * g.stride;
        let b_start: usize = row * b.stride;
        let alpha_start: usize = alpha_row * alpha.stride;
        let start: usize = row * width;
        let mut x: usize = 0;
        while x < width
            invariant
                x <= width,
                w == width,
                row == first + y,
                alpha_row == alpha_first + y,
                start == row * w,
                r_start == row * r.stride,
                g_start == row * g.stride,
                b_start == row * b.stride,
                alpha_start == alpha_row * alpha.stride,
                r_start + width <= r.data.len(),
                g_start + width <= g.data.len(),
                b_start + width <= b.data.len(),
                alpha_start + width <= alpha.data.len(),
                4 * (start + w) <= bgra.len(),
                first * w <= start,
                f == (|x: int, y: int, k: int|
                    channel(
                        k,
                        r.at(x, y),
                        g.at(x, y),
                        b.at(x, y),
                        alpha.at(x, alpha_first + y - first),
                    )),
                bgra@.len() == old(bgra)@.len(),
                forall|i: int|
                    0 <= i < 4 * (first * w) ==> #[trigger] bgra@[i] == old(bgra)@[i],
                forall|i: int|
                    4 * (start + x) <= i < bgra@.len() ==> #[trigger] bgra@[i] == old(bgra)@[i],
                forall|i: int|
                    4 * (first * w) <= i < 4 * (start + x) ==> #[trigger] bgra@[i] == raster(
                        f,
                        w,
                        i,
                    ),
            decreases width - x,
        {
            let at: usize = 4 * (start + x);
            let red: u8 = r.data[r_start + x];
            let green: u8 = g.data[g_start + x];
            let blue: u8 = b.data[b_start + x];
            let transparency: u8 = alpha.data[alpha_start + x];
            bgra.set(at, blue);
            bgra.set(at + 1, green);
            bgra.set(at + 2, red);
            bgra.set(at + 3, transparency);
            proof {
                lemma_place(x as int, row as int, w, 0);
                lemma_place(x as int, row as int, w, 1);
                lemma_place(x as int, row as int, w, 2);
                lemma_place(x as int, row as int, w, 3);
                assert(raster(f, w, at as int) == blue);
                assert(raster(f, w, at + 1) == green);
                assert(raster(f, w, at + 2) == red);
                assert(raster(f, w, at + 3) == transparency);
            }
            x += 1;
        }
        y += 1;
    }
}

/// Paints a picture whose planes are its red, green and blue.
pub fn convert_fake_rgb_to_bgra(
    video_frame: &VideoFrame,
    buffer: PooledFrameBuffer,
) -> (bgra_data: PooledFrameBuffer)
    requires
        forall|p: int|
            0 <= p < 3 ==> (#[trigger] video_frame.planes[p]).holds(
                video_frame.width as int,
                video_frame.height as int,
            ),
        4 * (video_frame.height * video_frame.width) <= buffer.bytes@.len(),
        video_frame.width <= usize::MAX,
        video_frame.height <= usize::MAX,
    ensures
        bgra_data.bytes@ == painted(
            buffer.bytes@,
            opaque_pixels(*video_frame),
            video_frame.width as int,
            video_frame.height as int,
        ),
{
    let mut bgra_data = buffer;
    let ghost before = bgra_data.bytes@;
    let width: usize = video_frame.width as usize;
    let height: usize = video_frame.height as usize;
    let r = video_frame.planes[0];
    let g = video_frame.planes[1];
    let b = video_frame.planes[2];
    let ghost f = opaque_pixels(*video_frame);
    let ghost w = width as int;
    let mut row: usize = 0;
    while row < height
        invariant
            row <= height,
            w == width,
            f == opaque_pixels(*video_frame),
            r == video_frame.planes[0],
            g == video_frame.planes[1],
            b == video_frame.planes[2],
            4 * (height * width) <= bgra_data.bytes.len(),
            r.holds(w, height as int),
            g.holds(w, height as int),
            b.holds(w, height as int),
            bgra_data.bytes@.len() == before.len(),
            forall|i: int|
                4 * (row * w) <= i < before.len() ==> #[trigger] bgra_data.bytes@[i] == before[i],
            forall|i: int|
                0 <= i < 4 * (row * w) ==> #[trigger] bgra_data.bytes@[i] == raster(f, w, i),
        decreases height - row,
    {
        proof {
            lemma_rows(row as int, height as int, r.stride as int, r.data@.len() as int);
            lemma_rows(row as int, height as int, g.stride as int, g.data@.len() as int);
            lemma_rows(row as int, height as int, b.stride as int, b.data@.len() as int);
            assert((row + 1) * w <= height * w && (row + 1) * w == row * w + w && 0 <= row * w)
                by (nonlinear_arith)
                requires
                    0 <= row,
                    row + 1 <= height,
                    0 <= w,
            ;
            assert(r.data@.len() == r.data.len());
            assert(g.data@.len() == g.data.len());
            assert(b.data@.len() == b.data.len());
        }
        let r_start: usize = row * r.stride;
        let g_start: usize = row * g.stride;
        let b_start: usize = row * b.stride;
        let start: usize = row * width;
        let mut x: usize = 0;
        while x < width
            invariant
                x <= width,
                w == width,
                start == row * w,
                r_start == row * r.stride,
                g_start == row * g.stride,
                b_start == row * b.stride,
                r_start + width <= r.data.len(),
                g_start + width <= g.data.len(),
                b_start + width <= b.data.len(),
                4 * (start + w) <= bgra_data.bytes.len(),
                f == opaque_pixels(*video_frame),
                r == video_frame.planes[0],
                g == video_frame.planes[1],
                b == video_frame.planes[2],
                bgra_data.bytes@.len() == before.len(),
                forall|i: int|
                    4 * (start + x) <= i < before.len() ==> #[trigger] bgra_data.bytes@[i]
                        == before[i],
                forall|i: int|
                    0 <= i < 4 * (start + x) ==> #[trigger] bgra_data.bytes@[i] == raster(f, w, i),
            decreases width - x,
        {
            let at: usize = 4 * (start + x);
            let red: u8 = r.data[r_start + x];
            let green: u8 = g.data[g_start + x];
            let blue: u8 = b.data[b_start + x];
            bgra_data.bytes.set(at, blue);
            bgra_data.bytes.set(at + 1, green);
            bgra_data.bytes.set(at + 2, red);
            bgra_data.bytes.set(at + 3, 0xFF);
            proof {
                lemma_place(x as int, row as int, w, 0);
                lemma_place(x as int, row as int, w, 1);
                lemma_place(x as int, row as int, w, 2);
                lemma_place(x as int, row as int, w, 3);
                assert(raster(f, w, at as int) == blue);
                assert(raster(f, w, at + 1) == green);
                assert(raster(f, w, at + 2) == red);
                assert(raster(f, w, at + 3) == 0xFF);
            }
            x += 1;
        }
        row += 1;
    }
    bgra_data
}

/// A row lies in the band that its number says.
proof fn lemma_band(y: int, third: int, band: int)
    requires
        0 < third,
        band * third <= y < (band + 1) * third,
    ensures
        y / third == band,
{
    assert((band + 1) * third == band * third + third) by (nonlinear_arith);
    lemma_fundamental_div_mod_converse(y, third, band, y - band * third);
}

/// Paints a picture whose planes are its red, green and blue, with its alpha below them.
pub fn convert_fake_rgba_to_bgra(
    video_frame: &VideoFrame,
    real_width: usize,
    real_height: usize,
    buffer: PooledFrameBuffer,
) -> (bgra_data: PooledFrameBuffer)
    requires
        real_height != 1,
        real_height + 2 <= usize::MAX,
        holds_alpha(*video_frame, real_width as int, real_height as int),
        4 * (real_height * real_width) <= buffer.bytes@.len(),
        real_height + alpha_rows(real_height as int) <= usize::MAX,
    ensures
        bgra_data.bytes@ == painted(
            buffer.bytes@,
            alpha_pixels(*video_frame, real_height as int),
            real_width as int,
            real_height as int,
        ),
{
    let mut bgra_data = buffer;
    let ghost before = bgra_data.bytes@;
    let r = video_frame.planes[0];
    let g = video_frame.planes[1];
    let b = video_frame.planes[2];
    let alpha_h: usize = (real_height + 2) / 3;
    let alpha_h_2: usize = alpha_h * 2;
    let ghost h = real_height as int;
    let ghost w = real_width as int;
    let ghost third = alpha_h as int;
    let ghost f = alpha_pixels(*video_frame, h);
    proof {
        assert(forall|p: int| 0 <= p < 3 ==> (#[trigger] video_frame.planes[p]).holds(w, h));
        assert(video_frame.planes[0].holds(w, h));
        assert(video_frame.planes[1].holds(w, h));
        assert(video_frame.planes[2].holds(w, h));
        lemma_fewer_rows(r, w, third, h);
        lemma_fewer_rows(g, w, third, h);
        lemma_fewer_rows(b, w, third, h);
        lemma_fewer_rows(r, w, 2 * third, h);
        lemma_fewer_rows(g, w, 2 * third, h);
        lemma_fewer_rows(b, w, 2 * third, h);
        assert(third * w <= 2 * third * w && 2 * third * w <= h * w && 0 <= third * w)
            by (nonlinear_arith)
            requires
                0 <= third,
                2 * third <= h,
                0 <= w,
        ;
        assert(bgra_data.bytes@.len() == bgra_data.bytes.len());
        assert((0 + third) * w == third * w && (third + third) * w == 2 * third * w && 0 * w == 0
            && (2 * third + (h - 2 * third)) * w == h * w) by (nonlinear_arith);
    }
    rgba_to_bgra_loop(
        alpha_h,
        real_width,
        0,
        r,
        real_height,
        r,
        g,
        b,
        &mut bgra_data.bytes,
    );
    let ghost first = bgra_data.bytes@;
    rgba_to_bgra_loop(
        alpha_h,
        real_width,
        alpha_h,
        g,
        real_height,
        r,
        g,
        b,
        &mut bgra_data.bytes,
    );
    let ghost second = bgra_data.bytes@;
    rgba_to_bgra_loop(
        real_height - alpha_h_2,
        real_width,
        alpha_h_2,
        b,
        real_height,
        r,
        g,
        b,
        &mut bgra_data.bytes,
    );
    proof {
        assert forall|i: int| 0 <= i < 4 * (h * w) implies #[trigger] bgra_data.bytes@[i] == raster(
            f,
            w,
            i,
        ) by {
            if i < 4 * (third * w) {
                lemma_row_of(i, w, 0, third);
                lemma_band((i / 4) / w, third, 0);
                assert(bgra_data.bytes@[i] == second[i]);
                assert(second[i] == first[i]);
            } else if i < 4 * (2 * third * w) {
                lemma_row_of(i, w, third, 2 * third);
                lemma_band((i / 4) / w, third, 1);
                assert(bgra_data.bytes@[i] == second[i]);
            } else {
                lemma_row_of(i, w, 2 * third, h);
                lemma_band((i / 4) / w, third, 2);
            }
        }
    }
    bgra_data
}

/// The pixels between two row starts lie in the rows between.
proof fn lemma_row_of(i: int, width: int, from: int, to: int)
    requires
        0 <= width,
        0 <= i,
        4 * (from * width) <= i < 4 * (to * width),
    ensures
        0 < width,
        from <= (i / 4) / width < to,
{
    let p = i / 4;
    assert(width > 0) by (nonlinear_arith)
        requires
            0 <= i,
            i < 4 * (to * width),
            0 <= width,
    ;
    vstd::arithmetic::div_mod::lemma_fundamental_div_mod(p, width);
    vstd::arithmetic::div_mod::lemma_mod_bound(p, width);
    let q = p / width;
    assert(from <= q < to) by (nonlinear_arith)
        requires
            from * width <= p < to * width,
            p == width * q + p % width,
            0 <= p % width < width,
    ;
}

/// A plane that holds some rows holds the first of them.
proof fn lemma_fewer_rows(plane: Plane, width: int, fewer: int, rows: int)
    requires
        fewer <= rows,
        plane.holds(width, rows),
    ensures
        plane.holds(width, fewer),
{
    if 0 < fewer {
        assert((fewer - 1) * plane.stride <= (rows - 1) * plane.stride) by (nonlinear_arith)
            requires
                fewer <= rows,
                0 <= plane.stride,
        ;
    }
}

/// A plane as the colour conversion takes it.
#[derive(Clone, Copy, Debug)]
pub struct ColourPlane<'a> {
    pub data: &'a [u8],
    pub stride: u32,
}

/// Which part of the range of a byte the samples use.
#[derive(Clone, Copy, Debug)]
pub enum ColourRange {
    Limited,
    Full,
}

/// How the samples were made from red, green and blue.
#[derive(Clone, Copy, Debug)]
pub enum ColourMatrix {
    Bt601,
    Bt709,
}

/// Whether `after` is what `yuv::yuv444_to_bgra` can leave of a buffer, given the three planes with
/// their strides, the size of the picture, the range and the matrix. Which of these it leaves rests
/// on the vector instructions that the machine has.
pub uninterp spec fn bgra_outcome(
    y: (Seq<u8>, u32),
    u: (Seq<u8>, u32),
    v: (Seq<u8>, u32),
    size: (u32, u32),
    range: ColourRange,
    matrix: ColourMatrix,
    after: Seq<u8>,
) -> bool;

impl<'a> ColourPlane<'a> {
    /// Whether the plane holds a picture of this size.
    pub open spec fn sound(self, width: u32, height: u32) -> bool {
        &&& self.stride * height <= isize::MAX
        &&& self.stride >= width
        &&& self.stride * (height - 1) + width <= self.data@.len()
    }

    /// The bytes and the stride.
    pub open spec fn view(self) -> (Seq<u8>, u32) {
        (self.data@, self.stride)
    }
}

/// Converts a picture with `yuv::yuv444_to_bgra`. The function checks the sizes before it writes
/// anything, and fails exactly where they are unsound; it then leaves the buffer as it was. Where
/// it succeeds, rows of four bytes to a pixel stand in front of the buffer, every alpha is 255, and
/// the bytes behind the picture are as they were. The colours themselves are left unsaid: the
/// function rounds differently with different vector instructions.
#[verifier::external_body]
fn yuv444_to_bgra(
    y: ColourPlane,
    u: ColourPlane,
    v: ColourPlane,
    size: (u32, u32),
    range: ColourRange,
    matrix: ColourMatrix,
    bgra: &mut Vec<u8>,
    stride: u32,
) -> (done: bool)
    requires
        stride <= 4 * size.0,
    ensures
        final(bgra)@.len() == old(bgra)@.len(),
        done == {
            &&& size.0 > 0
            &&& size.1 > 0
            &&& 4 * (size.1 * size.0) <= isize::MAX
            &&& stride == 4 * size.0
            &&& 4 * (size.1 * size.0) <= old(bgra)@.len()
            &&& y.sound(size.0, size.1)
            &&& u.sound(size.0, size.1)
            &&& v.sound(size.0, size.1)
        },
        !done ==> final(bgra)@ == old(bgra)@,
        done ==> bgra_outcome(
            y@,
            u@,
            v@,
            size,
            range,
            matrix,
            final(bgra)@.take(4 * (size.1 * size.0)),
        ),
        done ==> forall|p: int|
            0 <= p < size.1 * size.0 ==> #[trigger] final(bgra)@[4 * p + 3] == 0xFF,
        done ==> final(bgra)@.skip(4 * (size.1 * size.0)) == old(bgra)@.skip(
            4 * (size.1 * size.0),
        ),
{
    let (y_plane, y_stride) = (y.data, y.stride);
    let (u_plane, u_stride) = (u.data, u.stride);
    let (v_plane, v_stride) = (v.data, v.stride);
    let range = match range {
        ColourRange::Limited => yuv::YuvRange::Limited,
        ColourRange::Full => yuv::YuvRange::Full,
    };
    let matrix = match matrix {
        ColourMatrix::Bt601 => yuv::YuvStandardMatrix::Bt601,
        ColourMatrix::Bt709 => yuv::YuvStandardMatrix::Bt709,
    };
    let image = yuv::YuvPlanarImage {
        y_plane, y_stride, u_plane, u_stride, v_plane, v_stride, width: size.0, height: size.1,
    };
    yuv::yuv444_to_bgra(&image, bgra, stride, range, matrix).is_ok()
}

/// The plane as the colour conversion takes it.
pub open spec fn colour_plane(plane: Plane) -> (Seq<u8>, u32) {
    (plane.data@, (plane.stride as int % 0x1_0000_0000) as u32)
}

/// Whether a plane holds a picture of this size.
pub open spec fn colour_sound(plane: Plane, width: u32, height: u32) -> bool {
    let stride = plane.stride as int % 0x1_0000_0000;
    &&& stride * height <= isize::MAX
    &&& stride >= width
    &&& stride * (height - 1) + width <= plane.data@.len()
}

/// Whether a picture can be converted into a buffer of `len` bytes.
pub open spec fn convertible(frame: VideoFrame, len: int) -> bool {
    &&& frame.width > 0
    &&& frame.height > 0
    &&& 4 * frame.width <= u32::MAX
    &&& 4 * (frame.height * frame.width) <= isize::MAX
    &&& 4 * (frame.height * frame.width) <= len
    &&& colour_sound(frame.planes[0], frame.width, frame.height)
    &&& colour_sound(frame.planes[1], frame.width, frame.height)
    &&& colour_sound(frame.planes[2], frame.width, frame.height)
}

/// Whether `after` is `before` with the converted picture in front: limited range, matrix of
/// Rec. 709.
pub open spec fn converted(frame: VideoFrame, before: Seq<u8>, after: Seq<u8>) -> bool {
    let len = 4 * (frame.height * frame.width);
    &&& after.len() == before.len()
    &&& bgra_outcome(
        colour_plane(frame.planes[0]),
        colour_plane(frame.planes[1]),
        colour_plane(frame.planes[2]),
        (frame.width, frame.height),
        ColourRange::Limited,
        ColourMatrix::Bt709,
        after.take(len),
    )
    &&& forall|p: int| 0 <= p < frame.height * frame.width ==> #[trigger] after[4 * p + 3] == 0xFF
    &&& after.skip(len) == before.skip(len)
}

fn to_colour_plane<'a>(plane: &Plane<'a>) -> (colour: ColourPlane<'a>)
    ensures
        colour@ == colour_plane(*plane),
{
    ColourPlane { data: plane.data, stride: (plane.stride as u64 % 0x1_0000_0000) as u32 }
}

/// Paints a picture whose planes are its luma and its two chromas; a picture that cannot be
/// converted leaves the buffer as it was.
pub fn convert_yuv444_to_bgra(
    video_frame: &VideoFrame,
    buffer: PooledFrameBuffer,
) -> (bgra_data: PooledFrameBuffer)
    ensures
        convertible(*video_frame, buffer.bytes@.len() as int) ==> converted(
            *video_frame,
            buffer.bytes@,
            bgra_data.bytes@,
        ),
        !convertible(*video_frame, buffer.bytes@.len() as int) ==> bgra_data.bytes@
            == buffer.bytes@,
        convertible(*video_frame, buffer.bytes@.len() as int) ==> bgra_outcome(
            (
                video_frame.planes[0].data@,
                (video_frame.planes[0].stride as int % 0x1_0000_0000) as u32,
            ),
            (
                video_frame.planes[1].data@,
                (video_frame.planes[1].stride as int % 0x1_0000_0000) as u32,
            ),
            (
                video_frame.planes[2].data@,
                (video_frame.planes[2].stride as int % 0x1_0000_0000) as u32,
            ),
            (video_frame.width, video_frame.height),
            ColourRange::Limited,
            ColourMatrix::Bt709,
            bgra_data.bytes@.take(4 * (video_frame.height * video_frame.width)),
        ),
{
    let mut bgra_data = buffer;
    let stride: u32 = (video_frame.width as u64 * 4 % 0x1_0000_0000) as u32;
    yuv444_to_bgra(
        to_colour_plane(&video_frame.planes[0]),
        to_colour_plane(&video_frame.planes[1]),
        to_colour_plane(&video_frame.planes[2]),
        (video_frame.width, video_frame.height),
        ColourRange::Limited,
        ColourMatrix::Bt709,
        &mut bgra_data.bytes,
        stride,
    );
    bgra_data
}

impl FramePool {
    /// The bytes of the buffer that is taken next.
    pub open spec fn next_bytes(self) -> Seq<u8> {
        if self.cached().len() > 0 {
            self.cached().last()
        } else {
            Seq::new(self.size() as nat, |i: int| 0u8)
        }
    }

    /// The buffers that are left once one was taken.
    pub open spec fn left_after_next(self) -> Seq<Seq<u8>> {
        if self.cached().len() > 0 {
            self.cached().drop_last()
        } else {
            self.cached()
        }
    }

    /// Whether this is `before` after one buffer was taken.
    pub open spec fn gave_one(self, before: FramePool) -> bool {
        &&& self.wf()
        &&& self.pixel_count == before.pixel_count
        &&& self.max_cached == before.max_cached
        &&& self.cached() == before.left_after_next()
    }
}

/// Whether a picture of a movie can be turned into pixels: its planes and a buffer of the pool
/// hold it.
pub open spec fn frame_fits(
    frame: VideoFrame,
    format: OmvVideoFormat,
    height: int,
    width: int,
    pool: FramePool,
) -> bool {
    match format {
        OmvVideoFormat::Rgb => {
            &&& forall|p: int|
                0 <= p < 3 ==> (#[trigger] frame.planes[p]).holds(
                    frame.width as int,
                    frame.height as int,
                )
            &&& 4 * (frame.height * frame.width) <= pool.size()
            &&& frame.width <= usize::MAX
            &&& frame.height <= usize::MAX
        },
        OmvVideoFormat::Rgba => {
            &&& height != 1
            &&& height + 2 <= usize::MAX
            &&& height + alpha_rows(height) <= usize::MAX
            &&& holds_alpha(frame, width, height)
            &&& 4 * (height * width) <= pool.size()
        },
        _ => true,
    }
}

impl<'a> Plane<'a> {
    /// Whether the first `width` bytes of the first `rows` rows are there.
    pub fn has_rows(&self, width: usize, rows: usize) -> (holds: bool)
        ensures
            holds == self.holds(width as int, rows as int),
    {
        if rows == 0 {
            return true;
        }
        assert(self.data@.len() == self.data.len());
        match (rows - 1).checked_mul(self.stride) {
            Some(start) => start <= self.data.len() && width <= self.data.len() - start,
            None => false,
        }
    }

    /// Whether `rows` rows start within the plane.
    fn spans_rows(&self, rows: usize) -> (spans: bool)
        ensures
            spans == (rows * self.stride <= self.data@.len()),
    {
        assert(self.data@.len() == self.data.len());
        match rows.checked_mul(self.stride) {
            Some(end) => end <= self.data.len(),
            None => false,
        }
    }
}

/// Whether a buffer of the pool holds this many pixels.
fn pixels_fit(height: usize, width: usize, pool: &FramePool) -> (fit: bool)
    ensures
        fit == (4 * (height * width) <= pool.size()),
{
    match height.checked_mul(width) {
        Some(pixels) => pixels <= pool.pixel_count,
        None => false,
    }
}

/// Whether a picture of a movie can be turned into pixels.
pub fn can_convert(
    video_frame: &VideoFrame,
    format: OmvVideoFormat,
    height: usize,
    width: usize,
    pool: &FramePool,
) -> (fits: bool)
    ensures
        fits == frame_fits(*video_frame, format, height as int, width as int, *pool),
{
    let r = video_frame.planes[0];
    let g = video_frame.planes[1];
    let b = video_frame.planes[2];
    match format {
        OmvVideoFormat::Rgb => {
            let w: usize = video_frame.width as usize;
            let h: usize = video_frame.height as usize;
            let held = r.has_rows(w, h) && g.has_rows(w, h) && b.has_rows(w, h);
            assert(held == forall|p: int|
                0 <= p < 3 ==> (#[trigger] video_frame.planes[p]).holds(w as int, h as int)) by {
                assert(video_frame.planes[0] == r);
                assert(video_frame.planes[1] == g);
                assert(video_frame.planes[2] == b);
            }
            held && pixels_fit(h, w, pool)
        },
        OmvVideoFormat::Rgba => {
            if height == 1 || height > usize::MAX - 2 {
                return false;
            }
            let third: usize = (height + 2) / 3;
            if third > usize::MAX - height {
                return false;
            }
            let held = r.has_rows(width, height) && g.has_rows(width, height) && b.has_rows(
                width,
                height,
            );
            let spanned = r.spans_rows(height) && g.spans_rows(height) && b.spans_rows(height);
            assert(held == forall|p: int|
                0 <= p < 3 ==> (#[trigger] video_frame.planes[p]).holds(
                    width as int,
                    height as int,
                )) by {
                assert(video_frame.planes[0] == r);
                assert(video_frame.planes[1] == g);
                assert(video_frame.planes[2] == b);
            }
            assert(spanned == forall|p: int|
                0 <= p < 3 ==> height * (#[trigger] video_frame.planes[p]).stride
                    <= video_frame.planes[p].data@.len()) by {
                assert(video_frame.planes[0] == r);
                assert(video_frame.planes[1] == g);
                assert(video_frame.planes[2] == b);
            }
            held && spanned && (third == 0 || r.has_rows(width, height + third)) && (third == 0
                || g.has_rows(width, height + third)) && (height <= 2 * third || b.has_rows(
                width,
                height + (height - 2 * third),
            )) && pixels_fit(height, width, pool)
        },
        _ => true,
    }
}

/// Turns a picture into pixels, in a buffer of the pool.
pub fn convert_frame_pix_fmt(
    video_frame: &VideoFrame,
    real_source_pix_fmt: OmvVideoFormat,
    real_height: usize,
    real_width: usize,
    frame_pool: &mut FramePool,
) -> (r: Result<PooledFrameBuffer, String>)
    requires
        old(frame_pool).wf(),
        frame_fits(
            *video_frame,
            real_source_pix_fmt,
            real_height as int,
            real_width as int,
            *old(frame_pool),
        ),
    ensures
        match r {
            Ok(data) => {
                let taken = old(frame_pool).next_bytes();
                &&& final(frame_pool).gave_one(*old(frame_pool))
                &&& match real_source_pix_fmt {
                    OmvVideoFormat::Rgb => data.bytes@ == painted(
                        taken,
                        opaque_pixels(*video_frame),
                        video_frame.width as int,
                        video_frame.height as int,
                    ),
                    OmvVideoFormat::Rgba => data.bytes@ == painted(
                        taken,
                        alpha_pixels(*video_frame, real_height as int),
                        real_width as int,
                        real_height as int,
                    ),
                    OmvVideoFormat::Yuv => if convertible(*video_frame, taken.len() as int) {
                        converted(*video_frame, taken, data.bytes@)
                    } else {
                        data.bytes@ == taken
                    },
                    OmvVideoFormat::Unknown => false,
                }
            },
            Err(message) => {
                &&& real_source_pix_fmt == OmvVideoFormat::Unknown
                &&& message@ == "Unknown real source pixel format"@
                &&& final(frame_pool).wf()
                &&& final(frame_pool).pixel_count == old(frame_pool).pixel_count
                &&& final(frame_pool).max_cached == old(frame_pool).max_cached
                &&& final(frame_pool).cached() == crate::movie::pool::released_all(
                    old(frame_pool).left_after_next(),
                    old(frame_pool).max_cached as int,
                    old(frame_pool).size(),
                    seq![old(frame_pool).next_bytes()],
                )
            },
        },
{
    let bgra_data = frame_pool.acquire();
    match real_source_pix_fmt {
        OmvVideoFormat::Rgb => Ok(convert_fake_rgb_to_bgra(video_frame, bgra_data)),
        OmvVideoFormat::Rgba => Ok(
            convert_fake_rgba_to_bgra(video_frame, real_width, real_height, bgra_data),
        ),
        OmvVideoFormat::Yuv => Ok(convert_yuv444_to_bgra(video_frame, bgra_data)),
        OmvVideoFormat::Unknown => {
            frame_pool.release(bgra_data);
            Err("Unknown real source pixel format".to_owned())
        },
    }
}

/// The pixel in column `x` of row `y` of a picture without alpha: blue is the sample of the third
/// plane there, green that of the second, red that of the first, and alpha is 255. What stands
/// behind the picture is left alone.
pub proof fn law_rgb_pixel(frame: VideoFrame, before: Seq<u8>, x: int, y: int, behind: int)
    requires
        4 * (frame.height * frame.width) <= before.len(),
        0 <= x < frame.width,
        0 <= y < frame.height,
    ensures
        ({
            let after = painted(
                before,
                opaque_pixels(frame),
                frame.width as int,
                frame.height as int,
            );
            let at = 4 * (y * frame.width + x);
            &&& after.len() == before.len()
            &&& 0 <= at
            &&& at + 4 <= 4 * (frame.height * frame.width)
            &&& after[at] == frame.planes[2].data@[y * frame.planes[2].stride + x]
            &&& after[at + 1] == frame.planes[1].data@[y * frame.planes[1].stride + x]
            &&& after[at + 2] == frame.planes[0].data@[y * frame.planes[0].stride + x]
            &&& after[at + 3] == 0xFF
            &&& 4 * (frame.height * frame.width) <= behind < before.len() ==> after[behind]
                == before[behind]
        }),
{
    lemma_pixel_in_picture(x, y, frame.width as int, frame.height as int);
    lemma_place(x, y, frame.width as int, 0);
    lemma_place(x, y, frame.width as int, 1);
    lemma_place(x, y, frame.width as int, 2);
    lemma_place(x, y, frame.width as int, 3);
}

proof fn lemma_pixel_in_picture(x: int, y: int, width: int, height: int)
    requires
        0 <= x < width,
        0 <= y < height,
    ensures
        0 <= y * width + x < height * width,
{
    assert(0 <= y * width && y * width + width <= height * width) by (nonlinear_arith)
        requires
            0 < width,
            0 <= y,
            y + 1 <= height,
    ;
}

/// The pixel in column `x` of row `y` of a picture with alpha: its colours are those that the
/// planes hold there. A third of the rows, rounded up, have their alpha below the first plane, as
/// many more below the second, and the rest below the third, each in its own order.
pub proof fn law_alpha_pixel(
    frame: VideoFrame,
    width: int,
    height: int,
    before: Seq<u8>,
    x: int,
    y: int,
    behind: int,
)
    requires
        4 * (height * width) <= before.len(),
        0 <= x < width,
        0 <= y < height,
    ensures
        ({
            let after = painted(before, alpha_pixels(frame, height), width, height);
            let at = 4 * (y * width + x);
            let third = (height + 2) / 3;
            &&& after.len() == before.len()
            &&& 0 <= at
            &&& at + 4 <= 4 * (height * width)
            &&& after[at] == frame.planes[2].data@[y * frame.planes[2].stride + x]
            &&& after[at + 1] == frame.planes[1].data@[y * frame.planes[1].stride + x]
            &&& after[at + 2] == frame.planes[0].data@[y * frame.planes[0].stride + x]
            &&& after[at + 3] == if y < third {
                frame.planes[0].data@[(height + y) * frame.planes[0].stride + x]
            } else if y < 2 * third {
                frame.planes[1].data@[(height + y - third) * frame.planes[1].stride + x]
            } else {
                frame.planes[2].data@[(height + y - 2 * third) * frame.planes[2].stride + x]
            }
            &&& 4 * (height * width) <= behind < before.len() ==> after[behind] == before[behind]
        }),
{
    let third = (height + 2) / 3;
    lemma_pixel_in_picture(x, y, width, height);
    lemma_place(x, y, width, 0);
    lemma_place(x, y, width, 1);
    lemma_place(x, y, width, 2);
    lemma_place(x, y, width, 3);
    if y < third {
        lemma_fundamental_div_mod_converse(y, third, 0, y);
    } else if y < 2 * third {
        lemma_fundamental_div_mod_converse(y, third, 1, y - third);
    } else {
        lemma_fundamental_div_mod_converse(y, third, 2, y - 2 * third);
    }
}

/// A picture is handed to the colour conversion with its first plane as luma, its second as the
/// blue and its third as the red difference, each with its own stride, in limited range and by the
/// matrix of Rec. 709; every alpha comes out as 255, and what stands behind the picture is left
/// alone.
pub proof fn law_yuv_planes_keep_their_places(
    frame: VideoFrame,
    before: Seq<u8>,
    after: Seq<u8>,
    pixel: int,
    behind: int,
)
    requires
        converted(frame, before, after),
        4 * (frame.height * frame.width) <= before.len(),
        0 <= pixel < frame.height * frame.width,
    ensures
        exists|picture: Seq<u8>| #[trigger]
            bgra_outcome(
                (frame.planes[0].data@, (frame.planes[0].stride as int % 0x1_0000_0000) as u32),
                (frame.planes[1].data@, (frame.planes[1].stride as int % 0x1_0000_0000) as u32),
                (frame.planes[2].data@, (frame.planes[2].stride as int % 0x1_0000_0000) as u32),
                (frame.width, frame.height),
                ColourRange::Limited,
                ColourMatrix::Bt709,
                picture,
            ) && picture == after.take(4 * (frame.height * frame.width)),
        after[4 * pixel + 3] == 0xFF,
        4 * (frame.height * frame.width) <= behind < before.len() ==> after[behind]
            == before[behind],
{
    let len = 4 * (frame.height * frame.width);
    if len <= behind < before.len() {
        assert(after.skip(len)[behind - len] == before.skip(len)[behind - len]);
    }
}

} // verus!

//! Writing a picture of the engine as PNG.

use vstd::prelude::*;

use crate::hook::cstr::{read_cstr_plain, ProgramCStr};
use crate::hook::dump::LockedRect;
use crate::text::{dec, push_dec, push_signed, signed_dec};
use crate::wide::decoded;

verus! {

/// The error of the PNG encoder.
#[verifier::external_type_specification]
#[verifier::external_body]
pub struct ExEncodingError(png::EncodingError);

/// Why a picture cannot be written.
#[derive(Clone, Copy, Debug, PartialEq, Eq, Structural)]
pub enum PictureError {
    InvalidSize { width: i32, height: i32 },
    NullRect,
    UnreadablePath,
    UnsupportedPitch(i32),
    NullBits,
    RowOverflow,
    PitchTooSmall { pitch: usize, row_len: usize },
    BufferOverflow,
}

impl PictureError {
    pub open spec fn text(self) -> Seq<char> {
        match self {
            PictureError::InvalidSize { width, height } => "invalid size width="@ + signed_dec(
                width as int,
            ) + " height="@ + signed_dec(height as int),
            PictureError::NullRect => "D3DLOCKED_RECT is null"@,
            PictureError::UnreadablePath => "failed to read file_path CSTR"@,
            PictureError::UnsupportedPitch(pitch) => "unsupported pitch="@ + signed_dec(
                pitch as int,
            ),
            PictureError::NullBits => "D3DLOCKED_RECT.pBits is null"@,
            PictureError::RowOverflow => "source row length overflow"@,
            PictureError::PitchTooSmall { pitch, row_len } => "pitch too small pitch="@ + dec(
                pitch as nat,
            ) + " row_len="@ + dec(row_len as nat),
            PictureError::BufferOverflow => "png buffer length overflow"@,
        }
    }

    /// What the log says of the error.
    pub fn message(&self) -> (text: String)
        ensures
            text@ == self.text(),
    {
        match *self {
            PictureError::InvalidSize { width, height } => {
                let mut text = "invalid size width=".to_owned();
                push_signed(&mut text, width as i64);
                text.append(" height=");
                push_signed(&mut text, height as i64);
                text
            },
            PictureError::NullRect => "D3DLOCKED_RECT is null".to_owned(),
            PictureError::UnreadablePath => "failed to read file_path CSTR".to_owned(),
            PictureError::UnsupportedPitch(pitch) => {
                let mut text = "unsupported pitch=".to_owned();
                push_signed(&mut text, pitch as i64);
                text
            },
            PictureError::NullBits => "D3DLOCKED_RECT.pBits is null".to_owned(),
            PictureError::RowOverflow => "source row length overflow".to_owned(),
            PictureError::PitchTooSmall { pitch, row_len } => {
                let mut text = "pitch too small pitch=".to_owned();
                push_dec(&mut text, pitch as u64);
                text.append(" row_len=");
                push_dec(&mut text, row_len as u64);
                text
            },
            PictureError::BufferOverflow => "png buffer length overflow".to_owned(),
        }
    }
}

/// A picture that can be written: where to, and how large it is in memory.
#[derive(Debug)]
pub struct PicturePlan {
    pub path: String,
    pub width: usize,
    pub height: usize,
    pub pitch: usize,
}

impl PicturePlan {
    /// Whether the rows do not overlap and the picture as RGB has a length.
    pub open spec fn wf(self) -> bool {
        &&& 0 < self.width <= i32::MAX
        &&& 0 < self.height <= i32::MAX
        &&& 4 * self.width <= self.pitch <= i32::MAX
        &&& 3 * (self.width * self.height) <= usize::MAX
    }

    /// How many bytes of memory the picture takes, from its first row to its last pixel.
    pub open spec fn source_len(self) -> int {
        (self.height - 1) * self.pitch + 4 * self.width
    }

    /// How many bytes of memory the picture takes; `None` where that is more than memory has.
    pub fn memory(&self) -> (len: Option<usize>)
        requires
            self.wf(),
        ensures
            match len {
                Some(len) => len == self.source_len(),
                None => self.source_len() > usize::MAX,
            },
    {
        proof {
            assert((self.height - 1) * self.pitch >= 0) by (nonlinear_arith)
                requires
                    self.height >= 1,
                    self.pitch >= 0,
            ;
        }
        match (self.height - 1).checked_mul(self.pitch) {
            Some(rows) => rows.checked_add(4 * self.width),
            None => None,
        }
    }
}

/// Why a picture of this size cannot be written; `None` where it can.
pub open spec fn picture_fault(
    readable: bool,
    width: i32,
    height: i32,
    rect: Option<LockedRect>,
) -> Option<PictureError> {
    if width <= 0 || height <= 0 {
        Some(PictureError::InvalidSize { width, height })
    } else if rect is None {
        Some(PictureError::NullRect)
    } else if !readable {
        Some(PictureError::UnreadablePath)
    } else if rect->0.pitch <= 0 {
        Some(PictureError::UnsupportedPitch(rect->0.pitch))
    } else if rect->0.bits == 0 {
        Some(PictureError::NullBits)
    } else if 4 * width > usize::MAX {
        Some(PictureError::RowOverflow)
    } else if rect->0.pitch < 4 * width {
        Some(
            PictureError::PitchTooSmall {
                pitch: rect->0.pitch as usize,
                row_len: (4 * width) as usize,
            },
        )
    } else if 3 * (width * height) > usize::MAX {
        Some(PictureError::BufferOverflow)
    } else {
        None
    }
}

/// Looks at what a picture is to be written from.
pub fn plan_picture(
    file_path: Option<&ProgramCStr>,
    width: i32,
    height: i32,
    rect: Option<LockedRect>,
) -> (plan: Result<PicturePlan, PictureError>)
    requires
        file_path matches Some(cstr) ==> cstr.wf(),
    ensures
        ({
            let readable = file_path matches Some(cstr) && cstr.units() is Some;
            match plan {
                Ok(plan) => {
                    &&& picture_fault(readable, width, height, rect) is None
                    &&& plan.wf()
                    &&& plan.path@ == decoded(file_path->0.units()->0)
                    &&& plan.width == width && plan.height == height
                    &&& plan.pitch == rect->0.pitch
                },
                Err(error) => picture_fault(readable, width, height, rect) == Some(error),
            }
        }),
{
    if width <= 0 || height <= 0 {
        return Err(PictureError::InvalidSize { width, height });
    }
    let rect = match rect {
        Some(rect) => rect,
        None => return Err(PictureError::NullRect),
    };
    let path = match read_cstr_plain(file_path) {
        Some(path) => path,
        None => return Err(PictureError::UnreadablePath),
    };
    if rect.pitch <= 0 {
        return Err(PictureError::UnsupportedPitch(rect.pitch));
    }
    if rect.bits == 0 {
        return Err(PictureError::NullBits);
    }
    let pitch: usize = rect.pitch as usize;
    let w: usize = width as usize;
    let h: usize = height as usize;
    let row_len: usize = match w.checked_mul(4) {
        Some(row_len) => row_len,
        None => return Err(PictureError::RowOverflow),
    };
    if pitch < row_len {
        return Err(PictureError::PitchTooSmall { pitch, row_len });
    }
    assert(w * h == width * height);
    let pixels: usize = match w.checked_mul(h) {
        Some(pixels) => pixels,
        None => return Err(PictureError::BufferOverflow),
    };
    if pixels.checked_mul(3).is_none() {
        return Err(PictureError::BufferOverflow);
    }
    Ok(PicturePlan { path, width: w, height: h, pitch })
}

/// The first `width` pixels of a row, as RGB.
pub open spec fn row_rgb(row: Seq<u8>, width: nat) -> Seq<u8> {
    Seq::new(3 * width, |i: int| row[4 * (i / 3) + 2 - i % 3])
}

/// The first `rows` rows of a picture, as RGB.
pub open spec fn picture_rgb(bits: Seq<u8>, width: nat, pitch: int, rows: int) -> Seq<u8>
    decreases rows,
{
    if rows <= 0 {
        seq![]
    } else {
        picture_rgb(bits, width, pitch, rows - 1) + row_rgb(bits.skip((rows - 1) * pitch), width)
    }
}

/// Turns four pixels into RGB.
pub fn convert_shift_r(bgra: &[u8; 16]) -> (rgb: [u8; 12])
    ensures
        rgb@ == row_rgb(bgra@, 4),
{
    let rgb: [u8; 12] = [
        bgra[2],
        bgra[1],
        bgra[0],
        bgra[6],
        bgra[5],
        bgra[4],
        bgra[10],
        bgra[9],
        bgra[8],
        bgra[14],
        bgra[13],
        bgra[12],
    ];
    assert(rgb@ =~= row_rgb(bgra@, 4));
    rgb
}

/// Appends the first `width` pixels of a row as RGB.
pub fn append_bgra_row_as_rgb(source: &[u8], width: usize, output: &mut Vec<u8>)
    requires
        4 * width <= source.len(),
    ensures
        final(output)@ == old(output)@ + row_rgb(source@, width as nat),
{
    let chunks: usize = width / 4;
    let mut chunk: usize = 0;
    while chunk < chunks
        invariant
            chunk <= chunks,
            chunks == width / 4,
            4 * width <= source.len(),
            output@ == old(output)@ + row_rgb(source@, (4 * chunk) as nat),
        decreases chunks - chunk,
    {
        let at: usize = 16 * chunk;
        let bgra: [u8; 16] = [
            source[at],
            source[at + 1],
            source[at + 2],
            source[at + 3],
            source[at + 4],
            source[at + 5],
            source[at + 6],
            source[at + 7],
            source[at + 8],
            source[at + 9],
            source[at + 10],
            source[at + 11],
            source[at + 12],
            source[at + 13],
            source[at + 14],
            source[at + 15],
        ];
        let rgb = convert_shift_r(&bgra);
        let ghost before = output@;
        output.extend_from_slice(&rgb);
        proof {
            let next = row_rgb(source@, (4 * (chunk + 1)) as nat);
            assert forall|i: int| 0 <= i < 12 implies #[trigger] rgb@[i] == next[12 * chunk
                + i] by {
                assert((12 * chunk + i) / 3 == 4 * chunk + i / 3);
                assert((12 * chunk + i) % 3 == i % 3);
                let k = 4 * (i / 3) + 2 - i % 3;
                assert(bgra@[k] == source@[at + k]);
            }
            assert(output@ =~= old(output)@ + next) by {
                assert(before + rgb@ =~= old(output)@ + next);
            }
        }
        chunk += 1;
    }
    let mut pixel: usize = 4 * chunks;
    while pixel < width
        invariant
            pixel <= width,
            4 * width <= source.len(),
            output@ == old(output)@ + row_rgb(source@, pixel as nat),
        decreases width - pixel,
    {
        let at: usize = 4 * pixel;
        output.push(source[at + 2]);
        output.push(source[at + 1]);
        output.push(source[at]);
        assert(output@ =~= old(output)@ + row_rgb(source@, (pixel + 1) as nat));
        pixel += 1;
    }
}

/// The picture as RGB.
pub fn picture_as_rgb(plan: &PicturePlan, bits: &[u8]) -> (rgb: Vec<u8>)
    requires
        plan.wf(),
        bits@.len() == plan.source_len(),
    ensures
        rgb@ == picture_rgb(bits@, plan.width as nat, plan.pitch as int, plan.height as int),
        rgb@.len() == 3 * (plan.width * plan.height),
{
    let mut rgb: Vec<u8> = Vec::new();
    let mut y: usize = 0;
    while y < plan.height
        invariant
            y <= plan.height,
            plan.wf(),
            bits@.len() == plan.source_len(),
            rgb@ == picture_rgb(bits@, plan.width as nat, plan.pitch as int, y as int),
            rgb@.len() == 3 * (plan.width * y),
        decreases plan.height - y,
    {
        assert(bits@.len() == bits.len());
        assert(0 <= y * plan.pitch <= (plan.height - 1) * plan.pitch) by (nonlinear_arith)
            requires
                0 <= y <= plan.height - 1,
                plan.pitch >= 0,
        ;
        let start: usize = y * plan.pitch;
        append_bgra_row_as_rgb(&bits[start..bits.len()], plan.width, &mut rgb);
        assert(bits@.subrange(start as int, bits@.len() as int) =~= bits@.skip(start as int));
        assert(plan.width * (y + 1) == plan.width * y + plan.width) by (nonlinear_arith);
        y += 1;
    }
    rgb
}

/// The number of the colour type with red, green and blue.
pub const PNG_RGB: u8 = 2;

/// The number of the colour type with red, green, blue and alpha.
pub const PNG_RGBA: u8 = 6;

/// The number of the filter that leaves rows as they are.
pub const PNG_NO_FILTER: u8 = 0;

/// How hard a PNG file is packed.
#[derive(Clone, Copy, Debug, PartialEq, Eq, Structural)]
pub enum PngCompression {
    Default,
    Fast,
}

/// How a PNG file is written. Colour type, depth and filter are the numbers that the format has
/// for them.
#[derive(Clone, Copy, Debug, PartialEq, Eq, Structural)]
pub struct PngSettings {
    pub colour_type: u8,
    pub bit_depth: u8,
    pub filter: u8,
    pub compression: PngCompression,
}

impl PngSettings {
    /// Whether pixels are red, green and blue, with or without alpha, in one or two bytes each,
    /// and the filter is one that the format has.
    pub open spec fn wf(self) -> bool {
        &&& self.colour_type == PNG_RGB || self.colour_type == PNG_RGBA
        &&& self.bit_depth == 8 || self.bit_depth == 16
        &&& self.filter <= 4
    }

    /// How many bytes a pixel takes.
    pub open spec fn pixel_bytes(self) -> int {
        (if self.colour_type == PNG_RGB {
            3int
        } else {
            4int
        }) * (self.bit_depth / 8)
    }
}

/// The settings for the engine's pictures: 8-bit RGB, without filters and quickly packed.
pub open spec fn picture_settings() -> PngSettings {
    PngSettings {
        colour_type: PNG_RGB,
        bit_depth: 8,
        filter: PNG_NO_FILTER,
        compression: PngCompression::Fast,
    }
}

/// The PNG file of a picture.
pub uninterp spec fn png_bytes(
    pixels: Seq<u8>,
    width: u32,
    height: u32,
    settings: PngSettings,
) -> Seq<u8>;

/// Encodes a picture with `png::Encoder` into memory. The claim is that this succeeds exactly where
/// the picture has a width and a height and `pixels` holds all of its pixels, and that what is
/// written then depends on the arguments alone. It is made of fast compression only: what the
/// default one writes rests on the packing library that the encoder was built with.
#[verifier::external_body]
fn png_encode(pixels: &[u8], width: u32, height: u32, settings: PngSettings) -> (file: Result<
    Vec<u8>,
    png::EncodingError,
>)
    requires
        settings.wf(),
        settings.compression == PngCompression::Fast,
        settings.pixel_bytes() * (width * height) <= usize::MAX,
        settings.pixel_bytes() * width < usize::MAX,
    ensures
        match file {
            Ok(file) => {
                &&& width > 0
                &&& height > 0
                &&& pixels@.len() == settings.pixel_bytes() * (width * height)
                &&& file@ == png_bytes(pixels@, width, height, settings)
            },
            Err(_) => width == 0 || height == 0 || pixels@.len() != settings.pixel_bytes() * (width
                * height),
        },
{
    let mut file: Vec<u8> = Vec::new();
    let mut encoder = png::Encoder::new(&mut file, width, height);
    encoder.set_color(png::ColorType::from_u8(settings.colour_type).unwrap());
    encoder.set_depth(png::BitDepth::from_u8(settings.bit_depth).unwrap());
    encoder.set_filter(png::FilterType::from_u8(settings.filter).unwrap());
    encoder.set_compression(match settings.compression {
        PngCompression::Default => png::Compression::Default,
        PngCompression::Fast => png::Compression::Fast,
    });
    let mut writer = encoder.write_header()?;
    writer.write_image_data(pixels)?;
    drop(writer);
    Ok(file)
}

/// Which part of a PNG file could not be written.
pub enum PngFault {
    Header(png::EncodingError),
    Data(png::EncodingError),
}

/// Encodes a picture in 8-bit RGB, without filters and quickly packed.
pub fn encode_png(rgb: &[u8], width: u32, height: u32) -> (file: Result<Vec<u8>, PngFault>)
    requires
        3 * (width * height) <= usize::MAX,
        3 * width < usize::MAX,
    ensures
        match file {
            Ok(file) => width > 0 && height > 0 && rgb@.len() == 3 * (width * height) && file@
                == png_bytes(rgb@, width, height, picture_settings()),
            Err(PngFault::Header(_)) => width == 0 || height == 0,
            Err(PngFault::Data(_)) => width > 0 && height > 0 && rgb@.len() != 3 * (width * height),
        },
        file matches Ok(file) ==> file@ == png_bytes(
            rgb@,
            width,
            height,
            (PngSettings {
                colour_type: 2,
                bit_depth: 8,
                filter: 0,
                compression: PngCompression::Fast,
            }),
        ),
{
    let settings = PngSettings {
        colour_type: PNG_RGB,
        bit_depth: 8,
        filter: PNG_NO_FILTER,
        compression: PngCompression::Fast,
    };
    match png_encode(rgb, width, height, settings) {
        Ok(file) => Ok(file),
        Err(error) => if width == 0 || height == 0 {
            Err(PngFault::Header(error))
        } else {
            Err(PngFault::Data(error))
        },
    }
}

/// The PNG file of a picture in memory.
pub fn write_png_from_texture(
    plan: &PicturePlan,
    bits: &[u8],
) -> (file: Result<Vec<u8>, PngFault>)
    requires
        plan.wf(),
        bits@.len() == plan.source_len(),
    ensures
        file matches Ok(file) && file@ == png_bytes(
            picture_rgb(bits@, plan.width as nat, plan.pitch as int, plan.height as int),
            plan.width as u32,
            plan.height as u32,
            picture_settings(),
        ),
{
    let rgb = picture_as_rgb(plan, bits);
    encode_png(&rgb, plan.width as u32, plan.height as u32)
}

/// A picture as RGB has three bytes to a pixel and no more: the red, green and blue of the pixel
/// that stands as far into its row, that row as many pitches into memory, blue first.
pub proof fn law_picture_pixel(
    bits: Seq<u8>,
    width: nat,
    pitch: int,
    height: int,
    x: int,
    y: int,
)
    requires
        0 <= x < width,
        0 <= y < height,
        4 * width <= pitch,
        (height - 1) * pitch + 4 * width <= bits.len(),
    ensures
        ({
            let rgb = picture_rgb(bits, width, pitch, height);
            let at = 3 * (y * width + x);
            let from = y * pitch + 4 * x;
            &&& rgb.len() == 3 * (width * height)
            &&& 0 <= at && at + 3 <= rgb.len()
            &&& rgb[at] == bits[from + 2]
            &&& rgb[at + 1] == bits[from + 1]
            &&& rgb[at + 2] == bits[from]
        }),
    decreases height,
{
    let front = picture_rgb(bits, width, pitch, height - 1);
    let last = height - 1;
    let row = bits.skip(last * pitch);
    assert(0 <= last * pitch) by (nonlinear_arith)
        requires
            0 <= last,
            0 <= pitch,
    ;
    assert(width * height == width * last + width) by (nonlinear_arith)
        requires
            height == last + 1,
    ;
    assert(width * last == last * width) by (nonlinear_arith);
    assert(0 <= y * width) by (nonlinear_arith)
        requires
            0 <= y,
            0 <= width,
    ;
    lemma_picture_length(bits, width, pitch, last);
    if y < last {
        assert(last * pitch == (last - 1) * pitch + pitch) by (nonlinear_arith);
        assert(y * width + width <= last * width) by (nonlinear_arith)
            requires
                y + 1 <= last,
                0 <= width,
        ;
        law_picture_pixel(bits, width, pitch, last, x, y);
    } else {
        let at = 3 * (y * width + x);
        assert(row_rgb(row, width)[3 * x] == row[4 * x + 2]) by {
            assert((3 * x) / 3 == x && (3 * x) % 3 == 0);
        }
        assert(row_rgb(row, width)[3 * x + 1] == row[4 * x + 1]) by {
            assert((3 * x + 1) / 3 == x && (3 * x + 1) % 3 == 1);
        }
        assert(row_rgb(row, width)[3 * x + 2] == row[4 * x]) by {
            assert((3 * x + 2) / 3 == x && (3 * x + 2) % 3 == 2);
        }
    }
}

proof fn lemma_picture_length(bits: Seq<u8>, width: nat, pitch: int, rows: int)
    requires
        0 <= rows,
    ensures
        picture_rgb(bits, width, pitch, rows).len() == 3 * (width * rows),
    decreases rows,
{
    if rows > 0 {
        lemma_picture_length(bits, width, pitch, rows - 1);
        assert(width * rows == width * (rows - 1) + width) by (nonlinear_arith);
    } else {
        assert(width * 0 == 0) by (nonlinear_arith);
    }
}

} // verus!

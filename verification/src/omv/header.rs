//! Reading the fixed header in front of an OMV movie.

use vstd::prelude::*;
use vstd::string::to_string_from_display_ensures;

use crate::bytes::u32_at;
use crate::text::{dec, push_dec, push_signed, signed_dec};

verus! {

/// How many bytes the header takes.
pub const OMV_HEADER_SIZE: usize = 168;

/// A width and a height.
#[derive(Clone, Copy, Debug)]
pub struct CSize {
    pub cx: i32,
    pub cy: i32,
}

/// A position.
#[derive(Clone, Copy, Debug)]
pub struct CPoint {
    pub x: i32,
    pub y: i32,
}

/// The header in front of an OMV movie.
#[derive(Clone, Copy, Debug)]
pub struct OmvHeader {
    pub header_size: i32,
    pub major_version: u8,
    pub minor_version: u8,
    pub dummy: [u8; 2],
    pub keep00: [u8; 32],
    pub theora_type: i32,
    pub theora_size: CSize,
    pub theora_center: CPoint,
    pub theora_us_per_frame: i32,
    pub theora_serial_no: i32,
    pub theora_header_page_no: i32,
    pub theora_subheader_page_no: i32,
    pub theora_page_cnt: i32,
    pub theora_packet_cnt: i32,
    pub keep01: [u8; 32],
    pub vorbis_serial_no: i32,
    pub vorbis_header_page_no: i32,
    pub vorbis_subheader_page_no: i32,
    pub vorbis_page_cnt: i32,
    pub vorbis_packet_cnt: i32,
    pub keep02: [u8; 32],
}

/// Why a header could not be read.
#[derive(Debug)]
pub enum OmvReadError {
    Io(std::io::Error),
    TooSmall { actual: usize, needed: usize },
}

impl From<std::io::Error> for OmvReadError {
    fn from(error: std::io::Error) -> (r: OmvReadError) {
        OmvReadError::Io(error)
    }
}

impl vstd::std_specs::convert::FromSpecImpl<std::io::Error> for OmvReadError {
    open spec fn obeys_from_spec() -> bool {
        true
    }

    open spec fn from_spec(error: std::io::Error) -> OmvReadError {
        OmvReadError::Io(error)
    }
}

/// The four bytes from `at` on as a signed number in two's complement, the low byte first.
pub open spec fn i32_at(b: Seq<u8>, at: int) -> int {
    if u32_at(b, at) < 0x8000_0000 {
        u32_at(b, at) as int
    } else {
        u32_at(b, at) - 0x1_0000_0000
    }
}

/// Reads four bytes with `bytemuck::pod_read_unaligned`, which gives the number that they are in
/// memory on this machine, and takes that number as little-endian.
#[verifier::external_body]
fn read_i32(bytes: &[u8]) -> (v: i32)
    requires
        bytes@.len() == 4,
    ensures
        v == i32_at(bytes@, 0),
{
    i32::from_le(bytemuck::pod_read_unaligned::<i32>(bytes))
}

/// The signed number at `at`.
fn get_i32(bytes: &[u8], at: usize) -> (v: i32)
    requires
        at + 4 <= bytes.len(),
    ensures
        v == i32_at(bytes@, at as int),
{
    proof {
        crate::bytes::lemma_u32_same(bytes@.subrange(at as int, at + 4), 0, bytes@, at as int);
    }
    read_i32(&bytes[at..at + 4])
}

/// The 32 bytes from `at` on.
fn get_32_bytes(bytes: &[u8], at: usize) -> (kept: [u8; 32])
    requires
        at + 32 <= bytes.len(),
    ensures
        kept@ == bytes@.subrange(at as int, at + 32),
{
    let mut kept: [u8; 32] = [0u8; 32];
    let mut i: usize = 0;
    while i < 32
        invariant
            at + 32 <= bytes.len(),
            i <= 32,
            forall|j: int| 0 <= j < i ==> kept@[j] == bytes@[at + j],
        decreases 32 - i,
    {
        kept[i] = bytes[at + i];
        i += 1;
    }
    assert(kept@ =~= bytes@.subrange(at as int, at + 32));
    kept
}

impl OmvHeader {
    /// Whether this is the header that `b` starts with.
    pub open spec fn starts(self, b: Seq<u8>) -> bool {
        &&& self.header_size == i32_at(b, 0)
        &&& self.major_version == b[4]
        &&& self.minor_version == b[5]
        &&& self.dummy@ == b.subrange(6, 8)
        &&& self.keep00@ == b.subrange(8, 40)
        &&& self.theora_type == i32_at(b, 40)
        &&& self.theora_size.cx == i32_at(b, 44)
        &&& self.theora_size.cy == i32_at(b, 48)
        &&& self.theora_center.x == i32_at(b, 52)
        &&& self.theora_center.y == i32_at(b, 56)
        &&& self.theora_us_per_frame == i32_at(b, 60)
        &&& self.theora_serial_no == i32_at(b, 64)
        &&& self.theora_header_page_no == i32_at(b, 68)
        &&& self.theora_subheader_page_no == i32_at(b, 72)
        &&& self.theora_page_cnt == i32_at(b, 76)
        &&& self.theora_packet_cnt == i32_at(b, 80)
        &&& self.keep01@ == b.subrange(84, 116)
        &&& self.vorbis_serial_no == i32_at(b, 116)
        &&& self.vorbis_header_page_no == i32_at(b, 120)
        &&& self.vorbis_subheader_page_no == i32_at(b, 124)
        &&& self.vorbis_page_cnt == i32_at(b, 128)
        &&& self.vorbis_packet_cnt == i32_at(b, 132)
        &&& self.keep02@ == b.subrange(136, 168)
    }

    /// Reads the header from the bytes of a header.
    pub fn from_bytes(bytes: &[u8]) -> (header: OmvHeader)
        requires
            bytes@.len() == OMV_HEADER_SIZE,
        ensures
            header.starts(bytes@),
    {
        let dummy: [u8; 2] = [bytes[6], bytes[7]];
        assert(dummy@ =~= bytes@.subrange(6, 8));
        OmvHeader {
            header_size: get_i32(bytes, 0),
            major_version: bytes[4],
            minor_version: bytes[5],
            dummy,
            keep00: get_32_bytes(bytes, 8),
            theora_type: get_i32(bytes, 40),
            theora_size: CSize { cx: get_i32(bytes, 44), cy: get_i32(bytes, 48) },
            theora_center: CPoint { x: get_i32(bytes, 52), y: get_i32(bytes, 56) },
            theora_us_per_frame: get_i32(bytes, 60),
            theora_serial_no: get_i32(bytes, 64),
            theora_header_page_no: get_i32(bytes, 68),
            theora_subheader_page_no: get_i32(bytes, 72),
            theora_page_cnt: get_i32(bytes, 76),
            theora_packet_cnt: get_i32(bytes, 80),
            keep01: get_32_bytes(bytes, 84),
            vorbis_serial_no: get_i32(bytes, 116),
            vorbis_header_page_no: get_i32(bytes, 120),
            vorbis_subheader_page_no: get_i32(bytes, 124),
            vorbis_page_cnt: get_i32(bytes, 128),
            vorbis_packet_cnt: get_i32(bytes, 132),
            keep02: get_32_bytes(bytes, 136),
        }
    }

    /// Reads the header that some bytes start with.
    pub fn read_from_prefix(bytes: &[u8]) -> (r: Result<OmvHeader, OmvReadError>)
        ensures
            match r {
                Ok(header) => bytes@.len() >= OMV_HEADER_SIZE && header.starts(bytes@),
                Err(error) => {
                    &&& bytes@.len() < OMV_HEADER_SIZE
                    &&& error matches OmvReadError::TooSmall { actual, needed }
                    &&& actual == bytes@.len()
                    &&& needed == OMV_HEADER_SIZE
                },
            },
    {
        if bytes.len() < OMV_HEADER_SIZE {
            return Err(OmvReadError::TooSmall { actual: bytes.len(), needed: OMV_HEADER_SIZE });
        }
        let prefix = &bytes[0..OMV_HEADER_SIZE];
        let header = OmvHeader::from_bytes(prefix);
        proof {
            lemma_prefix_header(header, bytes@);
        }
        Ok(header)
    }

    /// Reads the header from what reading a file gave.
    pub fn read_from_file(contents: Result<Vec<u8>, std::io::Error>) -> (r: Result<
        OmvHeader,
        OmvReadError,
    >)
        ensures
            match contents {
                Err(error) => r == Err::<OmvHeader, OmvReadError>(OmvReadError::Io(error)),
                Ok(bytes) => match r {
                    Ok(header) => bytes@.len() >= OMV_HEADER_SIZE && header.starts(bytes@),
                    Err(error) => bytes@.len() < OMV_HEADER_SIZE && (error
                        matches OmvReadError::TooSmall { actual, needed } && actual
                        == bytes@.len() && needed == OMV_HEADER_SIZE),
                },
            },
    {
        match contents {
            Ok(bytes) => OmvHeader::read_from_prefix(&bytes),
            Err(error) => Err(OmvReadError::from(error)),
        }
    }

    /// The words for the kind of picture.
    pub open spec fn type_text(self) -> Seq<char> {
        match self.theora_type {
            0 => "RGB"@,
            1 => "RGBA"@,
            2 => "YUV"@,
            _ => "unknown"@,
        }
    }

    /// What the kind of picture is called.
    pub fn theora_type_name(&self) -> (name: &'static str)
        ensures
            name@ == self.type_text(),
    {
        match self.theora_type {
            0 => "RGB",
            1 => "RGBA",
            2 => "YUV",
            _ => "unknown",
        }
    }
}

/// A header that is read from the front of some bytes is the header that they start with.
proof fn lemma_prefix_header(header: OmvHeader, b: Seq<u8>)
    requires
        b.len() >= OMV_HEADER_SIZE,
        header.starts(b.subrange(0, OMV_HEADER_SIZE as int)),
    ensures
        header.starts(b),
{
    let p = b.subrange(0, OMV_HEADER_SIZE as int);
    assert forall|at: int| 0 <= at <= 164 implies #[trigger] i32_at(p, at) == i32_at(b, at) by {
        crate::bytes::lemma_u32_same(p, at, b, at);
    }
    assert(p.subrange(6, 8) =~= b.subrange(6, 8));
    assert(p.subrange(8, 40) =~= b.subrange(8, 40));
    assert(p.subrange(84, 116) =~= b.subrange(84, 116));
    assert(p.subrange(136, 168) =~= b.subrange(136, 168));
}

/// A name, a colon and a number, on a line of its own.
pub open spec fn field_line(name: Seq<char>, value: i32) -> Seq<char> {
    name + ": "@ + signed_dec(value as int) + "\n"@
}

fn push_field(out: &mut String, name: &str, value: i32)
    ensures
        final(out)@ == old(out)@ + field_line(name@, value),
{
    out.append(name);
    out.append(": ");
    push_signed(out, value as i64);
    out.append("\n");
    assert(out@ =~= old(out)@ + field_line(name@, value));
}

impl OmvHeader {
    /// The lines of the header that speak of the movie as a whole and of its pictures.
    pub open spec fn picture_text(self) -> Seq<char> {
        field_line("header_size"@, self.header_size) + ("version: "@ + dec(
            self.major_version as nat,
        ) + "."@ + dec(self.minor_version as nat) + "\n"@) + ("theora_type: "@ + signed_dec(
            self.theora_type as int,
        ) + " ("@ + self.type_text() + ")\n"@) + ("theora_size: "@ + signed_dec(
            self.theora_size.cx as int,
        ) + "x"@ + signed_dec(self.theora_size.cy as int) + "\n"@) + ("theora_center: "@
            + signed_dec(self.theora_center.x as int) + ", "@ + signed_dec(
            self.theora_center.y as int,
        ) + "\n"@)
    }

    /// The lines of the header that count pages and packets.
    pub open spec fn stream_text(self) -> Seq<char> {
        field_line("theora_us_per_frame"@, self.theora_us_per_frame) + field_line(
            "theora_serial_no"@,
            self.theora_serial_no,
        ) + field_line("theora_header_page_no"@, self.theora_header_page_no) + field_line(
            "theora_subheader_page_no"@,
            self.theora_subheader_page_no,
        ) + field_line("theora_page_cnt"@, self.theora_page_cnt) + field_line(
            "theora_packet_cnt"@,
            self.theora_packet_cnt,
        ) + field_line("vorbis_serial_no"@, self.vorbis_serial_no) + field_line(
            "vorbis_header_page_no"@,
            self.vorbis_header_page_no,
        ) + field_line("vorbis_subheader_page_no"@, self.vorbis_subheader_page_no) + field_line(
            "vorbis_page_cnt"@,
            self.vorbis_page_cnt,
        ) + ("vorbis_packet_cnt: "@ + signed_dec(self.vorbis_packet_cnt as int))
    }

    fn push_picture_text(&self, out: &mut String)
        ensures
            final(out)@ == old(out)@ + self.picture_text(),
    {
        push_field(out, "header_size", self.header_size);
        out.append("version: ");
        push_dec(out, self.major_version as u64);
        out.append(".");
        push_dec(out, self.minor_version as u64);
        out.append("\n");
        out.append("theora_type: ");
        push_signed(out, self.theora_type as i64);
        out.append(" (");
        out.append(self.theora_type_name());
        out.append(")\n");
        out.append("theora_size: ");
        push_signed(out, self.theora_size.cx as i64);
        out.append("x");
        push_signed(out, self.theora_size.cy as i64);
        out.append("\n");
        out.append("theora_center: ");
        push_signed(out, self.theora_center.x as i64);
        out.append(", ");
        push_signed(out, self.theora_center.y as i64);
        out.append("\n");
        assert(out@ =~= old(out)@ + self.picture_text());
    }

    fn push_stream_text(&self, out: &mut String)
        ensures
            final(out)@ == old(out)@ + self.stream_text(),
    {
        push_field(out, "theora_us_per_frame", self.theora_us_per_frame);
        push_field(out, "theora_serial_no", self.theora_serial_no);
        push_field(out, "theora_header_page_no", self.theora_header_page_no);
        push_field(out, "theora_subheader_page_no", self.theora_subheader_page_no);
        push_field(out, "theora_page_cnt", self.theora_page_cnt);
        push_field(out, "theora_packet_cnt", self.theora_packet_cnt);
        push_field(out, "vorbis_serial_no", self.vorbis_serial_no);
        push_field(out, "vorbis_header_page_no", self.vorbis_header_page_no);
        push_field(out, "vorbis_subheader_page_no", self.vorbis_subheader_page_no);
        push_field(out, "vorbis_page_cnt", self.vorbis_page_cnt);
        out.append("vorbis_packet_cnt: ");
        push_signed(out, self.vorbis_packet_cnt as i64);
        assert(out@ =~= old(out)@ + self.stream_text());
    }

    /// The header, field by field, in words.
    pub fn to_text(&self) -> (text: String)
        ensures
            text@ == self.picture_text() + self.stream_text(),
    {
        let mut text: String = String::new();
        self.push_picture_text(&mut text);
        self.push_stream_text(&mut text);
        text
    }
}

impl OmvReadError {
    /// The failure in words; that of reading a file is what the system's error is shown as.
    pub fn message(&self) -> (message: String)
        ensures
            match self {
                OmvReadError::Io(error) => to_string_from_display_ensures(error, message),
                OmvReadError::TooSmall { actual, needed } => message@
                    == "file is too small for OMV header: "@ + dec(*actual as nat) + " < "@ + dec(
                    *needed as nat,
                ),
            },
    {
        match self {
            OmvReadError::Io(error) => error.to_string(),
            OmvReadError::TooSmall { actual, needed } => {
                let mut message: String = "file is too small for OMV header: ".to_owned();
                push_dec(&mut message, *actual as u64);
                message.append(" < ");
                push_dec(&mut message, *needed as u64);
                message
            },
        }
    }
}

} // verus!

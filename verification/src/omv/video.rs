//! What a player needs to know of a movie before it opens it.

use vstd::prelude::*;

use crate::bytes::u32_at;
use crate::omv::header::{i32_at, OmvHeader, OMV_HEADER_SIZE};

verus! {

/// How the pictures of a movie are stored.
#[derive(Clone, Copy, Debug, PartialEq, Eq, Structural)]
pub enum OmvVideoFormat {
    Rgb,
    Rgba,
    Yuv,
    Unknown,
}

impl From<i32> for OmvVideoFormat {
    fn from(value: i32) -> (format: OmvVideoFormat) {
        match value {
            0 => OmvVideoFormat::Rgb,
            1 => OmvVideoFormat::Rgba,
            2 => OmvVideoFormat::Yuv,
            _ => OmvVideoFormat::Unknown,
        }
    }
}

impl vstd::std_specs::convert::FromSpecImpl<i32> for OmvVideoFormat {
    open spec fn obeys_from_spec() -> bool {
        true
    }

    open spec fn from_spec(value: i32) -> OmvVideoFormat {
        match value {
            0 => OmvVideoFormat::Rgb,
            1 => OmvVideoFormat::Rgba,
            2 => OmvVideoFormat::Yuv,
            _ => OmvVideoFormat::Unknown,
        }
    }
}

/// The picture of a movie, and where its stream starts in the file.
#[derive(Clone, Copy, Debug)]
pub struct OmvVideoInfo {
    pub format: OmvVideoFormat,
    pub display_width: u32,
    pub display_height: u32,
    pub payload_offset: usize,
}

pub const THEORA_PAGE_ENTRY_SIZE: usize = 0x1c;

pub const THEORA_PACKET_ENTRY_SIZE: usize = 0x20;

/// What came of reading the front of a movie file.
pub enum HeaderRead {
    /// The file was not opened, for this reason.
    NotOpened(String),
    /// The file has no whole header to read, for this reason.
    NotRead(String),
    Read([u8; 168]),
}

/// Where the stream of a movie with these counts starts: behind the header, the table of pages
/// and the table of packets.
pub open spec fn payload_start(page_cnt: int, packet_cnt: int) -> int {
    OMV_HEADER_SIZE + page_cnt * THEORA_PAGE_ENTRY_SIZE + packet_cnt * THEORA_PACKET_ENTRY_SIZE
}

impl HeaderRead {
    /// What is wrong with the file, or `None`.
    pub open spec fn fault(self) -> Option<Seq<char>> {
        match self {
            HeaderRead::NotOpened(reason) => Some("Failed to open file: "@ + reason@),
            HeaderRead::NotRead(reason) => Some("Failed to read header: "@ + reason@),
            HeaderRead::Read(b) => if i32_at(b@, 44) <= 0 || i32_at(b@, 48) <= 0 {
                Some("Invalid video dimensions in header"@)
            } else if i32_at(b@, 76) < 0 || i32_at(b@, 80) < 0 {
                Some("Invalid page or packet count in header"@)
            } else {
                None
            },
        }
    }

    /// Whether the start of the stream is an address of this machine, where the header is sound.
    pub open spec fn fits(self) -> bool {
        self.fault() is None ==> payload_start(
            i32_at(self->Read_0@, 76),
            i32_at(self->Read_0@, 80),
        ) <= usize::MAX
    }

    /// Whether the start of the stream is an address of this machine, where the header is sound.
    pub fn payload_fits(&self) -> (fits: bool)
        ensures
            fits == self.fits(),
    {
        match self {
            HeaderRead::Read(bytes) => {
                let header = OmvHeader::from_bytes(bytes);
                if header.theora_size.cx <= 0 || header.theora_size.cy <= 0
                    || header.theora_page_cnt < 0 || header.theora_packet_cnt < 0 {
                    return true;
                }
                let start: u64 = OMV_HEADER_SIZE as u64 + header.theora_page_cnt as u64 * 0x1c
                    + header.theora_packet_cnt as u64 * 0x20;
                start <= usize::MAX as u64
            },
            _ => true,
        }
    }
}

impl OmvVideoInfo {
    /// Works out what a player needs from the front of a movie file.
    pub fn from_path(read: &HeaderRead) -> (r: Result<OmvVideoInfo, String>)
        requires
            read.fits(),
        ensures
            match r {
                Ok(info) => {
                    let b = read->Read_0@;
                    &&& read.fault() is None
                    &&& info.format == <OmvVideoFormat as vstd::std_specs::convert::FromSpec<
                        i32,
                    >>::from_spec(i32_at(b, 40) as i32)
                    &&& info.display_width == i32_at(b, 44)
                    &&& info.display_height == i32_at(b, 48)
                    &&& info.payload_offset == payload_start(i32_at(b, 76), i32_at(b, 80))
                    &&& 0 < info.display_width <= i32::MAX
                    &&& 0 < info.display_height <= i32::MAX
                    &&& 168 <= info.payload_offset
                },
                Err(message) => read.fault() == Some(message@),
            },
    {
        let bytes = match read {
            HeaderRead::NotOpened(reason) => {
                return Err("Failed to open file: ".to_owned().concat(reason.as_str()));
            },
            HeaderRead::NotRead(reason) => {
                return Err("Failed to read header: ".to_owned().concat(reason.as_str()));
            },
            HeaderRead::Read(bytes) => bytes,
        };
        let header = OmvHeader::from_bytes(bytes);
        if header.theora_size.cx <= 0 || header.theora_size.cy <= 0 {
            return Err("Invalid video dimensions in header".to_owned());
        }
        if header.theora_page_cnt < 0 || header.theora_packet_cnt < 0 {
            return Err("Invalid page or packet count in header".to_owned());
        }
        Ok(
            OmvVideoInfo {
                format: OmvVideoFormat::from(header.theora_type),
                display_width: header.theora_size.cx as u32,
                display_height: header.theora_size.cy as u32,
                payload_offset: OMV_HEADER_SIZE + header.theora_page_cnt as usize
                    * THEORA_PAGE_ENTRY_SIZE + header.theora_packet_cnt as usize
                    * THEORA_PACKET_ENTRY_SIZE,
            },
        )
    }
}

/// A header is sound exactly where the picture has a width and a height, both above zero, and
/// neither table has a negative count: the highest bit of a number is that of its fourth byte.
pub proof fn law_sound_headers(b: [u8; 168])
    ensures
        HeaderRead::Read(b).fault() is None <==> {
            &&& b@[47] < 0x80
            &&& !(b@[44] == 0 && b@[45] == 0 && b@[46] == 0 && b@[47] == 0)
            &&& b@[51] < 0x80
            &&& !(b@[48] == 0 && b@[49] == 0 && b@[50] == 0 && b@[51] == 0)
            &&& b@[79] < 0x80
            &&& b@[83] < 0x80
        },
{
    reveal(u32_at);
}

/// The stream starts behind the header and its two tables, of 28 bytes for a page and 32 for a
/// packet: at the header's end where both are empty, and as much later as a table grows.
pub proof fn law_stream_starts_behind_its_tables(pages: int, packets: int, more: int)
    ensures
        payload_start(0, 0) == 168,
        payload_start(pages + more, packets) == payload_start(pages, packets) + 28 * more,
        payload_start(pages, packets + more) == payload_start(pages, packets) + 32 * more,
{
}

} // verus!

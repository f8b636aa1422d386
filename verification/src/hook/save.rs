//! Putting off the packing of save data until it is written.

use vstd::prelude::*;

use crate::bytes::{get_u32, splice, u32_at, u32_bytes, write_u32, zeros};
use crate::hook::cstr::{cstr_text, read_cstr, read_cstr_plain, ProgramCStr};
use crate::text::{
    all_digits, before_pattern, chars_of, find_from, has_only_digits, last_part, last_part_of,
    lower_text, same_text, text_of, to_lower,
};
use crate::wide::decoded;

verus! {

/// Data above this size is packed later.
pub const ASYNC_PACK_THRESHOLD: usize = 50 * 1024;

/// How many bytes stand in front of data that is to be packed later.
pub const PLACEHOLDER_HEADER_SIZE: usize = 16;

pub const PLACEHOLDER_VERSION: u32 = 1;

/// `SPP0`, as a number.
pub const PLACEHOLDER_MAGIC: u32 = 0x3050_5053;

/// Where a save file holds its packed data, and where the size of it.
#[derive(Clone, Copy, Debug)]
pub struct SaveLayout {
    pub kind: &'static str,
    pub data_size_offset: usize,
    pub data_offset: usize,
}

/// Which kind of save file a name stands for.
#[derive(Clone, Copy, Debug, PartialEq, Eq, Structural)]
pub enum SaveKind {
    Read,
    Config,
    Global,
    Normal,
}

/// The kind of save file that a name stands for, up to ASCII case: three are called by name, and
/// the others by a number.
pub open spec fn save_kind(name: Seq<char>) -> Option<SaveKind> {
    let value = lower_text(name);
    let stem = value.take(value.len() - 4);
    if value == "read.sav"@ {
        Some(SaveKind::Read)
    } else if value == "config.sav"@ {
        Some(SaveKind::Config)
    } else if value == "global.sav"@ {
        Some(SaveKind::Global)
    } else if value.len() >= 4 && value.skip(value.len() - 4) == ".sav"@ && all_digits(stem) {
        Some(SaveKind::Normal)
    } else {
        None
    }
}

impl SaveKind {
    pub open spec fn name(self) -> Seq<char> {
        match self {
            SaveKind::Read => "read"@,
            SaveKind::Config => "config"@,
            SaveKind::Global => "global"@,
            SaveKind::Normal => "normal"@,
        }
    }

    /// Where a save file of this kind holds the size of its packed data.
    pub open spec fn size_at(self) -> int {
        match self {
            SaveKind::Normal => 0x1228,
            _ => 0x8,
        }
    }

    /// Where a save file of this kind holds its packed data.
    pub open spec fn data_at(self) -> int {
        match self {
            SaveKind::Read => 0x10,
            SaveKind::Normal => 0x122C,
            _ => 0xC,
        }
    }
}

impl SaveLayout {
    /// Whether this is the layout of save files of a kind.
    pub open spec fn of(self, kind: SaveKind) -> bool {
        &&& self.kind@ == kind.name()
        &&& self.data_size_offset == kind.size_at()
        &&& self.data_offset == kind.data_at()
    }

    /// Whether the size stands in front of the data.
    pub open spec fn wf(self) -> bool {
        self.data_size_offset + 4 <= self.data_offset && self.data_offset + PLACEHOLDER_HEADER_SIZE
            <= usize::MAX
    }
}

/// The layout of the save file that a name stands for.
pub fn save_layout_for_file_name(value: &str) -> (layout: Option<SaveLayout>)
    ensures
        match layout {
            Some(layout) => layout.wf() && (save_kind(value@) matches Some(kind) && layout.of(
                kind,
            )),
            None => save_kind(value@) is None,
        },
{
    let value = to_lower(value);
    if same_text(value.as_str(), "read.sav") {
        return Some(SaveLayout { kind: "read", data_size_offset: 0x8, data_offset: 0x10 });
    }
    if same_text(value.as_str(), "config.sav") {
        return Some(SaveLayout { kind: "config", data_size_offset: 0x8, data_offset: 0xC });
    }
    if same_text(value.as_str(), "global.sav") {
        return Some(SaveLayout { kind: "global", data_size_offset: 0x8, data_offset: 0xC });
    }
    let chars = chars_of(value.as_str());
    if chars.len() < 4 {
        return None;
    }
    let end: usize = chars.len() - 4;
    let suffix = &chars[end..chars.len()];
    let stem = &chars[0..end];
    assert(suffix@ =~= chars@.skip(end as int));
    assert(stem@ =~= chars@.take(end as int));
    if !same_text(text_of(suffix).as_str(), ".sav") {
        return None;
    }
    if has_only_digits(stem) {
        Some(SaveLayout { kind: "normal", data_size_offset: 0x1228, data_offset: 0x122C })
    } else {
        None
    }
}

/// The file name in a path that was written out with its length behind it.
pub fn save_file_name_from_cstr_log(value: &str) -> (name: String)
    ensures
        name@ == last_part(value@.take(find_from(value@, " (len="@, 0))),
{
    let path = before_pattern(&chars_of(value), &chars_of(" (len="));
    text_of(&last_part_of(&path))
}

/// Whether data of this length is to be packed later; data whose length is not known is not.
pub fn packs_later(len: Option<usize>) -> (later: bool)
    ensures
        later == (len matches Some(len) && len > ASYNC_PACK_THRESHOLD),
{
    match len {
        Some(len) => len > ASYNC_PACK_THRESHOLD,
        None => false,
    }
}

/// What stands in front of `raw_len` bytes that are to be packed later.
pub open spec fn placeholder_header(raw_len: u32) -> Seq<u8> {
    u32_bytes(PLACEHOLDER_MAGIC) + u32_bytes(raw_len) + u32_bytes(PLACEHOLDER_VERSION) + zeros(4)
}

/// Data that is to be packed later, with its header in front; `None` where the two together do not
/// have a 32-bit length.
pub fn write_placeholder_pack_buffer(raw: &[u8]) -> (placeholder: Option<Vec<u8>>)
    ensures
        match placeholder {
            Some(bytes) => raw@.len() + PLACEHOLDER_HEADER_SIZE <= u32::MAX && bytes@
                == placeholder_header(raw@.len() as u32) + raw@,
            None => raw@.len() + PLACEHOLDER_HEADER_SIZE > u32::MAX,
        },
{
    let raw_len: u64 = raw.len() as u64;
    if raw_len > (u32::MAX - 16) as u64 {
        return None;
    }
    let mut bytes: Vec<u8> = Vec::new();
    bytes.resize(PLACEHOLDER_HEADER_SIZE, 0);
    write_u32(&mut bytes, 0, PLACEHOLDER_MAGIC);
    write_u32(&mut bytes, 4, raw_len as u32);
    write_u32(&mut bytes, 8, PLACEHOLDER_VERSION);
    assert(bytes@ =~= placeholder_header(raw@.len() as u32));
    bytes.extend_from_slice(raw);
    assert(bytes@ =~= placeholder_header(raw@.len() as u32) + raw@);
    Some(bytes)
}

/// What a save file holds behind its header.
#[derive(Debug)]
pub enum PlaceholderCheck {
    /// Data that is packed already.
    Packed,
    /// Data that is to be packed later, in a form that is not known.
    VersionMismatch(u32),
    /// Data that is to be packed later, but that does not fit in the file.
    RangeInvalid { raw_len: usize, save_len: usize },
    /// Data that is to be packed later, with what stands in front of it.
    Found { header: Vec<u8>, raw: Vec<u8> },
}

/// The data that is to be packed later, in a save file of this layout: `None` where there is none.
pub open spec fn pending(save: Seq<u8>, data_offset: int) -> Option<Seq<u8>> {
    let raw_start = data_offset + PLACEHOLDER_HEADER_SIZE;
    let raw_len = u32_at(save, data_offset + 4);
    if save.len() < raw_start || u32_at(save, data_offset) != PLACEHOLDER_MAGIC || u32_at(
        save,
        data_offset + 8,
    ) != PLACEHOLDER_VERSION || raw_start + raw_len > save.len() {
        None
    } else {
        Some(save.subrange(raw_start, raw_start + raw_len))
    }
}

/// Looks for data that is to be packed later.
pub fn check_placeholder(save: &[u8], layout: &SaveLayout) -> (check: PlaceholderCheck)
    requires
        layout.wf(),
    ensures
        match check {
            PlaceholderCheck::Found { header, raw } => {
                &&& pending(save@, layout.data_offset as int) == Some(raw@)
                &&& header@ == save@.take(layout.data_offset as int)
            },
            PlaceholderCheck::Packed => save@.len() < layout.data_offset + PLACEHOLDER_HEADER_SIZE
                || u32_at(save@, layout.data_offset as int) != PLACEHOLDER_MAGIC,
            PlaceholderCheck::VersionMismatch(version) => {
                &&& save@.len() >= layout.data_offset + PLACEHOLDER_HEADER_SIZE
                &&& u32_at(save@, layout.data_offset as int) == PLACEHOLDER_MAGIC
                &&& version == u32_at(save@, layout.data_offset + 8)
                &&& version != PLACEHOLDER_VERSION
            },
            PlaceholderCheck::RangeInvalid { raw_len, save_len } => {
                &&& save@.len() >= layout.data_offset + PLACEHOLDER_HEADER_SIZE
                &&& u32_at(save@, layout.data_offset as int) == PLACEHOLDER_MAGIC
                &&& u32_at(save@, layout.data_offset + 8) == PLACEHOLDER_VERSION
                &&& raw_len == u32_at(save@, layout.data_offset + 4)
                &&& save_len == save@.len()
                &&& layout.data_offset + PLACEHOLDER_HEADER_SIZE + raw_len > save_len
            },
        },
{
    let data: usize = layout.data_offset;
    let raw_start: usize = data + PLACEHOLDER_HEADER_SIZE;
    if save.len() < raw_start || get_u32(save, data) != PLACEHOLDER_MAGIC {
        return PlaceholderCheck::Packed;
    }
    let version: u32 = get_u32(save, data + 8);
    if version != PLACEHOLDER_VERSION {
        return PlaceholderCheck::VersionMismatch(version);
    }
    let raw_len: usize = get_u32(save, data + 4) as usize;
    if raw_len > save.len() - raw_start {
        return PlaceholderCheck::RangeInvalid { raw_len, save_len: save.len() };
    }
    let header = vstd::slice::slice_to_vec(&save[0..data]);
    assert(header@ =~= save@.take(data as int));
    PlaceholderCheck::Found {
        header,
        raw: vstd::slice::slice_to_vec(&save[raw_start..raw_start + raw_len]),
    }
}

/// Data that was put off is found again, whatever the save file holds in front of it, and so is
/// what stands in front.
pub proof fn law_pending_data_is_found(header: Seq<u8>, raw: Seq<u8>)
    requires
        raw.len() + PLACEHOLDER_HEADER_SIZE <= u32::MAX,
    ensures
        ({
            let save = header + placeholder_header(raw.len() as u32) + raw;
            &&& pending(save, header.len() as int) == Some(raw)
            &&& save.take(header.len() as int) == header
        }),
{
    let save = header + placeholder_header(raw.len() as u32) + raw;
    assert(save.take(header.len() as int) =~= header);
    let at = header.len() as int;
    reveal(u32_at);
    assert(save[at] == 0x53 && save[at + 1] == 0x50);
    assert(save[at + 2] == 0x50 && save[at + 3] == 0x30);
    assert(save[at + 8] == 1 && save[at + 9] == 0 && save[at + 10] == 0 && save[at + 11] == 0);
    let n = u32_bytes(raw.len() as u32);
    assert(save[at + 4] == n[0] && save[at + 5] == n[1] && save[at + 6] == n[2] && save[at + 7]
        == n[3]);
    assert(save.subrange(at + 16, at + 16 + raw.len()) =~= raw);
}

/// A save that is packed and written in the background.
#[derive(Debug)]
pub struct AsyncSaveJob {
    pub path_key: String,
    pub file_path: String,
    pub layout: SaveLayout,
    pub header: Vec<u8>,
    pub raw: Vec<u8>,
}

/// The job that packs and writes a save file in the background; `None` where nothing of it was put
/// off, or its path is not known.
pub fn try_queue_placeholder_save(
    save: &[u8],
    path: Option<String>,
    layout: &SaveLayout,
) -> (job: Option<AsyncSaveJob>)
    requires
        layout.wf(),
    ensures
        match job {
            Some(job) => {
                &&& path matches Some(path) && job.file_path@ == path@ && job.path_key@
                    == lower_text(path@)
                &&& job.layout == *layout
                &&& pending(save@, layout.data_offset as int) == Some(job.raw@)
                &&& job.header@ == save@.take(layout.data_offset as int)
            },
            None => path is None || pending(save@, layout.data_offset as int) is None,
        },
{
    match check_placeholder(save, layout) {
        PlaceholderCheck::Found { header, raw } => match path {
            Some(path) => Some(
                AsyncSaveJob {
                    path_key: to_lower(path.as_str()),
                    file_path: path,
                    layout: *layout,
                    header,
                    raw,
                },
            ),
            None => None,
        },
        _ => None,
    }
}

/// What to do where the engine saves.
#[derive(Debug)]
pub enum SaveChoice {
    /// Let the engine write the file.
    CallOriginal,
    /// Pack and write the file in the background.
    Queue(AsyncSaveJob),
}

/// The name of the file that a string of the engine leads to, as the log shows it.
pub open spec fn shown_name(file_path: Option<&ProgramCStr>) -> Seq<char> {
    let text = cstr_text(
        match file_path {
            Some(cstr) => Some(*cstr),
            None => None,
        },
    );
    last_part(text.take(find_from(text, " (len="@, 0)))
}

/// Decides what to do where the engine saves `contents`: only a save file with data that was put
/// off is written in the background, and never one that comes from there.
pub fn tnm_save_to_file_hook_body(
    in_worker: bool,
    file_path: Option<&ProgramCStr>,
    contents: Option<&[u8]>,
) -> (choice: SaveChoice)
    requires
        file_path matches Some(cstr) ==> cstr.wf(),
    ensures
        match choice {
            SaveChoice::Queue(job) => {
                &&& !in_worker
                &&& save_kind(shown_name(file_path)) matches Some(kind)
                &&& job.layout.of(kind)
                &&& job.layout.wf()
                &&& contents matches Some(save)
                &&& pending(save@, kind.data_at()) == Some(job.raw@)
                &&& job.header@ == save@.take(kind.data_at())
                &&& file_path matches Some(cstr)
                &&& cstr.units() matches Some(units)
                &&& job.file_path@ == decoded(units)
                &&& job.path_key@ == lower_text(decoded(units))
            },
            SaveChoice::CallOriginal => {
                ||| in_worker
                ||| contents is None
                ||| file_path is None
                ||| file_path->0.units() is None
                ||| match save_kind(shown_name(file_path)) {
                    Some(kind) => pending(contents->0@, kind.data_at()) is None,
                    None => true,
                }
            },
        },
{
    if in_worker {
        return SaveChoice::CallOriginal;
    }
    let name = save_file_name_from_cstr_log(read_cstr(file_path).as_str());
    let layout = match save_layout_for_file_name(name.as_str()) {
        Some(layout) => layout,
        None => return SaveChoice::CallOriginal,
    };
    let save = match contents {
        Some(save) => save,
        None => return SaveChoice::CallOriginal,
    };
    match try_queue_placeholder_save(save, read_cstr_plain(file_path), &layout) {
        Some(job) => SaveChoice::Queue(job),
        None => SaveChoice::CallOriginal,
    }
}

/// What takes the place of data that the engine packs: `None` where the engine is to pack it now,
/// because it is small or because it is too long to be put off.
pub fn tnm_pack_buffer_hook_body(contents: Option<&[u8]>) -> (placeholder: Option<Vec<u8>>)
    ensures
        match placeholder {
            Some(bytes) => {
                &&& contents matches Some(raw)
                &&& ASYNC_PACK_THRESHOLD < raw@.len()
                &&& raw@.len() + PLACEHOLDER_HEADER_SIZE <= u32::MAX
                &&& bytes@ == placeholder_header(raw@.len() as u32) + raw@
            },
            None => contents matches Some(raw) ==> raw@.len() <= ASYNC_PACK_THRESHOLD || raw@.len()
                + PLACEHOLDER_HEADER_SIZE > u32::MAX,
        },
{
    match contents {
        Some(raw) => if packs_later(Some(raw.len())) {
            write_placeholder_pack_buffer(raw)
        } else {
            None
        },
        None => None,
    }
}

/// A save file: its header, with the size of the packed data in it, and the packed data.
pub open spec fn save_file(header: Seq<u8>, packed: Seq<u8>, size_at: int) -> Seq<u8> {
    splice(header + packed, size_at, u32_bytes(packed.len() as u32))
}

/// Puts a save file together; `None` where the header has another length than the layout says, or
/// the file does not have a 32-bit length.
pub fn program_save_array_from_parts(
    header: &[u8],
    packed: &[u8],
    layout: &SaveLayout,
) -> (save: Option<Vec<u8>>)
    requires
        layout.wf(),
    ensures
        match save {
            Some(save) => {
                &&& header@.len() == layout.data_offset
                &&& layout.data_offset + packed@.len() <= u32::MAX
                &&& save@ == save_file(header@, packed@, layout.data_size_offset as int)
            },
            None => header@.len() != layout.data_offset || layout.data_offset + packed@.len()
                > u32::MAX,
        },
{
    if header.len() != layout.data_offset {
        return None;
    }
    if header.len() as u64 > u32::MAX as u64 || packed.len() as u64 > (u32::MAX as u64
        - header.len() as u64) {
        return None;
    }
    let mut save: Vec<u8> = vstd::slice::slice_to_vec(header);
    save.extend_from_slice(packed);
    assert(save@ =~= header@ + packed@);
    write_u32(&mut save, layout.data_size_offset, packed.len() as u32);
    Some(save)
}

/// A save file holds the packed data behind its header, the size of it where the layout says, and
/// the rest of its header unchanged.
pub proof fn law_save_file_holds_packed_data(header: Seq<u8>, packed: Seq<u8>, size_at: int)
    requires
        0 <= size_at,
        size_at + 4 <= header.len(),
        packed.len() <= u32::MAX,
    ensures
        ({
            let save = save_file(header, packed, size_at);
            &&& save.skip(header.len() as int) == packed
            &&& u32_at(save, size_at) == packed.len()
            &&& save.take(size_at) == header.take(size_at)
            &&& save.subrange(size_at + 4, header.len() as int) == header.subrange(
                size_at + 4,
                header.len() as int,
            )
        }),
{
    let save = save_file(header, packed, size_at);
    crate::bytes::lemma_u32_round_trip(header + packed, size_at, packed.len() as u32);
    assert(save.skip(header.len() as int) =~= packed);
    assert(save.take(size_at) =~= header.take(size_at));
    assert(save.subrange(size_at + 4, header.len() as int) =~= header.subrange(
        size_at + 4,
        header.len() as int,
    ));
}

} // verus!

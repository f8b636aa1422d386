//! The parts of a Portable Executable image that the patcher reads.

use vstd::prelude::*;

use crate::bytes::{get_u16, get_u32, u16_at, u32_at};
use crate::text::{hex_fixed, hex_upper, lower_text, push_hex, push_hex_fixed, to_lower};

verus! {

pub const IMAGE_NT_OPTIONAL_HDR32_MAGIC: u16 = 0x10B;

pub const IMAGE_NT_OPTIONAL_HDR64_MAGIC: u16 = 0x20B;

pub const IMAGE_IMPORT_DESCRIPTOR_SIZE: usize = 20;

/// Why an image cannot be read.
#[derive(Debug)]
pub enum PeFault {
    /// The image is malformed, in the way that the message says.
    Invalid(String),
    /// An address of the image does not fit in 32 bits.
    Overflow,
}

/// What reading something out of an image comes to.
pub enum Outcome<T> {
    Value(T),
    Fault(Seq<char>),
    Overflow,
}

impl PeFault {
    /// Whether this is the fault that `outcome` stands for.
    pub open spec fn stands_for<T>(self, outcome: Outcome<T>) -> bool {
        match self {
            PeFault::Invalid(message) => outcome == Outcome::<T>::Fault(message@),
            PeFault::Overflow => outcome is Overflow,
        }
    }
}

/// Whether `len` bytes from `at` on lie in `b`.
pub open spec fn in_file(b: Seq<u8>, at: int, len: int) -> bool {
    at + len <= b.len()
}

/// What is said of a structure at `at` that does not lie in the file.
pub open spec fn outside_text(at: int) -> Seq<char> {
    "PE structure points outside the file at 0x"@ + hex_upper(at as nat)
}

/// Where the NT headers start.
pub open spec fn nt_at(b: Seq<u8>) -> int {
    u32_at(b, 0x3C) as int
}

/// The machine that the image is for.
pub open spec fn machine_of(b: Seq<u8>) -> u16 {
    u16_at(b, nt_at(b) + 4)
}

pub open spec fn section_count(b: Seq<u8>) -> int {
    u16_at(b, nt_at(b) + 6) as int
}

/// Where the optional header starts.
pub open spec fn optional_at(b: Seq<u8>) -> int {
    nt_at(b) + 24
}

pub open spec fn optional_size(b: Seq<u8>) -> int {
    u16_at(b, nt_at(b) + 20) as int
}

pub open spec fn optional_magic(b: Seq<u8>) -> u16 {
    u16_at(b, optional_at(b))
}

pub open spec fn is_pe64(b: Seq<u8>) -> bool {
    optional_magic(b) == IMAGE_NT_OPTIONAL_HDR64_MAGIC
}

/// Where the data directory entry of the imports stands.
pub open spec fn directory_at(b: Seq<u8>) -> int {
    optional_at(b) + if is_pe64(b) { 120int } else { 104int }
}

pub open spec fn section_alignment(b: Seq<u8>) -> u32 {
    u32_at(b, optional_at(b) + 32)
}

pub open spec fn file_alignment(b: Seq<u8>) -> u32 {
    u32_at(b, optional_at(b) + 36)
}

pub open spec fn size_of_headers(b: Seq<u8>) -> u32 {
    u32_at(b, optional_at(b) + 60)
}

pub open spec fn import_rva(b: Seq<u8>) -> u32 {
    u32_at(b, directory_at(b))
}

pub open spec fn import_size(b: Seq<u8>) -> u32 {
    u32_at(b, directory_at(b) + 4)
}

/// Where the section table starts.
pub open spec fn table_at(b: Seq<u8>) -> int {
    optional_at(b) + optional_size(b)
}

/// Where the header of section `i` starts.
pub open spec fn header_at(b: Seq<u8>, i: int) -> int {
    table_at(b) + 40 * i
}

/// How many whole section headers fit between the section table's start and the end of the file.
pub open spec fn headers_in_file(b: Seq<u8>) -> int {
    (b.len() - table_at(b)) / 40
}

/// The first thing wrong with the headers of an image, or `None` where they can be read.
pub open spec fn header_fault(b: Seq<u8>) -> Option<Seq<char>> {
    if !in_file(b, 0, 0x40) {
        Some(outside_text(0))
    } else if b[0] != 0x4D || b[1] != 0x5A {
        Some("missing MZ DOS signature"@)
    } else if !in_file(b, nt_at(b), 24) {
        Some(outside_text(nt_at(b)))
    } else if u32_at(b, nt_at(b)) != 0x4550 {
        Some("missing PE signature"@)
    } else if !in_file(b, optional_at(b), optional_size(b)) || !in_file(b, optional_at(b), 2) {
        Some(outside_text(optional_at(b)))
    } else if optional_magic(b) != IMAGE_NT_OPTIONAL_HDR32_MAGIC && !is_pe64(b) {
        Some("unsupported PE optional header magic: 0x"@ + hex_fixed(optional_magic(b) as nat, 4))
    } else if !in_file(b, directory_at(b), 8) {
        Some(outside_text(directory_at(b)))
    } else if section_alignment(b) == 0 || file_alignment(b) == 0 {
        Some("PE section/file alignment cannot be zero"@)
    } else if headers_in_file(b) < section_count(b) {
        Some(outside_text(header_at(b, headers_in_file(b))))
    } else {
        None
    }
}

/// The section table of an image that can be read lies in the file.
pub proof fn lemma_headers_in_file(b: Seq<u8>)
    requires
        header_fault(b) is None,
    ensures
        header_at(b, section_count(b)) <= b.len(),
{
}

/// One entry of the section table.
#[derive(Clone, Copy, Debug)]
pub struct SectionHeader {
    pub name: [u8; 8],
    pub virtual_size: u32,
    pub virtual_address: u32,
    pub size_of_raw_data: u32,
    pub pointer_to_raw_data: u32,
}

impl SectionHeader {
    /// Whether this is the section header that stands at `at`.
    pub open spec fn stands_at(self, b: Seq<u8>, at: int) -> bool {
        &&& self.name@ == b.subrange(at, at + 8)
        &&& self.virtual_size == u32_at(b, at + 8)
        &&& self.virtual_address == u32_at(b, at + 12)
        &&& self.size_of_raw_data == u32_at(b, at + 16)
        &&& self.pointer_to_raw_data == u32_at(b, at + 20)
    }
}

/// The address at which section `i` is mapped.
pub open spec fn section_va(b: Seq<u8>, i: int) -> u32 {
    u32_at(b, header_at(b, i) + 12)
}

/// How many bytes of addresses section `i` takes.
pub open spec fn section_span(b: Seq<u8>, i: int) -> u32 {
    let virtual_size = u32_at(b, header_at(b, i) + 8);
    let raw_size = u32_at(b, header_at(b, i) + 16);
    if virtual_size > raw_size {
        virtual_size
    } else {
        raw_size
    }
}

/// Where the bytes of section `i` start in the file.
pub open spec fn section_raw(b: Seq<u8>, i: int) -> u32 {
    u32_at(b, header_at(b, i) + 20)
}

/// The file offset of an address, looked up in the sections from `i` on and then in the headers.
pub open spec fn offset_from(b: Seq<u8>, rva: u32, i: int) -> Outcome<int>
    decreases section_count(b) - i,
{
    if i >= section_count(b) {
        if rva < size_of_headers(b) {
            Outcome::Value(rva as int)
        } else {
            Outcome::Fault("RVA 0x"@ + hex_fixed(rva as nat, 8) + " is outside all sections"@)
        }
    } else if rva < section_va(b, i) {
        offset_from(b, rva, i + 1)
    } else if section_va(b, i) + section_span(b, i) > u32::MAX {
        Outcome::Overflow
    } else if rva >= section_va(b, i) + section_span(b, i) {
        offset_from(b, rva, i + 1)
    } else if rva - section_va(b, i) + section_raw(b, i) > u32::MAX {
        Outcome::Overflow
    } else {
        Outcome::Value(rva - section_va(b, i) + section_raw(b, i))
    }
}

/// The file offset of an address.
pub open spec fn offset_of(b: Seq<u8>, rva: u32) -> Outcome<int> {
    offset_from(b, rva, 0)
}

/// Whether the `len` bytes from `at` on are all zero.
pub open spec fn all_zero(b: Seq<u8>, at: int, len: int) -> bool {
    forall|i: int| at <= i < at + len ==> b[i] == 0
}

/// How many import descriptors stand from `at` on, the first `n` of them known not to be the
/// empty one that ends the table.
pub open spec fn descriptors_from(b: Seq<u8>, at: int, n: int) -> Outcome<int>
    decreases b.len() - at - 20 * n,
{
    if !in_file(b, at + 20 * n, 20) {
        Outcome::Fault(outside_text(at + 20 * n))
    } else if all_zero(b, at + 20 * n, 20) {
        Outcome::Value(n)
    } else if import_size(b) != 0 && 20 * (n + 1) > import_size(b) {
        Outcome::Fault("import descriptor table is not null terminated"@)
    } else {
        descriptors_from(b, at, n + 1)
    }
}

/// Where the import descriptors of an image stand, and how many there are.
pub open spec fn descriptors_of(b: Seq<u8>) -> Outcome<(int, int)> {
    if import_rva(b) == 0 {
        Outcome::Value((0, 0))
    } else {
        match offset_of(b, import_rva(b)) {
            Outcome::Value(at) => match descriptors_from(b, at, 0) {
                Outcome::Value(count) => Outcome::Value((at, count)),
                Outcome::Fault(message) => Outcome::Fault(message),
                Outcome::Overflow => Outcome::Overflow,
            },
            Outcome::Fault(message) => Outcome::Fault(message),
            Outcome::Overflow => Outcome::Overflow,
        }
    }
}

/// The position of the first zero byte from `at` on; the length of `b` where there is none.
pub open spec fn zero_from(b: Seq<u8>, at: int) -> int
    decreases b.len() - at,
{
    if at >= b.len() || b[at] == 0 {
        at
    } else {
        zero_from(b, at + 1)
    }
}

/// The text that `String::from_utf8_lossy` makes of bytes that are not UTF-8.
pub uninterp spec fn repaired_text(b: Seq<u8>) -> Seq<char>;

/// The text of some bytes: what they encode, or the repaired text where they are not UTF-8.
pub open spec fn lossy_text(b: Seq<u8>) -> Seq<char> {
    if vstd::utf8::valid_utf8(b) {
        vstd::utf8::decode_utf8(b)
    } else {
        repaired_text(b)
    }
}

/// The zero-terminated text at `at`.
pub open spec fn c_string_at(b: Seq<u8>, at: int) -> Outcome<Seq<char>> {
    if !in_file(b, at, 1) {
        Outcome::Fault(outside_text(at))
    } else if zero_from(b, at) >= b.len() {
        Outcome::Fault("unterminated import name"@)
    } else {
        Outcome::Value(lossy_text(b.subrange(at, zero_from(b, at))))
    }
}

/// The name of the library that the descriptor at `at` imports from.
pub open spec fn imported_name(b: Seq<u8>, at: int) -> Outcome<Seq<char>> {
    match offset_of(b, u32_at(b, at + 12)) {
        Outcome::Value(name_at) => c_string_at(b, name_at),
        Outcome::Fault(message) => Outcome::Fault(message),
        Outcome::Overflow => Outcome::Overflow,
    }
}

/// Whether one of the descriptors from number `i` on imports from `dll`, up to ASCII case.
pub open spec fn imports_from(b: Seq<u8>, at: int, count: int, dll: Seq<char>, i: int) -> Outcome<
    bool,
>
    decreases count - i,
{
    if i >= count {
        Outcome::Value(false)
    } else {
        match imported_name(b, at + 20 * i) {
            Outcome::Value(name) => if lower_text(name) == lower_text(dll) {
                Outcome::Value(true)
            } else {
                imports_from(b, at, count, dll, i + 1)
            },
            Outcome::Fault(message) => Outcome::Fault(message),
            Outcome::Overflow => Outcome::Overflow,
        }
    }
}

/// Whether an image imports from `dll`, up to ASCII case.
pub open spec fn imports(b: Seq<u8>, dll: Seq<char>) -> Outcome<bool> {
    match descriptors_of(b) {
        Outcome::Value((at, count)) => imports_from(b, at, count, dll, 0),
        Outcome::Fault(message) => Outcome::Fault(message),
        Outcome::Overflow => Outcome::Overflow,
    }
}

/// Whether one of an image's sections is called `name`.
pub open spec fn has_section_named(b: Seq<u8>, name: Seq<u8>) -> bool {
    exists|i: int|
        0 <= i < section_count(b) && #[trigger] b.subrange(header_at(b, i), header_at(b, i) + 8)
            == name
}

/// Where the import descriptors stand, and how many there are.
#[derive(Clone, Copy, Debug)]
pub struct ImportDescriptors {
    pub offset: usize,
    pub count: usize,
}

/// The headers of an image.
pub struct PeImage<'a> {
    pub bytes: &'a [u8],
    pub machine: u16,
    pub number_of_sections: u16,
    pub file_header_offset: usize,
    pub section_table_offset: usize,
    pub size_of_image_offset: usize,
    pub checksum_offset: usize,
    pub import_directory_offset: usize,
    pub import_directory_rva: u32,
    pub import_directory_size: u32,
    pub section_alignment: u32,
    pub file_alignment: u32,
    pub size_of_headers: u32,
    pub is_pe64: bool,
    pub sections: Vec<SectionHeader>,
}

fn invalid(message: &str) -> (fault: PeFault)
    ensures
        fault matches PeFault::Invalid(m) && m@ == message@,
{
    PeFault::Invalid(message.to_owned())
}

fn outside(at: u64) -> (fault: PeFault)
    ensures
        fault matches PeFault::Invalid(m) && m@ == outside_text(at as int),
{
    let mut message: String = "PE structure points outside the file at 0x".to_owned();
    push_hex(&mut message, at);
    PeFault::Invalid(message)
}

/// Fails where `len` bytes from `offset` on do not lie in `bytes`.
pub fn require_range(bytes: &[u8], offset: u64, len: u64) -> (r: Result<(), PeFault>)
    ensures
        match r {
            Ok(_) => in_file(bytes@, offset as int, len as int),
            Err(fault) => {
                &&& !in_file(bytes@, offset as int, len as int)
                &&& fault matches PeFault::Invalid(m)
                &&& m@ == outside_text(offset as int)
            },
        },
{
    let size: u64 = bytes.len() as u64;
    if offset <= size && len <= size - offset {
        Ok(())
    } else {
        Err(outside(offset))
    }
}

/// Text of some bytes, as `String::from_utf8_lossy` makes it: bytes that are UTF-8 come out as the
/// text that they encode, and bytes that are not come out with the replacement character in them.
/// Where the replacement characters stand is left unsaid.
#[verifier::external_body]
fn from_utf8_lossy(bytes: &[u8]) -> (text: String)
    ensures
        vstd::utf8::valid_utf8(bytes@) ==> text@ == vstd::utf8::decode_utf8(bytes@),
        !vstd::utf8::valid_utf8(bytes@) ==> text@ == repaired_text(bytes@),
        !vstd::utf8::valid_utf8(bytes@) ==> text@.contains('\u{FFFD}'),
{
    String::from_utf8_lossy(bytes).into_owned()
}

/// The zero-terminated text at `offset`.
pub fn read_c_string(bytes: &[u8], offset: usize) -> (r: Result<String, PeFault>)
    ensures
        match r {
            Ok(text) => c_string_at(bytes@, offset as int) == Outcome::Value(text@),
            Err(fault) => fault.stands_for(c_string_at(bytes@, offset as int)),
        },
{
    if offset >= bytes.len() {
        return Err(outside(offset as u64));
    }
    let mut end: usize = offset;
    while end < bytes.len() && bytes[end] != 0
        invariant
            offset <= end <= bytes.len(),
            zero_from(bytes@, offset as int) == zero_from(bytes@, end as int),
        decreases bytes.len() - end,
    {
        end += 1;
    }
    if end >= bytes.len() {
        return Err(invalid("unterminated import name"));
    }
    Ok(from_utf8_lossy(&bytes[offset..end]))
}

impl<'a> PeImage<'a> {
    /// Whether the fields are those of the headers in `bytes`.
    pub open spec fn wf(self) -> bool {
        let b = self.bytes@;
        &&& header_fault(b) is None
        &&& self.machine == machine_of(b)
        &&& self.number_of_sections == section_count(b)
        &&& self.file_header_offset == nt_at(b) + 4
        &&& self.section_table_offset == table_at(b)
        &&& self.size_of_image_offset == optional_at(b) + 56
        &&& self.checksum_offset == optional_at(b) + 64
        &&& self.import_directory_offset == directory_at(b)
        &&& self.import_directory_rva == import_rva(b)
        &&& self.import_directory_size == import_size(b)
        &&& self.section_alignment == section_alignment(b)
        &&& self.file_alignment == file_alignment(b)
        &&& self.size_of_headers == size_of_headers(b)
        &&& self.is_pe64 == is_pe64(b)
        &&& self.sections@.len() == section_count(b)
        &&& forall|i: int|
            0 <= i < section_count(b) ==> (#[trigger] self.sections@[i]).stands_at(
                b,
                header_at(b, i),
            )
    }

    /// Reads the headers of an image.
    pub fn parse(bytes: &'a [u8]) -> (r: Result<PeImage<'a>, PeFault>)
        ensures
            match r {
                Ok(pe) => pe.bytes@ == bytes@ && pe.wf(),
                Err(fault) => fault matches PeFault::Invalid(m) && header_fault(bytes@) == Some(m@),
            },
    {
        let ghost b = bytes@;
        require_range(bytes, 0, 0x40)?;
        if bytes[0] != 0x4D || bytes[1] != 0x5A {
            return Err(invalid("missing MZ DOS signature"));
        }
        let pe_offset: u64 = get_u32(bytes, 0x3C) as u64;
        require_range(bytes, pe_offset, 24)?;
        let nt: usize = pe_offset as usize;
        if get_u32(bytes, nt) != 0x4550 {
            return Err(invalid("missing PE signature"));
        }
        let file_header_offset: usize = nt + 4;
        let machine: u16 = get_u16(bytes, file_header_offset);
        let number_of_sections: u16 = get_u16(bytes, file_header_offset + 2);
        let size_of_optional_header: usize = get_u16(bytes, file_header_offset + 16) as usize;
        let optional_header_offset: usize = file_header_offset + 20;
        require_range(bytes, optional_header_offset as u64, size_of_optional_header as u64)?;
        require_range(bytes, optional_header_offset as u64, 2)?;
        let magic: u16 = get_u16(bytes, optional_header_offset);
        let pe64: bool = magic == IMAGE_NT_OPTIONAL_HDR64_MAGIC;
        if magic != IMAGE_NT_OPTIONAL_HDR32_MAGIC && !pe64 {
            let mut message: String = "unsupported PE optional header magic: 0x".to_owned();
            push_hex_fixed(&mut message, magic as u64, 4);
            return Err(PeFault::Invalid(message));
        }
        let directory: u64 = optional_header_offset as u64 + if pe64 { 120u64 } else { 104u64 };
        require_range(bytes, directory, 8)?;
        let import_directory_offset: usize = directory as usize;
        let alignment: u32 = get_u32(bytes, optional_header_offset + 32);
        let file_alignment: u32 = get_u32(bytes, optional_header_offset + 36);
        let size_of_headers: u32 = get_u32(bytes, optional_header_offset + 60);
        let import_directory_rva: u32 = get_u32(bytes, import_directory_offset);
        let import_directory_size: u32 = get_u32(bytes, import_directory_offset + 4);
        if alignment == 0 || file_alignment == 0 {
            return Err(invalid("PE section/file alignment cannot be zero"));
        }
        let section_table_offset: usize = optional_header_offset + size_of_optional_header;
        let mut sections: Vec<SectionHeader> = Vec::new();
        let mut index: u16 = 0;
        while index < number_of_sections
            invariant
                b == bytes@,
                index <= number_of_sections,
                number_of_sections == section_count(b),
                section_table_offset == table_at(b),
                table_at(b) + 40 * index <= b.len() <= usize::MAX,
                sections@.len() == index,
                forall|i: int|
                    0 <= i < index ==> (#[trigger] sections@[i]).stands_at(b, header_at(b, i)),
                headers_in_file(b) < section_count(b) ==> header_fault(b) == Some(
                    outside_text(header_at(b, headers_in_file(b))),
                ),
            decreases number_of_sections - index,
        {
            let at: u64 = section_table_offset as u64 + 40 * index as u64;
            if at + 40 > bytes.len() as u64 {
                return Err(outside(at));
            }
            let offset: usize = at as usize;
            let name: [u8; 8] = [
                bytes[offset],
                bytes[offset + 1],
                bytes[offset + 2],
                bytes[offset + 3],
                bytes[offset + 4],
                bytes[offset + 5],
                bytes[offset + 6],
                bytes[offset + 7],
            ];
            let section = SectionHeader {
                name,
                virtual_size: get_u32(bytes, offset + 8),
                virtual_address: get_u32(bytes, offset + 12),
                size_of_raw_data: get_u32(bytes, offset + 16),
                pointer_to_raw_data: get_u32(bytes, offset + 20),
            };
            assert(section.name@ =~= b.subrange(offset as int, offset + 8));
            sections.push(section);
            index += 1;
        }
        Ok(
            PeImage {
                bytes,
                machine,
                number_of_sections,
                file_header_offset,
                section_table_offset,
                size_of_image_offset: optional_header_offset + 56,
                checksum_offset: optional_header_offset + 64,
                import_directory_offset,
                import_directory_rva,
                import_directory_size,
                section_alignment: alignment,
                file_alignment,
                size_of_headers,
                is_pe64: pe64,
                sections,
            },
        )
    }

    /// The file offset of an address.
    pub fn rva_to_offset(&self, rva: u32) -> (r: Result<usize, PeFault>)
        requires
            self.wf(),
        ensures
            match r {
                Ok(offset) => offset_of(self.bytes@, rva) == Outcome::Value(offset as int),
                Err(fault) => fault.stands_for(offset_of(self.bytes@, rva)),
            },
    {
        let mut i: usize = 0;
        while i < self.sections.len()
            invariant
                self.wf(),
                i <= self.sections@.len(),
                offset_of(self.bytes@, rva) == offset_from(self.bytes@, rva, i as int),
            decreases self.sections.len() - i,
        {
            let section = self.sections[i];
            assert(section.stands_at(self.bytes@, header_at(self.bytes@, i as int)));
            let span: u32 = section.span();
            if rva >= section.virtual_address {
                let end: u64 = section.virtual_address as u64 + span as u64;
                if end > u32::MAX as u64 {
                    return Err(PeFault::Overflow);
                }
                if (rva as u64) < end {
                    let offset: u64 = (rva - section.virtual_address) as u64
                        + section.pointer_to_raw_data as u64;
                    if offset > u32::MAX as u64 {
                        return Err(PeFault::Overflow);
                    }
                    return Ok(offset as usize);
                }
            }
            i += 1;
        }
        if rva < self.size_of_headers {
            return Ok(rva as usize);
        }
        let mut message: String = "RVA 0x".to_owned();
        push_hex_fixed(&mut message, rva as u64, 8);
        message.append(" is outside all sections");
        Err(PeFault::Invalid(message))
    }

    /// Where the import descriptors stand, and how many there are before the empty one.
    pub fn import_descriptors(&self) -> (r: Result<ImportDescriptors, PeFault>)
        requires
            self.wf(),
        ensures
            match r {
                Ok(found) => descriptors_of(self.bytes@) == Outcome::Value(
                    (found.offset as int, found.count as int),
                ),
                Err(fault) => fault.stands_for(descriptors_of(self.bytes@)),
            },
    {
        if self.import_directory_rva == 0 {
            return Ok(ImportDescriptors { offset: 0, count: 0 });
        }
        let offset: usize = self.rva_to_offset(self.import_directory_rva)?;
        let mut count: usize = 0;
        let mut at: usize = offset;
        loop
            invariant
                self.wf(),
                offset_of(self.bytes@, import_rva(self.bytes@)) == Outcome::Value(offset as int),
                import_rva(self.bytes@) != 0,
                at == offset + 20 * count,
                count == 0 || at <= self.bytes.len(),
                descriptors_from(self.bytes@, offset as int, 0) == descriptors_from(
                    self.bytes@,
                    offset as int,
                    count as int,
                ),
            decreases self.bytes@.len() + 20 - 20 * count,
        {
            require_range(self.bytes, at as u64, IMAGE_IMPORT_DESCRIPTOR_SIZE as u64)?;
            if is_all_zero(self.bytes, at, IMAGE_IMPORT_DESCRIPTOR_SIZE) {
                return Ok(ImportDescriptors { offset, count });
            }
            count += 1;
            assert(at + 20 <= self.bytes.len());
            at += IMAGE_IMPORT_DESCRIPTOR_SIZE;
            if self.import_directory_size != 0 && (at - offset) as u64
                > self.import_directory_size as u64 {
                return Err(invalid("import descriptor table is not null terminated"));
            }
        }
    }

    /// Whether the image imports from `dll_name`, up to ASCII case.
    pub fn imports_dll(&self, dll_name: &str) -> (r: Result<bool, PeFault>)
        requires
            self.wf(),
        ensures
            match r {
                Ok(found) => imports(self.bytes@, dll_name@) == Outcome::Value(found),
                Err(fault) => fault.stands_for(imports(self.bytes@, dll_name@)),
            },
    {
        let wanted = to_lower(dll_name);
        let descriptors = self.import_descriptors()?;
        let ghost at = descriptors.offset as int;
        let ghost count = descriptors.count as int;
        proof {
            lemma_descriptors_in_file(self.bytes@);
        }
        let mut index: usize = 0;
        while index < descriptors.count
            invariant
                self.wf(),
                wanted@ == lower_text(dll_name@),
                at == descriptors.offset,
                count == descriptors.count,
                index <= count,
                count == 0 || at + 20 * count + 20 <= self.bytes.len(),
                imports(self.bytes@, dll_name@) == imports_from(
                    self.bytes@,
                    at,
                    count,
                    dll_name@,
                    index as int,
                ),
            decreases descriptors.count - index,
        {
            let entry: usize = descriptors.offset + index * IMAGE_IMPORT_DESCRIPTOR_SIZE;
            let name_rva: u32 = get_u32(self.bytes, entry + 12);
            let name_offset: usize = self.rva_to_offset(name_rva)?;
            let imported_name = to_lower(&read_c_string(self.bytes, name_offset)?);
            if imported_name == wanted {
                return Ok(true);
            }
            index += 1;
        }
        Ok(false)
    }

    /// Whether one of the sections is called `name`.
    pub fn has_section(&self, name: &[u8; 8]) -> (found: bool)
        requires
            self.wf(),
        ensures
            found == has_section_named(self.bytes@, name@),
    {
        let ghost b = self.bytes@;
        let mut i: usize = 0;
        while i < self.sections.len()
            invariant
                self.wf(),
                b == self.bytes@,
                i <= self.sections@.len(),
                forall|j: int|
                    0 <= j < i ==> #[trigger] b.subrange(header_at(b, j), header_at(b, j) + 8)
                        != name@,
            decreases self.sections.len() - i,
        {
            let ghost at = header_at(b, i as int);
            assert(self.sections@[i as int].stands_at(b, at));
            if same_name(&self.sections[i].name, name) {
                assert(b.subrange(header_at(b, i as int), header_at(b, i as int) + 8) == name@);
                return true;
            }
            i += 1;
        }
        false
    }

    /// The first address past all sections, rounded up to the section alignment, or `None` where
    /// it does not fit in 32 bits.
    pub fn next_section_virtual_address(&self) -> (r: Option<u32>)
        requires
            self.wf(),
        ensures
            match r {
                Some(address) => next_address(self.bytes@) == Some(address as int),
                None => next_address(self.bytes@) is None,
            },
    {
        let ghost b = self.bytes@;
        let mut end: u32 = 0;
        let mut i: usize = 0;
        while i < self.sections.len()
            invariant
                self.wf(),
                b == self.bytes@,
                i <= self.sections@.len(),
                end == sections_end(b, i as int),
                end <= u32::MAX,
            decreases self.sections.len() - i,
        {
            let section = self.sections[i];
            assert(section.stands_at(b, header_at(b, i as int)));
            let section_end: u64 = section.virtual_address as u64 + section.span() as u64;
            if section_end > u32::MAX as u64 {
                proof {
                    lemma_sections_end_monotone(b, i as int + 1, section_count(b));
                }
                return None;
            }
            if section_end > end as u64 {
                end = section_end as u32;
            }
            i += 1;
        }
        align_u32(end, self.section_alignment)
    }
}

impl SectionHeader {
    /// How many bytes of addresses the section takes.
    pub fn span(&self) -> (span: u32)
        ensures
            span == if self.virtual_size > self.size_of_raw_data {
                self.virtual_size
            } else {
                self.size_of_raw_data
            },
    {
        if self.virtual_size > self.size_of_raw_data {
            self.virtual_size
        } else {
            self.size_of_raw_data
        }
    }
}

/// The end of the last of the first `n` sections in the address space; zero where there is none.
pub open spec fn sections_end(b: Seq<u8>, n: int) -> int
    decreases n,
{
    if n <= 0 {
        0
    } else {
        let end = section_va(b, n - 1) + section_span(b, n - 1);
        if end > sections_end(b, n - 1) {
            end
        } else {
            sections_end(b, n - 1)
        }
    }
}

/// More sections do not end earlier.
pub proof fn lemma_sections_end_monotone(b: Seq<u8>, m: int, n: int)
    requires
        m <= n,
    ensures
        sections_end(b, m) <= sections_end(b, n),
    decreases n - m,
{
    if m < n {
        lemma_sections_end_monotone(b, m, n - 1);
    }
}

/// `value` rounded up to a multiple of `alignment`.
#[verifier::opaque]
pub open spec fn align_up(value: int, alignment: int) -> int {
    if value == 0 {
        0
    } else {
        ((value + alignment - 1) / alignment) * alignment
    }
}

/// `value` rounded up to a multiple of `alignment`, where the sum of the two fits in 32 bits.
pub open spec fn aligned_u32(value: int, alignment: int) -> Option<int> {
    if value != 0 && value + alignment > u32::MAX {
        None
    } else {
        Some(align_up(value, alignment))
    }
}

/// The first address past all sections, rounded up to the section alignment, where that can be
/// computed in 32 bits.
pub open spec fn next_address(b: Seq<u8>) -> Option<int> {
    let end = sections_end(b, section_count(b));
    if end > u32::MAX {
        None
    } else {
        aligned_u32(end, section_alignment(b) as int)
    }
}

/// Rounding up adds less than the alignment and never goes below the value.
pub proof fn lemma_align_up(value: int, alignment: int)
    requires
        value >= 0,
        alignment > 0,
    ensures
        value <= align_up(value, alignment),
        align_up(value, alignment) < value + alignment,
        align_up(value, alignment) % alignment == 0,
{
    reveal(align_up);
    if value > 0 {
        let q = (value + alignment - 1) / alignment;
        vstd::arithmetic::div_mod::lemma_fundamental_div_mod(value + alignment - 1, alignment);
        vstd::arithmetic::mul::lemma_mul_is_commutative(q, alignment);
        vstd::arithmetic::div_mod::lemma_mod_bound(value + alignment - 1, alignment);
        vstd::arithmetic::div_mod::lemma_mod_multiples_basic(q, alignment);
    } else {
        vstd::arithmetic::div_mod::lemma_small_mod(0, alignment as nat);
    }
}

/// Rounds up to a multiple of `alignment`; `None` where the sum of the two does not fit.
pub fn align_u32(value: u32, alignment: u32) -> (r: Option<u32>)
    requires
        alignment > 0,
    ensures
        match r {
            Some(v) => aligned_u32(value as int, alignment as int) == Some(v as int),
            None => aligned_u32(value as int, alignment as int) is None,
        },
{
    proof {
        reveal(align_up);
    }
    if value == 0 {
        return Some(0);
    }
    if value as u64 + alignment as u64 > u32::MAX as u64 {
        return None;
    }
    proof {
        lemma_align_up(value as int, alignment as int);
    }
    Some(((value + alignment - 1) / alignment) * alignment)
}

fn is_all_zero(bytes: &[u8], at: usize, len: usize) -> (zero: bool)
    requires
        at + len <= bytes.len(),
    ensures
        zero == all_zero(bytes@, at as int, len as int),
{
    let mut i: usize = 0;
    while i < len
        invariant
            at + len <= bytes.len(),
            forall|j: int| at <= j < at + i ==> bytes@[j] == 0,
        decreases len - i,
    {
        if bytes[at + i] != 0 {
            return false;
        }
        i += 1;
    }
    true
}

fn same_name(a: &[u8; 8], b: &[u8; 8]) -> (same: bool)
    ensures
        same == (a@ == b@),
{
    let mut i: usize = 0;
    while i < 8
        invariant
            i <= 8,
            forall|j: int| 0 <= j < i ==> a@[j] == b@[j],
        decreases 8 - i,
    {
        if a[i] != b[i] {
            return false;
        }
        i += 1;
    }
    assert(a@ =~= b@);
    true
}

/// The descriptors that were counted lie in the file, and so does the empty one behind them.
pub proof fn lemma_descriptors_in_file(b: Seq<u8>)
    ensures
        descriptors_of(b) matches Outcome::Value((at, count)) ==> 0 <= count && (count == 0 || at
            + 20 * count + 20 <= b.len()),
{
    if import_rva(b) != 0 {
        if let Outcome::Value(at) = offset_of(b, import_rva(b)) {
            lemma_counted_in_file(b, at, 0);
        }
    }
}

/// Counting stops at an empty descriptor in the file, and no earlier one is empty.
pub proof fn lemma_counted_in_file(b: Seq<u8>, at: int, n: int)
    ensures
        descriptors_from(b, at, n) matches Outcome::Value(count) ==> n <= count && at + 20 * count
            + 20 <= b.len() && all_zero(b, at + 20 * count, 20) && forall|i: int|
            n <= i < count ==> !#[trigger] all_zero(b, at + 20 * i, 20),
    decreases b.len() - at - 20 * n,
{
    if in_file(b, at + 20 * n, 20) && !all_zero(b, at + 20 * n, 20) && !(import_size(b) != 0 && 20
        * (n + 1) > import_size(b)) {
        lemma_counted_in_file(b, at, n + 1);
    }
}

} // verus!

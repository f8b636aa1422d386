//! Adding an import of the hook library to an image.

use vstd::prelude::*;
use vstd::slice::slice_to_vec;
use vstd::utf8::encode_utf8;

use crate::bytes::{
    splice, u16_bytes, u32_bytes, u64_bytes, write_bytes, write_u16, write_u32, write_u64, zeros,
};
use crate::pe::image::{
    align_u32, align_up, aligned_u32, descriptors_of, directory_at, file_alignment,
    has_section_named, header_at, header_fault, imports, is_pe64, lemma_align_up,
    lemma_descriptors_in_file, lemma_headers_in_file, next_address, nt_at, optional_at,
    section_alignment, section_count, section_raw, size_of_headers, Outcome, PeFault, PeImage,
};

verus! {

/// The library that patched images import.
pub const HOOK_DLL_NAME: &'static str = "siglus_hook.dll";

/// The function that patched images import from it.
pub const HOOK_IMPORT_NAME: &'static str = "SiglusHookLoadAnchor";

/// The characteristics of a section of initialised data that can be read and written.
pub const HOOK_SECTION_CHARACTERISTICS: u32 = 0xC000_0040;

/// The name of the section that holds the import, `.sighook`.
pub open spec fn hook_section_name() -> Seq<u8> {
    seq![0x2Eu8, 0x73, 0x69, 0x67, 0x68, 0x6F, 0x6F, 0x6B]
}

/// The names have the lengths that the layout of the section counts on.
pub proof fn lemma_name_lengths()
    ensures
        encode_utf8(HOOK_DLL_NAME@).len() == 15,
        encode_utf8(HOOK_IMPORT_NAME@).len() == 20,
{
    reveal_strlit("siglus_hook.dll");
    reveal_strlit("SiglusHookLoadAnchor");
    vstd::utf8::is_ascii_chars_encode_utf8(HOOK_DLL_NAME@);
    vstd::utf8::is_ascii_chars_encode_utf8(HOOK_IMPORT_NAME@);
}

pub open spec fn pointer_size(b: Seq<u8>) -> int {
    if is_pe64(b) {
        8
    } else {
        4
    }
}

/// The size of a table of `count` import descriptors, one more and the empty one.
pub open spec fn table_size(count: int) -> int {
    20 * (count + 2)
}

/// Where in the new section the import lookup table stands.
pub open spec fn ilt_offset(b: Seq<u8>, count: int) -> int {
    align_up(table_size(count), pointer_size(b))
}

/// Where in the new section the import address table stands.
pub open spec fn iat_offset(b: Seq<u8>, count: int) -> int {
    ilt_offset(b, count) + 2 * pointer_size(b)
}

/// Where in the new section the hint and name of the imported function stand.
pub open spec fn by_name_offset(b: Seq<u8>, count: int) -> int {
    iat_offset(b, count) + 2 * pointer_size(b)
}

/// Where in the new section the name of the library stands.
pub open spec fn dll_name_offset(b: Seq<u8>, count: int) -> int {
    by_name_offset(b, count) + 2 + encode_utf8(HOOK_IMPORT_NAME@).len() + 1
}

/// The size of what the new section holds.
pub open spec fn hook_size(b: Seq<u8>, count: int) -> int {
    dll_name_offset(b, count) + encode_utf8(HOOK_DLL_NAME@).len() + 1
}

/// The size of the new section in the file.
pub open spec fn hook_raw_size(b: Seq<u8>, count: int) -> int {
    align_up(hook_size(b, count), file_alignment(b) as int)
}

/// Where the new section starts in the file.
pub open spec fn hook_raw_start(b: Seq<u8>) -> int {
    align_up(b.len() as int, file_alignment(b) as int)
}

/// The address at which the new section is mapped.
pub open spec fn hook_va(b: Seq<u8>) -> int {
    next_address(b)->0
}

/// The header of the new section stands behind those of the other sections.
pub open spec fn new_header_at(b: Seq<u8>) -> int {
    header_at(b, section_count(b))
}

/// The lowest file offset, zero left aside, at which one of the first `n` sections starts.
pub open spec fn lowest_raw(b: Seq<u8>, n: int) -> Option<u32>
    decreases n,
{
    if n <= 0 {
        None
    } else {
        let raw = section_raw(b, n - 1);
        match lowest_raw(b, n - 1) {
            Some(low) if raw == 0 || low <= raw => Some(low),
            None if raw == 0 => None,
            _ => Some(raw),
        }
    }
}

/// Where the headers have to end.
pub open spec fn headers_end(b: Seq<u8>) -> u32 {
    match lowest_raw(b, section_count(b)) {
        Some(raw) => raw,
        None => size_of_headers(b),
    }
}

/// Whether the addresses and sizes of the new section fit.
pub open spec fn hook_fits(b: Seq<u8>, count: int) -> bool {
    &&& hook_size(b, count) <= u32::MAX
    &&& aligned_u32(hook_size(b, count), file_alignment(b) as int) is Some
    &&& b.len() + file_alignment(b) <= usize::MAX
    &&& next_address(b) is Some
    &&& hook_va(b) + dll_name_offset(b, count) <= u32::MAX
    &&& hook_raw_start(b) + hook_raw_size(b, count) <= usize::MAX
}

/// Whether the size of the image with the new section fits.
pub open spec fn image_fits(b: Seq<u8>, count: int) -> bool {
    &&& hook_va(b) + hook_size(b, count) <= u32::MAX
    &&& aligned_u32(hook_va(b) + hook_size(b, count), section_alignment(b) as int) is Some
}

/// An entry of a lookup or address table.
pub open spec fn thunk_bytes(pe64: bool, rva: u32) -> Seq<u8> {
    if pe64 {
        u64_bytes(rva as u64)
    } else {
        u32_bytes(rva)
    }
}

/// What the new section holds: the `count` descriptors from `at` on, one for the hook library, and
/// the tables and names that it points to.
#[verifier::opaque]
pub open spec fn hook_section(b: Seq<u8>, at: int, count: int) -> Seq<u8> {
    let rva = |offset: int| (hook_va(b) + offset) as u32;
    let empty = zeros(hook_raw_size(b, count) as nat);
    let copied = splice(empty, 0, b.subrange(at, at + 20 * count));
    let d0 = splice(copied, 20 * count, u32_bytes(rva(ilt_offset(b, count))));
    let d1 = splice(d0, 20 * count + 12, u32_bytes(rva(dll_name_offset(b, count))));
    let d2 = splice(d1, 20 * count + 16, u32_bytes(rva(iat_offset(b, count))));
    let thunk = thunk_bytes(is_pe64(b), rva(by_name_offset(b, count)));
    let t0 = splice(d2, ilt_offset(b, count), thunk);
    let t1 = splice(t0, iat_offset(b, count), thunk);
    let n0 = splice(t1, by_name_offset(b, count) + 2, encode_utf8(HOOK_IMPORT_NAME@));
    splice(n0, dll_name_offset(b, count), encode_utf8(HOOK_DLL_NAME@))
}

/// The forty bytes of a section header of the hook section.
#[verifier::opaque]
pub open spec fn section_header_bytes(
    virtual_size: u32,
    virtual_address: u32,
    raw_size: u32,
    raw_pointer: u32,
) -> Seq<u8> {
    hook_section_name() + u32_bytes(virtual_size) + u32_bytes(virtual_address) + u32_bytes(raw_size)
        + u32_bytes(raw_pointer) + zeros(12) + u32_bytes(HOOK_SECTION_CHARACTERISTICS)
}

/// The file with the new section behind it.
pub open spec fn grown(b: Seq<u8>, at: int, count: int) -> Seq<u8> {
    b + zeros((hook_raw_start(b) - b.len()) as nat) + hook_section(b, at, count)
}

/// The file with the new section behind it and its header in the section table.
#[verifier::opaque]
pub open spec fn with_section(b: Seq<u8>, at: int, count: int) -> Seq<u8> {
    splice(
        grown(b, at, count),
        new_header_at(b),
        section_header_bytes(
            hook_size(b, count) as u32,
            hook_va(b) as u32,
            hook_raw_size(b, count) as u32,
            (hook_raw_start(b) % 0x1_0000_0000) as u32,
        ),
    )
}

/// The file with the new section and the headers that make the loader use it.
#[verifier::opaque]
pub open spec fn with_import(b: Seq<u8>, at: int, count: int) -> Seq<u8> {
    let size_of_image = align_up(hook_va(b) + hook_size(b, count), section_alignment(b) as int);
    let s0 = with_section(b, at, count);
    let s1 = splice(s0, nt_at(b) + 6, u16_bytes((section_count(b) + 1) as u16));
    let s2 = splice(s1, optional_at(b) + 56, u32_bytes(size_of_image as u32));
    let s3 = splice(s2, optional_at(b) + 64, u32_bytes(0));
    let s4 = splice(s3, directory_at(b), u32_bytes(hook_va(b) as u32));
    splice(s4, directory_at(b) + 4, u32_bytes(table_size(count) as u32))
}

/// What adding the import comes to.
pub enum HookImport {
    /// The image with the import.
    Patched(Seq<u8>),
    AlreadyPatched,
    /// The message, and what the buffer is left holding.
    Invalid(Seq<char>, Seq<u8>),
    Overflow,
}

/// What adding the import to an image comes to.
pub open spec fn hook_import(b: Seq<u8>) -> HookImport {
    if header_fault(b) is Some {
        HookImport::Invalid(header_fault(b)->0, b)
    } else {
        match imports(b, HOOK_DLL_NAME@) {
            Outcome::Overflow => HookImport::Overflow,
            Outcome::Fault(message) => HookImport::Invalid(message, b),
            Outcome::Value(found) => {
                let (at, count) = descriptors_of(b)->Value_0;
                if found || has_section_named(b, hook_section_name()) {
                    HookImport::AlreadyPatched
                } else if new_header_at(b) + 40 > headers_end(b) {
                    HookImport::Invalid(
                        "there is no room in the PE headers for a new section"@,
                        b,
                    )
                } else if !hook_fits(b, count) {
                    HookImport::Overflow
                } else if section_count(b) == u16::MAX {
                    HookImport::Invalid("too many PE sections"@, with_section(b, at, count))
                } else if !image_fits(b, count) {
                    HookImport::Overflow
                } else {
                    HookImport::Patched(with_import(b, at, count))
                }
            },
        }
    }
}

/// Why the import was not added.
#[derive(Debug)]
pub enum HookFault {
    Pe(PeFault),
    AlreadyPatched,
}

/// Where the parts of the new section go.
struct HookLayout {
    descriptors: Vec<u8>,
    pe64: bool,
    ilt_offset: usize,
    iat_offset: usize,
    by_name_offset: usize,
    dll_name_offset: usize,
    virtual_size: u32,
    virtual_address: u32,
    raw_size: u32,
    raw_pointer: usize,
}

impl HookLayout {
    spec fn wf(self, b: Seq<u8>, at: int, count: int) -> bool {
        &&& header_fault(b) is None
        &&& hook_fits(b, count)
        &&& 0 <= count
        &&& 0 <= at
        &&& at + 20 * count <= b.len()
        &&& self.descriptors@ == b.subrange(at, at + 20 * count)
        &&& self.pe64 == is_pe64(b)
        &&& self.ilt_offset == ilt_offset(b, count)
        &&& self.iat_offset == iat_offset(b, count)
        &&& self.by_name_offset == by_name_offset(b, count)
        &&& self.dll_name_offset == dll_name_offset(b, count)
        &&& self.virtual_size == hook_size(b, count)
        &&& self.virtual_address == hook_va(b)
        &&& self.raw_size == hook_raw_size(b, count)
        &&& self.raw_pointer == hook_raw_start(b)
    }
}

/// Writes an entry of a lookup or address table.
pub fn write_thunk(section: &mut Vec<u8>, offset: usize, pe64: bool, rva: u32)
    requires
        offset + thunk_bytes(pe64, rva).len() <= old(section).len(),
    ensures
        final(section)@ == splice(old(section)@, offset as int, thunk_bytes(pe64, rva)),
{
    if pe64 {
        write_u64(section, offset, rva as u64);
    } else {
        write_u32(section, offset, rva);
    }
}

/// Writes the header of the hook section.
pub fn write_section_header(
    bytes: &mut Vec<u8>,
    offset: usize,
    virtual_size: u32,
    virtual_address: u32,
    size_of_raw_data: u32,
    pointer_to_raw_data: u32,
)
    requires
        offset + 40 <= old(bytes).len(),
    ensures
        final(bytes)@ == splice(
            old(bytes)@,
            offset as int,
            section_header_bytes(
                virtual_size,
                virtual_address,
                size_of_raw_data,
                pointer_to_raw_data,
            ),
        ),
{
    let mut header: Vec<u8> = Vec::new();
    header.resize(40, 0);
    let name: [u8; 8] = [0x2E, 0x73, 0x69, 0x67, 0x68, 0x6F, 0x6F, 0x6B];
    write_bytes(&mut header, 0, &name);
    write_u32(&mut header, 8, virtual_size);
    write_u32(&mut header, 12, virtual_address);
    write_u32(&mut header, 16, size_of_raw_data);
    write_u32(&mut header, 20, pointer_to_raw_data);
    write_u32(&mut header, 36, HOOK_SECTION_CHARACTERISTICS);
    assert(header@ =~= section_header_bytes(
        virtual_size,
        virtual_address,
        size_of_raw_data,
        pointer_to_raw_data,
    )) by {
        reveal(section_header_bytes);
    }
    write_bytes(bytes, offset, &header);
}

/// The parts of the layout are in order and lie in the new section.
pub proof fn lemma_layout(b: Seq<u8>, count: int)
    requires
        header_fault(b) is None,
        0 <= count,
    ensures
        table_size(count) <= ilt_offset(b, count) <= table_size(count) + 7,
        dll_name_offset(b, count) == by_name_offset(b, count) + 23,
        hook_size(b, count) == dll_name_offset(b, count) + 16,
        hook_size(b, count) <= hook_raw_size(b, count),
        b.len() <= hook_raw_start(b),
        hook_raw_start(b) < b.len() + file_alignment(b),
        align_up(by_name_offset(b, count), 2) == by_name_offset(b, count),
{
    reveal(align_up);
    lemma_name_lengths();
    lemma_align_up(table_size(count), pointer_size(b));
    lemma_align_up(hook_size(b, count), file_alignment(b) as int);
    lemma_align_up(b.len() as int, file_alignment(b) as int);
    if is_pe64(b) {
        assert(by_name_offset(b, count) % 2 == 0);
    } else {
        assert(by_name_offset(b, count) % 2 == 0);
    }
}

/// Builds what the new section holds.
fn build_section(layout: &HookLayout, Ghost(b): Ghost<Seq<u8>>, Ghost(at): Ghost<int>) -> (section:
    Vec<u8>)
    requires
        layout.wf(b, at, layout.descriptors@.len() as int / 20),
        layout.descriptors@.len() % 20 == 0,
    ensures
        section@ == hook_section(b, at, layout.descriptors@.len() as int / 20),
{
    let ghost count = layout.descriptors@.len() as int / 20;
    proof {
        reveal(hook_section);
        lemma_layout(b, count);
        lemma_name_lengths();
    }
    let entry: usize = layout.descriptors.len();
    let base: u32 = layout.virtual_address;
    let mut section: Vec<u8> = Vec::new();
    section.resize(layout.raw_size as usize, 0);
    assert(section@ =~= zeros(hook_raw_size(b, count) as nat));
    write_bytes(&mut section, 0, &layout.descriptors);
    write_u32(&mut section, entry, base + layout.ilt_offset as u32);
    write_u32(&mut section, entry + 12, base + layout.dll_name_offset as u32);
    write_u32(&mut section, entry + 16, base + layout.iat_offset as u32);
    let thunk_rva: u32 = base + layout.by_name_offset as u32;
    write_thunk(&mut section, layout.ilt_offset, layout.pe64, thunk_rva);
    write_thunk(&mut section, layout.iat_offset, layout.pe64, thunk_rva);
    write_bytes(&mut section, layout.by_name_offset + 2, HOOK_IMPORT_NAME.as_bytes());
    write_bytes(&mut section, layout.dll_name_offset, HOOK_DLL_NAME.as_bytes());
    section
}

/// Where the headers have to end.
fn headers_end_of(pe: &PeImage) -> (end: u32)
    requires
        pe.wf(),
    ensures
        end == headers_end(pe.bytes@),
{
    let ghost b = pe.bytes@;
    let mut low: Option<u32> = None;
    let mut i: usize = 0;
    while i < pe.sections.len()
        invariant
            pe.wf(),
            b == pe.bytes@,
            i <= pe.sections@.len(),
            low == lowest_raw(b, i as int),
        decreases pe.sections.len() - i,
    {
        let raw: u32 = pe.sections[i].pointer_to_raw_data;
        assert(pe.sections@[i as int].stands_at(b, header_at(b, i as int)));
        low = match low {
            Some(known) => if raw == 0 || known <= raw {
                Some(known)
            } else {
                Some(raw)
            },
            None => if raw == 0 {
                None
            } else {
                Some(raw)
            },
        };
        i += 1;
    }
    match low {
        Some(raw) => raw,
        None => pe.size_of_headers,
    }
}

/// Lays the new section out; `None` where an address or a size does not fit.
fn lay_out(pe: &PeImage, offset: usize, count: usize) -> (r: Option<HookLayout>)
    requires
        pe.wf(),
        offset + 20 * count <= pe.bytes.len(),
    ensures
        match r {
            Some(layout) => layout.wf(pe.bytes@, offset as int, count as int),
            None => !hook_fits(pe.bytes@, count as int),
        },
{
    let bytes = pe.bytes;
    let ghost b = bytes@;
    proof {
        reveal(align_up);
        lemma_layout(b, count as int);
        lemma_name_lengths();
        lemma_align_up(table_size(count as int), pointer_size(b));
    }
    if count > 0x1000_0000 {
        return None;
    }
    let pointer: u64 = if pe.is_pe64 {
        8
    } else {
        4
    };
    let ilt: u64 = (20 * (count as u64 + 2) + pointer - 1) / pointer * pointer;
    let iat: u64 = ilt + 2 * pointer;
    let by_name: u64 = iat + 2 * pointer;
    let dll_name: u64 = by_name + 23;
    let size: u64 = dll_name + 16;
    if size > u32::MAX as u64 {
        return None;
    }
    let virtual_size: u32 = size as u32;
    let raw_size: u32 = match align_u32(virtual_size, pe.file_alignment) {
        Some(raw_size) => raw_size,
        None => return None,
    };
    let raw_pointer: usize = match align_usize(bytes.len(), pe.file_alignment as usize) {
        Some(raw_pointer) => raw_pointer,
        None => return None,
    };
    let virtual_address: u32 = match pe.next_section_virtual_address() {
        Some(virtual_address) => virtual_address,
        None => return None,
    };
    if virtual_address as u64 + dll_name > u32::MAX as u64 {
        return None;
    }
    if raw_size as usize > usize::MAX - raw_pointer {
        return None;
    }
    Some(
        HookLayout {
            descriptors: slice_to_vec(&bytes[offset..offset + 20 * count]),
            pe64: pe.is_pe64,
            ilt_offset: ilt as usize,
            iat_offset: iat as usize,
            by_name_offset: by_name as usize,
            dll_name_offset: dll_name as usize,
            virtual_size,
            virtual_address,
            raw_size,
            raw_pointer,
        },
    )
}

/// Rounds up to a multiple of `alignment`; `None` where the sum of the two does not fit.
pub fn align_usize(value: usize, alignment: usize) -> (r: Option<usize>)
    requires
        alignment > 0,
    ensures
        match r {
            Some(v) => (value == 0 || value + alignment <= usize::MAX) && v == align_up(
                value as int,
                alignment as int,
            ),
            None => value != 0 && value + alignment > usize::MAX,
        },
{
    proof {
        reveal(align_up);
    }
    if value == 0 {
        return Some(0);
    }
    if alignment > usize::MAX - value {
        return None;
    }
    proof {
        lemma_align_up(value as int, alignment as int);
    }
    Some(((value + alignment - 1) / alignment) * alignment)
}

/// Everything that adding the import needs to know of an image.
struct HookPlan {
    layout: HookLayout,
    header_offset: usize,
    file_header_offset: usize,
    number_of_sections: u16,
    size_of_image: u32,
    size_of_image_offset: usize,
    checksum_offset: usize,
    import_directory_offset: usize,
    table_size: u32,
}

impl HookPlan {
    spec fn wf(self, b: Seq<u8>, at: int, count: int) -> bool {
        &&& self.layout.wf(b, at, count)
        &&& self.header_offset == new_header_at(b)
        &&& self.file_header_offset == nt_at(b) + 4
        &&& self.number_of_sections == section_count(b)
        &&& self.size_of_image_offset == optional_at(b) + 56
        &&& self.checksum_offset == optional_at(b) + 64
        &&& self.import_directory_offset == directory_at(b)
        &&& self.table_size == table_size(count)
        &&& section_count(b) == u16::MAX || (image_fits(b, count) && self.size_of_image == align_up(
            hook_va(b) + hook_size(b, count),
            section_alignment(b) as int,
        ))
    }
}

/// Looks at an image and works out what adding the import takes.
fn plan_hook_import(bytes: &[u8]) -> (r: Result<HookPlan, HookFault>)
    ensures
        match r {
            Ok(plan) => {
                &&& header_fault(bytes@) is None
                &&& imports(bytes@, HOOK_DLL_NAME@) == Outcome::Value(false)
                &&& !has_section_named(bytes@, hook_section_name())
                &&& new_header_at(bytes@) + 40 <= headers_end(bytes@)
                &&& descriptors_of(bytes@) matches Outcome::Value((at, count)) && plan.wf(
                    bytes@,
                    at,
                    count,
                )
            },
            Err(HookFault::AlreadyPatched) => hook_import(bytes@) is AlreadyPatched,
            Err(HookFault::Pe(PeFault::Overflow)) => hook_import(bytes@) is Overflow,
            Err(HookFault::Pe(PeFault::Invalid(m))) => hook_import(bytes@) == HookImport::Invalid(
                m@,
                bytes@,
            ),
        },
{
    let ghost b = bytes@;
    let pe = match PeImage::parse(bytes) {
        Ok(pe) => pe,
        Err(fault) => return Err(HookFault::Pe(fault)),
    };
    let imported = match pe.imports_dll(HOOK_DLL_NAME) {
        Ok(imported) => imported,
        Err(fault) => return Err(HookFault::Pe(fault)),
    };
    let name: [u8; 8] = [0x2E, 0x73, 0x69, 0x67, 0x68, 0x6F, 0x6F, 0x6B];
    assert(name@ =~= hook_section_name());
    if imported || pe.has_section(&name) {
        return Err(HookFault::AlreadyPatched);
    }
    let descriptors = match pe.import_descriptors() {
        Ok(descriptors) => descriptors,
        Err(fault) => return Err(HookFault::Pe(fault)),
    };
    let ghost count = descriptors.count as int;
    proof {
        lemma_headers_in_file(b);
        assert(b.len() == bytes.len());
    }
    let header_offset: usize = pe.section_table_offset + pe.number_of_sections as usize * 40;
    if header_offset as u64 + 40 > headers_end_of(&pe) as u64 {
        return Err(
            HookFault::Pe(
                PeFault::Invalid(
                    "there is no room in the PE headers for a new section".to_owned(),
                ),
            ),
        );
    }
    proof {
        lemma_descriptors_in_file(b);
        lemma_layout(b, count);
    }
    let layout = match lay_out(&pe, descriptors.offset, descriptors.count) {
        Some(layout) => layout,
        None => return Err(HookFault::Pe(PeFault::Overflow)),
    };
    let mut size_of_image: u32 = 0;
    if pe.number_of_sections < u16::MAX {
        let end: u64 = layout.virtual_address as u64 + layout.virtual_size as u64;
        if end > u32::MAX as u64 {
            return Err(HookFault::Pe(PeFault::Overflow));
        }
        size_of_image =
        match align_u32(end as u32, pe.section_alignment) {
            Some(size_of_image) => size_of_image,
            None => return Err(HookFault::Pe(PeFault::Overflow)),
        };
    }
    Ok(
        HookPlan {
            layout,
            header_offset,
            file_header_offset: pe.file_header_offset,
            number_of_sections: pe.number_of_sections,
            size_of_image,
            size_of_image_offset: pe.size_of_image_offset,
            checksum_offset: pe.checksum_offset,
            import_directory_offset: pe.import_directory_offset,
            table_size: 20 * (descriptors.count as u32 + 2),
        },
    )
}

/// Whether the addresses of an image, and those that adding the import makes, fit in 32 bits.
pub fn hook_import_fits(bytes: &[u8]) -> (fits: bool)
    ensures
        fits == !(hook_import(bytes@) is Overflow),
{
    match plan_hook_import(bytes) {
        Err(HookFault::Pe(PeFault::Overflow)) => false,
        _ => true,
    }
}

/// Carries a plan out: appends the section, then points the headers at it. Fails, with the section
/// and its header already written, where there cannot be one more section.
fn apply_plan(bytes: &mut Vec<u8>, plan: &HookPlan, Ghost(at): Ghost<int>, Ghost(count): Ghost<int>)
    -> (done: bool)
    requires
        plan.wf(old(bytes)@, at, count),
    ensures
        done == (section_count(old(bytes)@) < u16::MAX),
        done ==> final(bytes)@ == with_import(old(bytes)@, at, count),
        !done ==> final(bytes)@ == with_section(old(bytes)@, at, count),
{
    let ghost b = bytes@;
    proof {
        reveal(with_section);
        reveal(with_import);
        lemma_layout(b, count);
        lemma_headers_in_file(b);
        assert(b.len() == bytes.len());
        assert(plan.layout.descriptors@.len() == 20 * count);
    }
    let layout = &plan.layout;
    let mut section = build_section(layout, Ghost(b), Ghost(at));
    bytes.resize(layout.raw_pointer, 0);
    bytes.append(&mut section);
    assert(hook_section(b, at, count).len() == hook_raw_size(b, count)) by {
        reveal(hook_section);
    }
    assert(bytes@ =~= grown(b, at, count));
    assert(bytes.len() >= b.len() + 40);
    write_section_header(
        bytes,
        plan.header_offset,
        layout.virtual_size,
        layout.virtual_address,
        layout.raw_size,
        (layout.raw_pointer as u64 % 0x1_0000_0000) as u32,
    );
    if plan.number_of_sections == u16::MAX {
        return false;
    }
    write_u16(bytes, plan.file_header_offset + 2, plan.number_of_sections + 1);
    write_u32(bytes, plan.size_of_image_offset, plan.size_of_image);
    write_u32(bytes, plan.checksum_offset, 0);
    write_u32(bytes, plan.import_directory_offset, layout.virtual_address);
    write_u32(bytes, plan.import_directory_offset + 4, plan.table_size);
    true
}

/// Adds the import of the hook library to an image.
pub fn add_hook_import(bytes: &mut Vec<u8>) -> (r: Result<(), HookFault>)
    requires
        !(hook_import(old(bytes)@) is Overflow),
    ensures
        match r {
            Ok(_) => hook_import(old(bytes)@) == HookImport::Patched(final(bytes)@),
            Err(HookFault::AlreadyPatched) => hook_import(old(bytes)@) is AlreadyPatched
                && final(bytes)@ == old(bytes)@,
            Err(HookFault::Pe(PeFault::Invalid(m))) => hook_import(old(bytes)@)
                == HookImport::Invalid(m@, final(bytes)@),
            Err(HookFault::Pe(PeFault::Overflow)) => false,
        },
{
    let ghost b = bytes@;
    let plan = match plan_hook_import(bytes) {
        Ok(plan) => plan,
        Err(fault) => return Err(fault),
    };
    let ghost (at, count) = descriptors_of(b)->Value_0;
    if apply_plan(bytes, &plan, Ghost(at), Ghost(count)) {
        Ok(())
    } else {
        Err(HookFault::Pe(PeFault::Invalid("too many PE sections".to_owned())))
    }
}

} // verus!

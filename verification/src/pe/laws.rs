//! What holds of an image, and of one that the import of the hook library was added to.

use vstd::prelude::*;
use vstd::utf8::encode_utf8;

use crate::bytes::{
    lemma_u16_round_trip, lemma_u16_same, lemma_u32_round_trip, lemma_u32_same, splice, u16_at,
    u16_bytes, u32_at, u32_bytes, zeros,
};
use crate::pe::hook::{
    by_name_offset, dll_name_offset, headers_end, hook_fits, hook_import, hook_raw_size,
    hook_raw_start, hook_section, hook_section_name, hook_size, hook_va, iat_offset, ilt_offset,
    lemma_layout, lemma_name_lengths, lowest_raw, new_header_at, pointer_size, section_header_bytes,
    table_size, with_import, with_section, HOOK_DLL_NAME, HOOK_IMPORT_NAME,
};
use crate::pe::image::{
    align_up, all_zero, c_string_at, descriptors_from, descriptors_of, directory_at, file_alignment,
    has_section_named, header_at, header_fault, import_rva, import_size, imported_name, imports,
    imports_from, lemma_align_up, lemma_counted_in_file, lemma_descriptors_in_file,
    lemma_headers_in_file, lemma_sections_end_monotone, lossy_text, machine_of, next_address, nt_at,
    offset_from, offset_of, optional_at, optional_magic, optional_size, section_alignment,
    section_count, section_raw, section_span, section_va, sections_end, size_of_headers, table_at,
    zero_from, Outcome,
};
use crate::text::lower_text;

verus! {

/// Whether the parts of an image that adding the import rewrites lie apart from each other and
/// from the parts that are read again, and the new section can be found by 32-bit addresses.
pub open spec fn parts_apart(b: Seq<u8>, count: int) -> bool {
    &&& nt_at(b) + 8 <= 0x3C || nt_at(b) + 6 >= 0x40
    &&& directory_at(b) + 8 <= table_at(b)
    &&& new_header_at(b) + 40 <= hook_raw_start(b)
    &&& hook_raw_start(b) + hook_raw_size(b, count) <= u32::MAX
    &&& hook_va(b) + hook_raw_size(b, count) <= u32::MAX
}

/// Bytes that adding the import does not touch.
spec fn untouched(b: Seq<u8>, i: int) -> bool {
    &&& 0 <= i < b.len()
    &&& !(nt_at(b) + 6 <= i < nt_at(b) + 8)
    &&& !(optional_at(b) + 56 <= i < optional_at(b) + 60)
    &&& !(optional_at(b) + 64 <= i < optional_at(b) + 68)
    &&& !(directory_at(b) <= i < directory_at(b) + 8)
    &&& !(new_header_at(b) <= i < new_header_at(b) + 40)
}

/// A buffer with a section header and the fields of the headers that go with it rewritten.
#[verifier::opaque]
spec fn rewritten(
    g: Seq<u8>,
    header_at: int,
    header: Seq<u8>,
    count_at: int,
    count: u16,
    size_at: int,
    size: u32,
    checksum_at: int,
    directory_at: int,
    rva: u32,
    table: u32,
) -> Seq<u8> {
    let s0 = splice(g, header_at, header);
    let s1 = splice(s0, count_at, u16_bytes(count));
    let s2 = splice(s1, size_at, u32_bytes(size));
    let s3 = splice(s2, checksum_at, u32_bytes(0));
    let s4 = splice(s3, directory_at, u32_bytes(rva));
    splice(s4, directory_at + 4, u32_bytes(table))
}

/// Rewriting fields that lie apart from each other leaves every other byte, and each field reads
/// back as what was written to it.
proof fn lemma_rewritten(
    b: Seq<u8>,
    pad: nat,
    section: Seq<u8>,
    header_at: int,
    header: Seq<u8>,
    count_at: int,
    count: u16,
    size_at: int,
    size: u32,
    checksum_at: int,
    directory_at: int,
    rva: u32,
    table: u32,
)
    requires
        0 <= count_at,
        count_at + 2 <= size_at,
        size_at + 4 <= checksum_at,
        checksum_at + 4 <= directory_at,
        directory_at + 8 <= header_at,
        header_at + 40 <= b.len() + pad,
        header.len() == 40,
    ensures
        ({
            let g = b + zeros(pad) + section;
            let w = rewritten(
                g,
                header_at,
                header,
                count_at,
                count,
                size_at,
                size,
                checksum_at,
                directory_at,
                rva,
                table,
            );
            &&& w.len() == g.len()
            &&& forall|i: int|
                0 <= i < b.len() && !(count_at <= i < count_at + 2) && !(size_at <= i < size_at + 4)
                    && !(checksum_at <= i < checksum_at + 4) && !(directory_at <= i < directory_at
                    + 8) && !(header_at <= i < header_at + 40) ==> #[trigger] w[i] == b[i]
            &&& forall|i: int|
                b.len() + pad <= i < w.len() ==> #[trigger] w[i] == section[i - b.len() - pad]
            &&& w.subrange(header_at, header_at + 40) == header
            &&& u16_at(w, count_at) == count
            &&& u32_at(w, size_at) == size
            &&& u32_at(w, checksum_at) == 0
            &&& u32_at(w, directory_at) == rva
            &&& u32_at(w, directory_at + 4) == table
        }),
{
    reveal(rewritten);
    let g = b + zeros(pad) + section;
    let s0 = splice(g, header_at, header);
    let s1 = splice(s0, count_at, u16_bytes(count));
    let s2 = splice(s1, size_at, u32_bytes(size));
    let s3 = splice(s2, checksum_at, u32_bytes(0));
    let s4 = splice(s3, directory_at, u32_bytes(rva));
    let s5 = splice(s4, directory_at + 4, u32_bytes(table));
    assert(s5.subrange(header_at, header_at + 40) =~= header);
    lemma_u16_round_trip(s0, count_at, count);
    lemma_u32_round_trip(s1, size_at, size);
    lemma_u32_round_trip(s2, checksum_at, 0);
    lemma_u32_round_trip(s3, directory_at, rva);
    lemma_u32_round_trip(s4, directory_at + 4, table);
    lemma_u16_same(s5, count_at, s1, count_at);
    lemma_u32_same(s5, size_at, s2, size_at);
    lemma_u32_same(s5, checksum_at, s3, checksum_at);
    lemma_u32_same(s5, directory_at, s4, directory_at);
}

/// The header that is written to the section table.
spec fn new_header(b: Seq<u8>, count: int) -> Seq<u8> {
    section_header_bytes(
        hook_size(b, count) as u32,
        hook_va(b) as u32,
        hook_raw_size(b, count) as u32,
        hook_raw_start(b) as u32,
    )
}

spec fn new_image_size(b: Seq<u8>, count: int) -> u32 {
    align_up(hook_va(b) + hook_size(b, count), section_alignment(b) as int) as u32
}

/// Adding the import is a rewriting of the grown file, with its fields in order.
proof fn lemma_shape(b: Seq<u8>, at: int, count: int)
    requires
        header_fault(b) is None,
        0 <= count,
        hook_fits(b, count),
        section_count(b) < u16::MAX,
        parts_apart(b, count),
    ensures
        with_import(b, at, count) == rewritten(
            b + zeros((hook_raw_start(b) - b.len()) as nat) + hook_section(b, at, count),
            new_header_at(b),
            new_header(b, count),
            nt_at(b) + 6,
            (section_count(b) + 1) as u16,
            optional_at(b) + 56,
            new_image_size(b, count),
            optional_at(b) + 64,
            directory_at(b),
            hook_va(b) as u32,
            table_size(count) as u32,
        ),
        b.len() <= hook_raw_start(b),
        hook_section(b, at, count).len() == hook_raw_size(b, count),
        optional_at(b) + 68 <= directory_at(b),
        directory_at(b) + 8 <= new_header_at(b),
        new_header(b, count).len() == 40,
        0 <= hook_va(b) <= u32::MAX,
        0 <= table_size(count) <= u32::MAX,
{
    lemma_layout(b, count);
    reveal(rewritten);
    reveal(with_section);
    reveal(with_import);
    assert(hook_section(b, at, count).len() == hook_raw_size(b, count)) by {
        reveal(hook_section);
    }
    assert(new_header(b, count).len() == 40) by {
        reveal(section_header_bytes);
    }
    assert(0 <= hook_va(b)) by {
        lemma_next_address(b);
    }
}

proof fn lemma_next_address(b: Seq<u8>)
    requires
        section_alignment(b) > 0,
    ensures
        next_address(b) matches Some(address) ==> sections_end(b, section_count(b)) <= address
            <= u32::MAX,
        0 <= sections_end(b, section_count(b)),
{
    lemma_sections_end_monotone(b, 0, section_count(b));
    let end = sections_end(b, section_count(b));
    lemma_align_up(end, section_alignment(b) as int);
}

proof fn lemma_bytes(b: Seq<u8>, at: int, count: int)
    requires
        header_fault(b) is None,
        0 <= count,
        hook_fits(b, count),
        section_count(b) < u16::MAX,
        parts_apart(b, count),
    ensures
        ({
            let nb = with_import(b, at, count);
            let start = hook_raw_start(b);
            &&& nb.len() == start + hook_raw_size(b, count)
            &&& forall|i: int| untouched(b, i) ==> #[trigger] nb[i] == b[i]
            &&& forall|i: int|
                start <= i < nb.len() ==> #[trigger] nb[i] == hook_section(b, at, count)[i - start]
            &&& u16_at(nb, nt_at(b) + 6) == section_count(b) + 1
            &&& u32_at(nb, optional_at(b) + 56) == new_image_size(b, count)
            &&& u32_at(nb, optional_at(b) + 64) == 0
            &&& u32_at(nb, directory_at(b)) == hook_va(b)
            &&& u32_at(nb, directory_at(b) + 4) == table_size(count)
            &&& nb.subrange(new_header_at(b), new_header_at(b) + 40) == new_header(
                b,
                count,
            )
        }),
{
    lemma_shape(b, at, count);
    lemma_rewritten(
        b,
        (hook_raw_start(b) - b.len()) as nat,
        hook_section(b, at, count),
        new_header_at(b),
        new_header(b, count),
        nt_at(b) + 6,
        (section_count(b) + 1) as u16,
        optional_at(b) + 56,
        new_image_size(b, count),
        optional_at(b) + 64,
        directory_at(b),
        hook_va(b) as u32,
        table_size(count) as u32,
    );
}

/// What the headers of an image with the import read as.
spec fn headers_follow(b: Seq<u8>, nb: Seq<u8>, count: int) -> bool {
    &&& nt_at(nb) == nt_at(b)
    &&& machine_of(nb) == machine_of(b)
    &&& optional_size(nb) == optional_size(b)
    &&& optional_magic(nb) == optional_magic(b)
    &&& section_alignment(nb) == section_alignment(b)
    &&& file_alignment(nb) == file_alignment(b)
    &&& size_of_headers(nb) == size_of_headers(b)
    &&& section_count(nb) == section_count(b) + 1
    &&& import_rva(nb) == hook_va(b)
    &&& import_size(nb) == table_size(count)
}

proof fn lemma_headers(b: Seq<u8>, at: int, count: int)
    requires
        header_fault(b) is None,
        0 <= count,
        hook_fits(b, count),
        section_count(b) < u16::MAX,
        parts_apart(b, count),
    ensures
        headers_follow(b, with_import(b, at, count), count),
        header_fault(with_import(b, at, count)) is None,
{
    let nb = with_import(b, at, count);
    lemma_bytes(b, at, count);
    lemma_headers_in_file(b);
    lemma_layout(b, count);
    lemma_u32_same(nb, 0x3C, b, 0x3C);
    let nt = nt_at(b);
    lemma_u32_same(nb, nt, b, nt);
    lemma_u16_same(nb, nt + 4, b, nt + 4);
    lemma_u16_same(nb, nt + 20, b, nt + 20);
    lemma_u16_same(nb, nt + 24, b, nt + 24);
    lemma_u32_same(nb, nt + 24 + 32, b, nt + 24 + 32);
    lemma_u32_same(nb, nt + 24 + 36, b, nt + 24 + 36);
    lemma_u32_same(nb, nt + 24 + 60, b, nt + 24 + 60);
    assert(nb[0] == b[0] && nb[1] == b[1]);
}

/// The sections of an image with the import: those from before, and one more.
spec fn sections_follow(b: Seq<u8>, nb: Seq<u8>, count: int) -> bool {
    let n = section_count(b);
    &&& forall|i: int|
        #![trigger section_va(nb, i)]
        #![trigger section_span(nb, i)]
        #![trigger section_raw(nb, i)]
        0 <= i < n ==> section_va(nb, i) == section_va(b, i) && section_span(nb, i) == section_span(
            b,
            i,
        ) && section_raw(nb, i) == section_raw(b, i)
    &&& section_va(nb, n) == hook_va(b)
    &&& section_span(nb, n) == hook_raw_size(b, count)
    &&& section_raw(nb, n) == hook_raw_start(b)
    &&& nb.subrange(header_at(nb, n), header_at(nb, n) + 8) == hook_section_name()
}

proof fn lemma_sections(b: Seq<u8>, at: int, count: int)
    requires
        header_fault(b) is None,
        0 <= count,
        hook_fits(b, count),
        section_count(b) < u16::MAX,
        parts_apart(b, count),
    ensures
        sections_follow(b, with_import(b, at, count), count),
{
    let nb = with_import(b, at, count);
    let n = section_count(b);
    lemma_bytes(b, at, count);
    lemma_headers(b, at, count);
    lemma_headers_in_file(b);
    lemma_layout(b, count);
    lemma_shape(b, at, count);
    assert forall|i: int|
        #![trigger section_va(nb, i)]
        #![trigger section_span(nb, i)]
        #![trigger section_raw(nb, i)]
        0 <= i < n implies section_va(nb, i) == section_va(b, i) && section_span(nb, i)
        == section_span(b, i) && section_raw(nb, i) == section_raw(b, i) by {
        let h = header_at(b, i);
        assert(header_at(nb, i) == h);
        assert(h + 40 <= new_header_at(b));
        lemma_u32_same(nb, h + 8, b, h + 8);
        lemma_u32_same(nb, h + 12, b, h + 12);
        lemma_u32_same(nb, h + 16, b, h + 16);
        lemma_u32_same(nb, h + 20, b, h + 20);
    }
    let h = new_header_at(b);
    let header = new_header(b, count);
    assert(header_at(nb, n) == h);
    assert forall|k: int| 0 <= k < 40 implies #[trigger] nb[h + k] == header[k] by {
        assert(nb.subrange(h, h + 40)[k] == nb[h + k]);
    }
    lemma_header_reads(
        hook_size(b, count) as u32,
        hook_va(b) as u32,
        hook_raw_size(b, count) as u32,
        hook_raw_start(b) as u32,
    );
    lemma_u32_same(nb, h + 8, header, 8);
    lemma_u32_same(nb, h + 12, header, 12);
    lemma_u32_same(nb, h + 16, header, 16);
    lemma_u32_same(nb, h + 20, header, 20);
    assert(nb.subrange(h, h + 8) =~= header.subrange(0, 8));
}

/// A section header reads back as the values that it was made of.
proof fn lemma_header_reads(
    virtual_size: u32,
    virtual_address: u32,
    raw_size: u32,
    raw_pointer: u32,
)
    ensures
        ({
            let header = section_header_bytes(
                virtual_size,
                virtual_address,
                raw_size,
                raw_pointer,
            );
            &&& header.len() == 40
            &&& header.subrange(0, 8) == hook_section_name()
            &&& u32_at(header, 8) == virtual_size
            &&& u32_at(header, 12) == virtual_address
            &&& u32_at(header, 16) == raw_size
            &&& u32_at(header, 20) == raw_pointer
            &&& header.subrange(24, 36) == zeros(12)
            &&& u32_at(header, 36) == 0xC000_0040
        }),
{
    reveal(section_header_bytes);
    let header = section_header_bytes(virtual_size, virtual_address, raw_size, raw_pointer);
    assert(header.subrange(0, 8) =~= hook_section_name());
    lemma_u32_of_bytes(header, 8, virtual_size);
    lemma_u32_of_bytes(header, 12, virtual_address);
    lemma_u32_of_bytes(header, 16, raw_size);
    lemma_u32_of_bytes(header, 20, raw_pointer);
    assert(header.subrange(24, 36) =~= zeros(12));
    lemma_u32_of_bytes(header, 36, 0xC000_0040);
}

proof fn lemma_u32_of_bytes(s: Seq<u8>, at: int, v: u32)
    requires
        forall|k: int| 0 <= k < 4 ==> #[trigger] s[at + k] == u32_bytes(v)[k],
        0 <= at,
        at + 4 <= s.len(),
    ensures
        u32_at(s, at) == v,
{
    let t = splice(s, at, u32_bytes(v));
    lemma_u32_round_trip(s, at, v);
    lemma_u32_same(s, at, t, at);
}

/// What stands in the new section.
spec fn section_holds(b: Seq<u8>, at: int, count: int, sec: Seq<u8>) -> bool {
    let dll_at = dll_name_offset(b, count);
    let name = encode_utf8(HOOK_DLL_NAME@);
    &&& sec.len() == hook_raw_size(b, count)
    &&& forall|k: int| 0 <= k < 20 * count ==> #[trigger] sec[k] == b[at + k]
    &&& u32_at(sec, 20 * count) == hook_va(b) + ilt_offset(b, count)
    &&& forall|k: int| 20 * count + 4 <= k < 20 * count + 12 ==> #[trigger] sec[k] == 0
    &&& u32_at(sec, 20 * count + 12) == hook_va(b) + dll_at
    &&& u32_at(sec, 20 * count + 16) == hook_va(b) + iat_offset(b, count)
    &&& u32_at(sec, ilt_offset(b, count)) == hook_va(b) + by_name_offset(b, count)
    &&& u32_at(sec, iat_offset(b, count)) == hook_va(b) + by_name_offset(b, count)
    &&& forall|k: int|
        ilt_offset(b, count) + 4 <= k < iat_offset(b, count) ==> #[trigger] sec[k] == 0
    &&& forall|k: int|
        iat_offset(b, count) + 4 <= k < by_name_offset(b, count) + 2 ==> #[trigger] sec[k] == 0
    &&& forall|k: int|
        0 <= k < 20 ==> #[trigger] sec[by_name_offset(b, count) + 2 + k] == encode_utf8(
            HOOK_IMPORT_NAME@,
        )[k]
    &&& sec[by_name_offset(b, count) + 22] == 0
    &&& forall|k: int| 20 * (count + 1) <= k < 20 * (count + 2) ==> #[trigger] sec[k] == 0
    &&& forall|k: int| dll_at <= k < dll_at + 15 ==> #[trigger] sec[k] == name[k - dll_at]
    &&& forall|k: int| dll_at + 15 <= k < sec.len() ==> #[trigger] sec[k] == 0
}

proof fn lemma_section_holds(b: Seq<u8>, at: int, count: int)
    requires
        header_fault(b) is None,
        0 <= count,
        0 <= at,
        at + 20 * count <= b.len(),
        hook_fits(b, count),
    ensures
        section_holds(b, at, count, hook_section(b, at, count)),
{
    reveal(hook_section);
    lemma_layout(b, count);
    lemma_name_lengths();
    lemma_next_address(b);
    let sec = hook_section(b, at, count);
    lemma_u32_of_bytes(sec, 20 * count, (hook_va(b) + ilt_offset(b, count)) as u32);
    lemma_u32_of_bytes(sec, 20 * count + 12, (hook_va(b) + dll_name_offset(b, count)) as u32);
    lemma_u32_of_bytes(sec, 20 * count + 16, (hook_va(b) + iat_offset(b, count)) as u32);
    let hint = (hook_va(b) + by_name_offset(b, count)) as u32;
    lemma_u32_of_bytes(sec, ilt_offset(b, count), hint);
    lemma_u32_of_bytes(sec, iat_offset(b, count), hint);
}

/// Every section ends before the address of the new one.
proof fn lemma_ends_before(b: Seq<u8>, i: int, n: int)
    requires
        0 <= i < n,
    ensures
        section_va(b, i) + section_span(b, i) <= sections_end(b, n),
    decreases n,
{
    if i < n - 1 {
        lemma_ends_before(b, i, n - 1);
    }
}

/// An address in the new section is found there.
proof fn lemma_new_address(b: Seq<u8>, nb: Seq<u8>, count: int, rva: u32, i: int)
    requires
        sections_follow(b, nb, count),
        section_count(nb) == section_count(b) + 1,
        0 <= i <= section_count(b),
        section_alignment(b) > 0,
        next_address(b) is Some,
        hook_va(b) <= rva < hook_va(b) + hook_raw_size(b, count),
        hook_raw_start(b) + hook_raw_size(b, count) <= u32::MAX,
        hook_va(b) + hook_raw_size(b, count) <= u32::MAX,
    ensures
        offset_from(nb, rva, i) == Outcome::Value(rva - hook_va(b) + hook_raw_start(b)),
    decreases section_count(b) - i,
{
    let n = section_count(b);
    lemma_next_address(b);
    if i < n {
        lemma_ends_before(b, i, n);
        assert(section_va(nb, i) == section_va(b, i));
        lemma_new_address(b, nb, count, rva, i + 1);
    } else {
        assert(section_va(nb, n) == hook_va(b));
    }
}

/// An address that was found in the file is found in the new file too.
proof fn lemma_old_address(b: Seq<u8>, nb: Seq<u8>, count: int, rva: u32, i: int)
    requires
        headers_follow(b, nb, count),
        sections_follow(b, nb, count),
        0 <= i <= section_count(b),
        offset_from(b, rva, i) matches Outcome::Value(o) && 0 <= o < b.len(),
        b.len() <= hook_raw_start(b),
        0 <= hook_va(b),
        nb.len() == hook_raw_start(b) + hook_raw_size(b, count),
        hook_raw_start(b) + hook_raw_size(b, count) <= u32::MAX,
        hook_va(b) + hook_raw_size(b, count) <= u32::MAX,
    ensures
        offset_from(nb, rva, i) matches Outcome::Value(o) && 0 <= o < nb.len(),
    decreases section_count(b) - i,
{
    let n = section_count(b);
    if i < n {
        assert(section_va(nb, i) == section_va(b, i));
        if rva < section_va(b, i) || rva >= section_va(b, i) + section_span(b, i) {
            lemma_old_address(b, nb, count, rva, i + 1);
        }
    } else {
        assert(section_va(nb, n) == hook_va(b));
        reveal_with_fuel(offset_from, 2);
    }
}

/// A zero byte further on ends the text.
proof fn lemma_zero_ahead(b: Seq<u8>, at: int, zero: int)
    requires
        0 <= at <= zero < b.len(),
        b[zero] == 0,
    ensures
        at <= zero_from(b, at) <= zero,
        forall|k: int| at <= k < zero_from(b, at) ==> b[k] != 0,
    decreases zero - at,
{
    if b[at] != 0 {
        lemma_zero_ahead(b, at + 1, zero);
    }
}

/// Counting the descriptors of the new section finds all of them.
proof fn lemma_count(b: Seq<u8>, nb: Seq<u8>, at: int, count: int, m: int)
    requires
        0 <= m <= count + 1,
        section_holds(b, at, count, hook_section(b, at, count)),
        import_size(nb) == table_size(count),
        table_size(count) <= hook_raw_size(b, count),
        nb.len() == hook_raw_start(b) + hook_raw_size(b, count),
        forall|i: int|
            hook_raw_start(b) <= i < nb.len() ==> #[trigger] nb[i] == hook_section(
                b,
                at,
                count,
            )[i - hook_raw_start(b)],
        hook_va(b) + ilt_offset(b, count) > 0,
        forall|i: int| 0 <= i < count ==> !#[trigger] all_zero(b, at + 20 * i, 20),
        0 <= hook_raw_start(b),
    ensures
        descriptors_from(nb, hook_raw_start(b), m) == Outcome::Value(count + 1),
    decreases count + 1 - m,
{
    let start = hook_raw_start(b);
    let sec = hook_section(b, at, count);
    if m < count {
        assert(!all_zero(b, at + 20 * m, 20));
        let k = choose|k: int| at + 20 * m <= k < at + 20 * m + 20 && b[k] != 0;
        assert(sec[k - at] == b[at + (k - at)]);
        assert(nb[start + (k - at)] == sec[start + (k - at) - start]);
        assert(!all_zero(nb, start + 20 * m, 20));
        lemma_count(b, nb, at, count, m + 1);
    } else if m == count {
        assert(!all_zero(nb, start + 20 * m, 20)) by {
            if all_zero(nb, start + 20 * m, 20) {
                assert forall|j: int| 0 <= j < 4 implies #[trigger] sec[20 * count + j]
                    == zeros(4)[j] by {
                    assert(nb[start + (20 * count + j)] == sec[start + (20 * count + j) - start]);
                }
                lemma_u32_same(sec, 20 * count, zeros(4), 0);
                reveal(u32_at);
            }
        }
        lemma_count(b, nb, at, count, m + 1);
    } else {
        assert forall|i: int| start + 20 * m <= i < start + 20 * m + 20 implies nb[i] == 0 by {
            assert(sec[i - start] == 0);
        }
    }
}

/// The name that the new descriptor points to.
proof fn lemma_new_name(b: Seq<u8>, nb: Seq<u8>, at: int, count: int)
    requires
        section_holds(b, at, count, hook_section(b, at, count)),
        sections_follow(b, nb, count),
        section_count(nb) == section_count(b) + 1,
        section_count(b) >= 0,
        header_fault(b) is None,
        0 <= count,
        hook_fits(b, count),
        hook_raw_start(b) + hook_raw_size(b, count) <= u32::MAX,
        hook_va(b) + hook_raw_size(b, count) <= u32::MAX,
        nb.len() == hook_raw_start(b) + hook_raw_size(b, count),
        forall|i: int|
            hook_raw_start(b) <= i < nb.len() ==> #[trigger] nb[i] == hook_section(
                b,
                at,
                count,
            )[i - hook_raw_start(b)],
    ensures
        imported_name(nb, hook_raw_start(b) + 20 * count) == Outcome::Value(HOOK_DLL_NAME@),
{
    let start = hook_raw_start(b);
    let sec = hook_section(b, at, count);
    let dll_at = dll_name_offset(b, count);
    let name = encode_utf8(HOOK_DLL_NAME@);
    lemma_layout(b, count);
    lemma_name_lengths();
    lemma_next_address(b);
    assert forall|k: int| 0 <= k < 4 implies #[trigger] nb[start + 20 * count + 12 + k]
        == sec[20 * count + 12 + k] by {
        let i = start + 20 * count + 12 + k;
        assert(nb[i] == sec[i - start]);
    }
    lemma_u32_same(nb, start + 20 * count + 12, sec, 20 * count + 12);
    let rva = (hook_va(b) + dll_at) as u32;
    lemma_new_address(b, nb, count, rva, 0);
    let o = start + dll_at;
    assert(sec[dll_at + 15] == 0);
    assert(nb[o + 15] == sec[o + 15 - start]);
    lemma_zero_ahead(nb, o, o + 15);
    reveal_strlit("siglus_hook.dll");
    vstd::utf8::is_ascii_chars_encode_utf8(HOOK_DLL_NAME@);
    assert forall|k: int| 0 <= k < 15 implies nb[o + k] == name[k] && name[k] != 0 by {
        assert(nb[o + k] == sec[o + k - start]);
        assert(sec[dll_at + k] == name[dll_at + k - dll_at]);
    }
    let z = zero_from(nb, o);
    assert(z < nb.len() && nb[z] == 0) by {
        lemma_zero_found(nb, o);
    }
    assert(z == o + 15) by {
        if z < o + 15 {
            assert(nb[o + (z - o)] != 0);
        }
    }
    assert(nb.subrange(o, z) =~= name);
    vstd::utf8::encode_utf8_valid_utf8(HOOK_DLL_NAME@);
    vstd::utf8::encode_utf8_decode_utf8(HOOK_DLL_NAME@);
}

/// Where a text ends before the end of the file, a zero byte ends it.
proof fn lemma_zero_found(b: Seq<u8>, at: int)
    requires
        0 <= at,
        zero_from(b, at) < b.len(),
    ensures
        b[zero_from(b, at)] == 0,
    decreases b.len() - at,
{
    if at < b.len() && b[at] != 0 {
        lemma_zero_found(b, at + 1);
    }
}

proof fn lemma_offset_nonnegative(b: Seq<u8>, rva: u32, i: int)
    ensures
        offset_from(b, rva, i) matches Outcome::Value(o) ==> 0 <= o,
    decreases section_count(b) - i,
{
    if i < section_count(b) {
        lemma_offset_nonnegative(b, rva, i + 1);
    }
}

/// What holds of a file, its descriptors and the new file on the way to the law.
spec fn patched_ready(b: Seq<u8>, nb: Seq<u8>, at: int, count: int) -> bool {
    &&& header_fault(b) is None
    &&& 0 <= count
    &&& 0 <= at
    &&& at + 20 * count <= b.len()
    &&& hook_fits(b, count)
    &&& section_count(b) < u16::MAX
    &&& parts_apart(b, count)
    &&& nb == with_import(b, at, count)
}

/// Looking the hook library up in the new descriptors finds it.
proof fn lemma_imports(b: Seq<u8>, nb: Seq<u8>, at: int, count: int, i: int)
    requires
        patched_ready(b, nb, at, count),
        0 <= i <= count,
        imports_from(b, at, count, HOOK_DLL_NAME@, i) == Outcome::Value(false),
    ensures
        imports_from(nb, hook_raw_start(b), count + 1, HOOK_DLL_NAME@, i) == Outcome::Value(true),
    decreases count - i,
{
    let start = hook_raw_start(b);
    let sec = hook_section(b, at, count);
    lemma_bytes(b, at, count);
    lemma_headers(b, at, count);
    lemma_sections(b, at, count);
    lemma_section_holds(b, at, count);
    lemma_layout(b, count);
    lemma_next_address(b);
    if i < count {
        let old_at = at + 20 * i + 12;
        let new_at = start + 20 * i + 12;
        assert forall|k: int| 0 <= k < 4 implies #[trigger] nb[new_at + k] == b[old_at + k] by {
            assert(nb[new_at + k] == sec[new_at + k - start]);
            assert(sec[20 * i + 12 + k] == b[at + (20 * i + 12 + k)]);
        }
        lemma_u32_same(nb, new_at, b, old_at);
        let rva = u32_at(b, old_at);
        assert(imported_name(b, at + 20 * i) is Value);
        lemma_offset_nonnegative(b, rva, 0);
        lemma_old_address(b, nb, count, rva, 0);
        let o = offset_of(nb, rva)->Value_0;
        assert(sec[sec.len() - 1] == 0);
        assert(nb[nb.len() - 1] == sec[nb.len() - 1 - start]);
        lemma_zero_ahead(nb, o, nb.len() - 1);
        assert(imported_name(nb, start + 20 * i) is Value);
        lemma_imports(b, nb, at, count, i + 1);
    } else {
        lemma_new_name(b, nb, at, count);
    }
}

/// The image that adding the import yields can be read, is for the same machine, has one section
/// more, the hook section, and is recognised as patched. Where its new section is mapped at all, it
/// imports the hook library, and the descriptors from before stand unchanged in front of the new
/// one.
pub proof fn law_patched_image_imports_hook(b: Seq<u8>)
    requires
        hook_import(b) is Patched,
        parts_apart(b, descriptors_of(b)->Value_0.1),
    ensures
        ({
            let nb = hook_import(b)->Patched_0;
            let (at, count) = descriptors_of(b)->Value_0;
            let start = hook_raw_start(b);
            &&& header_fault(nb) is None
            &&& machine_of(nb) == machine_of(b)
            &&& section_count(nb) == section_count(b) + 1
            &&& has_section_named(nb, hook_section_name())
            &&& hook_import(nb) is AlreadyPatched
            &&& hook_va(b) > 0 ==> {
                &&& imports(nb, HOOK_DLL_NAME@) == Outcome::Value(true)
                &&& descriptors_of(nb) == Outcome::Value((start, count + 1))
                &&& nb.subrange(start, start + 20 * count) == b.subrange(at, at + 20 * count)
            }
        }),
{
    let nb = hook_import(b)->Patched_0;
    let (at, count) = descriptors_of(b)->Value_0;
    let start = hook_raw_start(b);
    let sec = hook_section(b, at, count);
    lemma_descriptors_in_file(b);
    if import_rva(b) != 0 {
        lemma_offset_nonnegative(b, import_rva(b), 0);
        lemma_counted_in_file(b, at, 0);
    }
    assert(patched_ready(b, nb, at, count));
    lemma_bytes(b, at, count);
    lemma_headers(b, at, count);
    lemma_sections(b, at, count);
    lemma_section_holds(b, at, count);
    lemma_layout(b, count);
    lemma_next_address(b);
    let n = section_count(b);
    assert(nb.subrange(header_at(nb, n), header_at(nb, n) + 8) == hook_section_name());
    if hook_va(b) > 0 {
        lemma_new_address(b, nb, count, import_rva(nb), 0);
        lemma_count(b, nb, at, count, 0);
        lemma_imports(b, nb, at, count, 0);
        assert forall|k: int| 0 <= k < 20 * count implies #[trigger] nb[start + k] == b[at + k] by {
            assert(nb[start + k] == sec[start + k - start]);
            assert(sec[k] == b[at + k]);
        }
        assert(nb.subrange(start, start + 20 * count) =~= b.subrange(at, at + 20 * count));
    }
}

/// The new section is mapped at the lowest multiple of the section alignment that no section
/// reaches: every section, with what it takes in the file or in memory, ends at or below that
/// address, and one of them ends less than the alignment below it.
pub proof fn law_new_section_is_adjacent(b: Seq<u8>, i: int)
    requires
        section_alignment(b) > 0,
        next_address(b) is Some,
    ensures
        ({
            let address = next_address(b)->0;
            let n = section_count(b);
            &&& address % (section_alignment(b) as int) == 0
            &&& 0 <= i < n ==> {
                &&& u32_at(b, header_at(b, i) + 12) + u32_at(b, header_at(b, i) + 8) <= address
                &&& u32_at(b, header_at(b, i) + 12) + u32_at(b, header_at(b, i) + 16) <= address
            }
            &&& n == 0 ==> address == 0
            &&& n > 0 ==> exists|j: int|
                #![trigger header_at(b, j)]
                {
                    let va = u32_at(b, header_at(b, j) + 12);
                    &&& 0 <= j < n
                    &&& {
                        ||| va + u32_at(b, header_at(b, j) + 8) > address - section_alignment(b)
                        ||| va + u32_at(b, header_at(b, j) + 16) > address - section_alignment(b)
                    }
                }
        }),
{
    let n = section_count(b);
    let end = sections_end(b, n);
    lemma_next_address(b);
    lemma_align_up(end, section_alignment(b) as int);
    if 0 <= i < n {
        lemma_ends_before(b, i, n);
    }
    if n > 0 {
        let j = lemma_last_end(b, n);
        let h = header_at(b, j);
    } else {
        reveal(align_up);
    }
}

/// The address of the new section cannot be given only where a section ends too near the end of
/// the address space to be rounded up from.
pub proof fn law_new_section_has_no_address(b: Seq<u8>)
    requires
        section_alignment(b) > 0,
        next_address(b) is None,
    ensures
        exists|j: int|
            #![trigger header_at(b, j)]
            {
                let va = u32_at(b, header_at(b, j) + 12);
                &&& 0 <= j < section_count(b)
                &&& {
                    ||| va + u32_at(b, header_at(b, j) + 8) + section_alignment(b) > u32::MAX
                    ||| va + u32_at(b, header_at(b, j) + 16) + section_alignment(b) > u32::MAX
                }
            },
{
    let j = lemma_last_end(b, section_count(b));
    let h = header_at(b, j);
}

/// The end of the sections is the end of one of them.
proof fn lemma_last_end(b: Seq<u8>, n: int) -> (j: int)
    requires
        0 < n,
    ensures
        0 <= j < n,
        section_va(b, j) + section_span(b, j) == sections_end(b, n),
    decreases n,
{
    if n == 1 || section_va(b, n - 1) + section_span(b, n - 1) > sections_end(b, n - 1) {
        lemma_sections_end_monotone(b, 0, n);
        reveal_with_fuel(sections_end, 2);
        n - 1
    } else {
        lemma_last_end(b, n - 1)
    }
}

/// Whether an address lies in section `i`, in what it takes in memory or in the file.
pub open spec fn lies_in(b: Seq<u8>, rva: u32, i: int) -> bool {
    let va = u32_at(b, header_at(b, i) + 12);
    &&& va <= rva
    &&& rva < va + u32_at(b, header_at(b, i) + 8) || rva < va + u32_at(b, header_at(b, i) + 16)
}

/// Whether section `i` ends within the address space.
pub open spec fn ends_in_space(b: Seq<u8>, i: int) -> bool {
    let va = u32_at(b, header_at(b, i) + 12);
    &&& va + u32_at(b, header_at(b, i) + 8) <= u32::MAX
    &&& va + u32_at(b, header_at(b, i) + 16) <= u32::MAX
}

/// An address is as far into the bytes of the first section that it lies in as it is into that
/// section; one in no section is an offset into the headers, as far as these reach.
pub proof fn law_address_is_looked_up(b: Seq<u8>, rva: u32, i: int)
    requires
        0 <= i <= section_count(b),
        forall|j: int| 0 <= j < section_count(b) ==> #[trigger] ends_in_space(b, j),
        forall|j: int| 0 <= j < i ==> !#[trigger] lies_in(b, rva, j),
        i < section_count(b) ==> lies_in(b, rva, i),
    ensures
        i < section_count(b) ==> {
            let offset = rva - u32_at(b, header_at(b, i) + 12) + u32_at(b, header_at(b, i) + 20);
            if offset <= u32::MAX {
                offset_of(b, rva) == Outcome::Value(offset)
            } else {
                offset_of(b, rva) is Overflow
            }
        },
        i == section_count(b) && rva < size_of_headers(b) ==> offset_of(b, rva) == Outcome::Value(
            rva as int,
        ),
        i == section_count(b) && rva >= size_of_headers(b) ==> offset_of(b, rva) is Fault,
{
    lemma_looked_up(b, rva, 0, i);
}

proof fn lemma_looked_up(b: Seq<u8>, rva: u32, from: int, i: int)
    requires
        0 <= from <= i <= section_count(b),
        forall|j: int| 0 <= j < section_count(b) ==> #[trigger] ends_in_space(b, j),
        forall|j: int| 0 <= j < i ==> !#[trigger] lies_in(b, rva, j),
    ensures
        offset_from(b, rva, from) == offset_from(b, rva, i),
        i < section_count(b) ==> ends_in_space(b, i),
    decreases i - from,
{
    if from < i {
        assert(!lies_in(b, rva, from));
        assert(ends_in_space(b, from));
        lemma_looked_up(b, rva, from + 1, i);
    }
}

/// Where none of an image's import descriptors fails to name its library, the image imports from a
/// library if and only if one of the descriptors in front of the first empty one names it.
pub proof fn law_imports_are_named(b: Seq<u8>, dll: Seq<char>, d: int)
    requires
        descriptors_of(b) matches Outcome::Value((at, count)) && forall|i: int|
            0 <= i < count ==> #[trigger] imported_name(b, at + 20 * i) is Value,
    ensures
        ({
            let (at, count) = descriptors_of(b)->Value_0;
            imports(b, dll) == Outcome::Value(
                exists|i: int|
                    0 <= i < count && lower_text(
                        (#[trigger] imported_name(b, at + 20 * i))->Value_0,
                    ) == lower_text(dll),
            )
        }),
        ({
            let (at, count) = descriptors_of(b)->Value_0;
            import_rva(b) != 0 ==> {
                &&& offset_of(b, import_rva(b)) == Outcome::Value(at)
                &&& at + 20 * count + 20 <= b.len()
                &&& forall|k: int| 0 <= k < 20 ==> b[#[trigger] (at + 20 * count + k)] == 0
                &&& 0 <= d < count ==> exists|k: int|
                    at + 20 * d <= k < at + 20 * d + 20 && #[trigger] b[k] != 0
            }
        }),
        import_rva(b) == 0 ==> imports(b, dll) == Outcome::Value(false),
{
    let (at, count) = descriptors_of(b)->Value_0;
    lemma_imports_named(b, at, count, dll, 0);
    if import_rva(b) != 0 {
        lemma_counted_in_file(b, at, 0);
        if 0 <= d < count {
            assert(!all_zero(b, at + 20 * d, 20));
        }
    }
}

proof fn lemma_imports_named(b: Seq<u8>, at: int, count: int, dll: Seq<char>, from: int)
    requires
        0 <= from,
        forall|i: int| 0 <= i < count ==> #[trigger] imported_name(b, at + 20 * i) is Value,
    ensures
        imports_from(b, at, count, dll, from) == Outcome::Value(
            exists|i: int|
                from <= i < count && lower_text((#[trigger] imported_name(b, at + 20 * i))->Value_0)
                    == lower_text(dll),
        ),
    decreases count - from,
{
    if from < count {
        assert(imported_name(b, at + 20 * from) is Value);
        lemma_imports_named(b, at, count, dll, from + 1);
    }
}

/// A header is added only in front of the bytes of every section, those without bytes in the file
/// left aside; and where room is missing, it is one of these, or the end of the headers where there
/// is none, that is in the way.
pub proof fn law_new_header_has_room(b: Seq<u8>, i: int)
    ensures
        ({
            let n = section_count(b);
            let end = header_at(b, n) + 40;
            let raw = u32_at(b, header_at(b, i) + 20);
            &&& hook_import(b) is Patched && 0 <= i < n ==> raw == 0 || end <= raw
            &&& hook_import(b) is Patched && n == 0 ==> end <= size_of_headers(b)
            &&& end > headers_end(b) && 0 <= i < n && raw != 0 ==> exists|j: int|
                #![trigger header_at(b, j)]
                0 <= j < n && 0 < u32_at(b, header_at(b, j) + 20) < end
            &&& end > headers_end(b) && end <= size_of_headers(b) ==> exists|j: int|
                #![trigger header_at(b, j)]
                0 <= j < n && 0 < u32_at(b, header_at(b, j) + 20) < end
        }),
{
    let n = section_count(b);
    if 0 <= i < n {
        lemma_lowest_raw(b, n, i);
    }
    if let Some(low) = lowest_raw(b, n) {
        let j = lemma_lowest_is_raw(b, n);
        let h = header_at(b, j);
    }
}

proof fn lemma_lowest_raw(b: Seq<u8>, n: int, i: int)
    requires
        0 <= i < n,
    ensures
        section_raw(b, i) != 0 ==> (lowest_raw(b, n) matches Some(low) && low <= section_raw(b, i)),
    decreases n,
{
    if i < n - 1 {
        lemma_lowest_raw(b, n - 1, i);
    }
}

proof fn lemma_lowest_is_raw(b: Seq<u8>, n: int) -> (j: int)
    requires
        lowest_raw(b, n) is Some,
    ensures
        0 <= j < n,
        section_raw(b, j) != 0,
        lowest_raw(b, n) == Some(section_raw(b, j)),
    decreases n,
{
    let raw = section_raw(b, n - 1);
    match lowest_raw(b, n - 1) {
        Some(low) if raw == 0 || low <= raw => lemma_lowest_is_raw(b, n - 1),
        _ => n - 1,
    }
}

/// What the facts about a patched image start from.
proof fn lemma_patched_ready(b: Seq<u8>)
    requires
        hook_import(b) is Patched,
        parts_apart(b, descriptors_of(b)->Value_0.1),
    ensures
        ({
            let (at, count) = descriptors_of(b)->Value_0;
            patched_ready(b, hook_import(b)->Patched_0, at, count)
        }),
{
    let (at, count) = descriptors_of(b)->Value_0;
    lemma_descriptors_in_file(b);
    if import_rva(b) != 0 {
        lemma_offset_nonnegative(b, import_rva(b), 0);
        lemma_counted_in_file(b, at, 0);
    }
}

/// The last section of a patched image stands behind what the file held, up to its end, and is
/// mapped behind the other sections, each at a multiple of its alignment. The size of the image
/// takes it in, the checksum is cleared, and the import directory names the table at its start,
/// which has room for the descriptors from before, one more and the empty one.
pub proof fn law_patched_image_maps_its_section(b: Seq<u8>, i: int)
    requires
        hook_import(b) is Patched,
        parts_apart(b, descriptors_of(b)->Value_0.1),
    ensures
        ({
            let nb = hook_import(b)->Patched_0;
            let count = descriptors_of(b)->Value_0.1;
            let h = header_at(nb, section_count(nb) - 1);
            let size = u32_at(nb, h + 8);
            let va = u32_at(nb, h + 12);
            let raw_size = u32_at(nb, h + 16);
            let raw = u32_at(nb, h + 20);
            let image_size = u32_at(nb, optional_at(nb) + 56);
            let file_unit = u32_at(nb, optional_at(nb) + 36);
            let unit = u32_at(nb, optional_at(nb) + 32);
            &&& raw + raw_size == nb.len()
            &&& b.len() <= raw < b.len() + file_unit
            &&& raw % file_unit == 0
            &&& size <= raw_size < size + file_unit
            &&& raw_size % file_unit == 0
            &&& va % unit == 0
            &&& 0 <= i < section_count(b) ==> {
                &&& u32_at(b, header_at(b, i) + 12) + u32_at(b, header_at(b, i) + 8) <= va
                &&& u32_at(b, header_at(b, i) + 12) + u32_at(b, header_at(b, i) + 16) <= va
            }
            &&& u32_at(nb, h + 24) == 0
            &&& u32_at(nb, h + 28) == 0
            &&& u32_at(nb, h + 32) == 0
            &&& u32_at(nb, h + 36) == 0xC000_0040
            &&& image_size % unit == 0
            &&& va + size <= image_size < va + size + unit
            &&& u32_at(nb, optional_at(nb) + 64) == 0
            &&& import_rva(nb) == va
            &&& import_size(nb) == 20 * (count + 2)
            &&& import_size(nb) <= size
        }),
{
    let nb = hook_import(b)->Patched_0;
    let (at, count) = descriptors_of(b)->Value_0;
    lemma_patched_ready(b);
    lemma_bytes(b, at, count);
    lemma_headers(b, at, count);
    lemma_sections(b, at, count);
    lemma_layout(b, count);
    lemma_next_address(b);
    law_new_section_is_adjacent(b, i);
    lemma_align_up(b.len() as int, file_alignment(b) as int);
    lemma_align_up(hook_size(b, count), file_alignment(b) as int);
    lemma_align_up(hook_va(b) + hook_size(b, count), section_alignment(b) as int);
    let h = new_header_at(b);
    let header = new_header(b, count);
    assert(header_at(nb, section_count(nb) - 1) == h);
    lemma_header_reads(
        hook_size(b, count) as u32,
        hook_va(b) as u32,
        hook_raw_size(b, count) as u32,
        hook_raw_start(b) as u32,
    );
    assert forall|k: int| 0 <= k < 40 implies #[trigger] nb[h + k] == header[k] by {
        assert(nb.subrange(h, h + 40)[k] == nb[h + k]);
    }
    lemma_u32_same(nb, h + 8, header, 8);
    lemma_u32_same(nb, h + 12, header, 12);
    lemma_u32_same(nb, h + 16, header, 16);
    lemma_u32_same(nb, h + 20, header, 20);
    lemma_u32_same(nb, h + 36, header, 36);
    assert forall|k: int| 24 <= k < 36 implies header[k] == 0 by {
        assert(header.subrange(24, 36)[k - 24] == header[k]);
    }
    assert(u32_at(nb, h + 24) == 0 && u32_at(nb, h + 28) == 0 && u32_at(nb, h + 32) == 0) by {
        assert forall|k: int| 24 <= k < 36 implies nb[#[trigger] (h + k)] == 0 by {
            assert(nb[h + k] == header[k]);
        }
        reveal(u32_at);
        assert(forall|k: int| h + 24 <= k < h + 36 ==> nb[k] == 0) by {
            assert forall|k: int| h + 24 <= k < h + 36 implies nb[k] == 0 by {
                assert(nb[h + (k - h)] == 0);
            }
        }
    }
}

/// The descriptor that a patched image has more imports `SiglusHookLoadAnchor` from
/// `siglus_hook.dll`: its lookup table and its address table lie apart and hold one entry each, of
/// the image's pointer size and without the bit that asks for a number, for the name of the
/// function behind a hint of zero.
pub proof fn law_patched_image_binds_the_anchor(b: Seq<u8>, k: int)
    requires
        hook_import(b) is Patched,
        parts_apart(b, descriptors_of(b)->Value_0.1),
    ensures
        ({
            let nb = hook_import(b)->Patched_0;
            let count = descriptors_of(b)->Value_0.1;
            let h = header_at(nb, section_count(nb) - 1);
            let va = u32_at(nb, h + 12);
            let raw = u32_at(nb, h + 20);
            let entry = if u16_at(b, nt_at(b) + 24) == 0x20B {
                8int
            } else {
                4
            };
            let at = raw + 20 * count;
            let lookup = u32_at(nb, at) - va;
            let library = u32_at(nb, at + 12) - va;
            let address = u32_at(nb, at + 16) - va;
            let by_name = u32_at(nb, raw + lookup) - va;
            &&& 20 * (count + 2) <= lookup
            &&& lookup % entry == 0
            &&& lookup + 2 * entry <= address
            &&& address + 2 * entry <= by_name
            &&& by_name % 2 == 0
            &&& by_name + 23 <= library
            &&& library + 16 <= u32_at(nb, h + 8)
            &&& u32_at(nb, raw + address) == u32_at(nb, raw + lookup)
            &&& at + 4 <= k < at + 12 ==> nb[k] == 0
            &&& raw + lookup + 4 <= k < raw + lookup + 2 * entry ==> nb[k] == 0
            &&& raw + address + 4 <= k < raw + address + 2 * entry ==> nb[k] == 0
            &&& at + 20 <= k < at + 40 ==> nb[k] == 0
            &&& raw + by_name <= k < raw + by_name + 2 ==> nb[k] == 0
            &&& nb.subrange(raw + by_name + 2, raw + by_name + 22) == encode_utf8(
                "SiglusHookLoadAnchor"@,
            )
            &&& nb[raw + by_name + 22] == 0
            &&& nb.subrange(raw + library, raw + library + 15) == encode_utf8("siglus_hook.dll"@)
            &&& nb[raw + library + 15] == 0
        }),
{
    let nb = hook_import(b)->Patched_0;
    let (at, count) = descriptors_of(b)->Value_0;
    let start = hook_raw_start(b);
    let sec = hook_section(b, at, count);
    lemma_patched_ready(b);
    lemma_bytes(b, at, count);
    lemma_headers(b, at, count);
    lemma_sections(b, at, count);
    lemma_section_holds(b, at, count);
    lemma_layout(b, count);
    lemma_name_lengths();
    lemma_next_address(b);
    law_patched_image_maps_its_section(b, 0);
    lemma_patched_size(b);
    lemma_align_up(table_size(count), pointer_size(b));
    assert forall|j: int| 0 <= j < sec.len() implies #[trigger] nb[start + j] == sec[j] by {
        assert(nb[start + j] == sec[start + j - start]);
    }
    lemma_section_word(nb, start, sec, 20 * count);
    lemma_section_word(nb, start, sec, 20 * count + 12);
    lemma_section_word(nb, start, sec, 20 * count + 16);
    lemma_section_word(nb, start, sec, ilt_offset(b, count));
    lemma_section_word(nb, start, sec, iat_offset(b, count));
    if start <= k < nb.len() {
        assert(nb[start + (k - start)] == sec[k - start]);
    }
    let by_name = by_name_offset(b, count);
    let library = dll_name_offset(b, count);
    assert(nb[start + (by_name + 22)] == 0);
    assert(nb[start + (library + 15)] == 0) by {
        assert(sec[library + 15] == 0);
    }
    let anchor = encode_utf8(HOOK_IMPORT_NAME@);
    let name = encode_utf8(HOOK_DLL_NAME@);
    let from = start + by_name + 2;
    assert(nb.subrange(from, from + 20) =~= anchor) by {
        assert forall|j: int| 0 <= j < 20 implies nb.subrange(from, from + 20)[j] == anchor[j] by {
            assert(nb[start + (by_name + 2 + j)] == sec[by_name + 2 + j]);
        }
    }
    let to = start + library;
    assert(nb.subrange(to, to + 15) =~= name) by {
        assert forall|j: int| 0 <= j < 15 implies nb.subrange(to, to + 15)[j] == name[j] by {
            assert(nb[start + (library + j)] == sec[library + j]);
        }
    }
}

proof fn lemma_patched_size(b: Seq<u8>)
    requires
        hook_import(b) is Patched,
        parts_apart(b, descriptors_of(b)->Value_0.1),
    ensures
        ({
            let nb = hook_import(b)->Patched_0;
            let count = descriptors_of(b)->Value_0.1;
            let h = header_at(nb, section_count(nb) - 1);
            u32_at(nb, h + 8) == hook_size(b, count)
        }),
{
    let nb = hook_import(b)->Patched_0;
    let (at, count) = descriptors_of(b)->Value_0;
    lemma_patched_ready(b);
    lemma_bytes(b, at, count);
    lemma_headers(b, at, count);
    lemma_layout(b, count);
    let h = new_header_at(b);
    let header = new_header(b, count);
    assert(header_at(nb, section_count(nb) - 1) == h);
    lemma_header_reads(
        hook_size(b, count) as u32,
        hook_va(b) as u32,
        hook_raw_size(b, count) as u32,
        hook_raw_start(b) as u32,
    );
    assert forall|k: int| 0 <= k < 40 implies #[trigger] nb[h + k] == header[k] by {
        assert(nb.subrange(h, h + 40)[k] == nb[h + k]);
    }
    lemma_u32_same(nb, h + 8, header, 8);
}

proof fn lemma_section_word(nb: Seq<u8>, start: int, sec: Seq<u8>, at: int)
    requires
        0 <= at,
        at + 4 <= sec.len(),
        forall|j: int| 0 <= j < sec.len() ==> #[trigger] nb[start + j] == sec[j],
    ensures
        u32_at(nb, start + at) == u32_at(sec, at),
{
    assert forall|k: int| 0 <= k < 4 implies #[trigger] nb[start + at + k] == sec[at + k] by {
        assert(nb[start + (at + k)] == sec[at + k]);
    }
    lemma_u32_same(nb, start + at, sec, at);
}

/// Adding the import keeps every byte of the file but the number of sections, the size of the
/// image, the checksum, the import directory and the place of the new header; the file grows at its
/// end only.
pub proof fn law_patched_image_keeps_the_rest(b: Seq<u8>, k: int)
    requires
        hook_import(b) is Patched,
        parts_apart(b, descriptors_of(b)->Value_0.1),
        0 <= k < b.len(),
    ensures
        ({
            let nb = hook_import(b)->Patched_0;
            let nt = u32_at(b, 0x3C) as int;
            let directory = nt + 24 + if u16_at(b, nt + 24) == 0x20B {
                120int
            } else {
                104
            };
            let header = header_at(b, section_count(b));
            &&& b.len() <= nb.len()
            &&& {
                ||| nb[k] == b[k]
                ||| nt + 6 <= k < nt + 8
                ||| nt + 24 + 56 <= k < nt + 24 + 60
                ||| nt + 24 + 64 <= k < nt + 24 + 68
                ||| directory <= k < directory + 8
                ||| header <= k < header + 40
            }
        }),
{
    let nb = hook_import(b)->Patched_0;
    let (at, count) = descriptors_of(b)->Value_0;
    lemma_patched_ready(b);
    lemma_bytes(b, at, count);
    lemma_layout(b, count);
    if untouched(b, k) {
        assert(nb[k] == b[k]);
    }
}

/// An image that can be read bears its two signatures, is of one of the two known kinds, and holds
/// the import directory and the whole header of every section; its alignments are not zero.
pub proof fn law_readable_image_lies_in_its_file(b: Seq<u8>, i: int)
    requires
        header_fault(b) is None,
    ensures
        ({
            let nt = u32_at(b, 0x3C) as int;
            let kind = u16_at(b, nt + 24);
            let directory = nt + 24 + if kind == 0x20B {
                120int
            } else {
                104
            };
            &&& b[0] == 0x4D && b[1] == 0x5A
            &&& b[nt] == 0x50 && b[nt + 1] == 0x45 && b[nt + 2] == 0 && b[nt + 3] == 0
            &&& kind == 0x10B || kind == 0x20B
            &&& directory + 8 <= b.len()
            &&& u32_at(b, nt + 24 + 32) > 0
            &&& u32_at(b, nt + 24 + 36) > 0
            &&& 0 <= i < u16_at(b, nt + 6) ==> {
                let header = nt + 24 + u16_at(b, nt + 20) + 40 * i;
                header == header_at(b, i) && header + 40 <= b.len()
            }
        }),
{
    lemma_headers_in_file(b);
    let nt = nt_at(b);
    assert(b[nt] == 0x50 && b[nt + 1] == 0x45 && b[nt + 2] == 0 && b[nt + 3] == 0) by {
        reveal(u32_at);
    }
}

/// An image that bears both signatures, is of a known kind, has alignments and holds its headers
/// can be read.
pub proof fn law_whole_image_can_be_read(b: Seq<u8>)
    requires
        0x40 <= b.len(),
        b[0] == 0x4D,
        b[1] == 0x5A,
        ({
            let nt = u32_at(b, 0x3C) as int;
            let kind = u16_at(b, nt + 24);
            let table = nt + 24 + u16_at(b, nt + 20);
            &&& nt + 24 + 128 <= b.len()
            &&& u32_at(b, nt) == 0x4550
            &&& kind == 0x10B || kind == 0x20B
            &&& u32_at(b, nt + 24 + 32) > 0
            &&& u32_at(b, nt + 24 + 36) > 0
            &&& table + 40 * u16_at(b, nt + 6) <= b.len()
        }),
    ensures
        header_fault(b) is None,
{
}

/// A name in an image ends in front of the first zero byte from its start on; without one it is
/// refused.
pub proof fn law_name_ends_at_the_first_zero(b: Seq<u8>, at: int, zero: int)
    requires
        0 <= at,
    ensures
        at <= zero < b.len() && b[zero] == 0 && (forall|i: int| at <= i < zero ==> b[i] != 0)
            ==> c_string_at(b, at) == Outcome::Value(lossy_text(b.subrange(at, zero))),
        (forall|i: int| at <= i < b.len() ==> b[i] != 0) ==> c_string_at(b, at) is Fault,
{
    if at < b.len() {
        if at <= zero < b.len() && b[zero] == 0 && (forall|i: int| at <= i < zero ==> b[i] != 0) {
            lemma_zero_ahead(b, at, zero);
            lemma_zero_found(b, at);
        }
        if zero_from(b, at) < b.len() {
            lemma_zero_found(b, at);
            lemma_zero_not_before(b, at);
        }
    }
}

proof fn lemma_zero_not_before(b: Seq<u8>, at: int)
    ensures
        at <= zero_from(b, at),
    decreases b.len() - at,
{
    if at < b.len() && b[at] != 0 {
        lemma_zero_not_before(b, at + 1);
    }
}

} // verus!

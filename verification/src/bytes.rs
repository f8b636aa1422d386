//! Little-endian numbers in byte buffers.

use vstd::prelude::*;

verus! {

/// The two bytes from `at` on, the low one first.
#[verifier::opaque]
pub open spec fn u16_at(b: Seq<u8>, at: int) -> u16 {
    (b[at] + 0x100 * b[at + 1]) as u16
}

/// The four bytes from `at` on, the low one first.
#[verifier::opaque]
pub open spec fn u32_at(b: Seq<u8>, at: int) -> u32 {
    (b[at] + 0x100 * b[at + 1] + 0x1_0000 * b[at + 2] + 0x100_0000 * b[at + 3]) as u32
}

/// The two bytes of a number, the low one first.
pub open spec fn u16_bytes(v: u16) -> Seq<u8> {
    seq![(v % 0x100) as u8, (v / 0x100) as u8]
}

/// The four bytes of a number, the low one first.
pub open spec fn u32_bytes(v: u32) -> Seq<u8> {
    seq![
        (v % 0x100) as u8,
        (v / 0x100 % 0x100) as u8,
        (v / 0x1_0000 % 0x100) as u8,
        (v / 0x100_0000) as u8,
    ]
}

/// The eight bytes of a number, the low one first.
pub open spec fn u64_bytes(v: u64) -> Seq<u8> {
    u32_bytes((v % 0x1_0000_0000) as u32) + u32_bytes((v / 0x1_0000_0000) as u32)
}

/// `b` with the bytes from `at` on replaced by `part`.
pub open spec fn splice(b: Seq<u8>, at: int, part: Seq<u8>) -> Seq<u8> {
    Seq::new(b.len(), |i: int| if at <= i < at + part.len() { part[i - at] } else { b[i] })
}

/// `len` bytes of zero.
pub open spec fn zeros(len: nat) -> Seq<u8> {
    Seq::new(len, |i: int| 0u8)
}

/// Reading a number gives back what was written at the same place.
pub proof fn lemma_u32_round_trip(b: Seq<u8>, at: int, v: u32)
    requires
        0 <= at,
        at + 4 <= b.len(),
    ensures
        u32_at(splice(b, at, u32_bytes(v)), at) == v,
{
    reveal(u32_at);
}

/// Reading a number gives back what was written at the same place.
pub proof fn lemma_u16_round_trip(b: Seq<u8>, at: int, v: u16)
    requires
        0 <= at,
        at + 2 <= b.len(),
    ensures
        u16_at(splice(b, at, u16_bytes(v)), at) == v,
{
    reveal(u16_at);
}

/// The same four bytes read as the same number, wherever they stand.
pub proof fn lemma_u32_same(a: Seq<u8>, at: int, b: Seq<u8>, bt: int)
    requires
        forall|k: int| 0 <= k < 4 ==> #[trigger] a[at + k] == b[bt + k],
    ensures
        u32_at(a, at) == u32_at(b, bt),
{
    reveal(u32_at);
    assert(a[at + 0] == b[bt + 0]);
    assert(a[at + 1] == b[bt + 1]);
    assert(a[at + 2] == b[bt + 2]);
    assert(a[at + 3] == b[bt + 3]);
}

/// The same two bytes read as the same number, wherever they stand.
pub proof fn lemma_u16_same(a: Seq<u8>, at: int, b: Seq<u8>, bt: int)
    requires
        forall|k: int| 0 <= k < 2 ==> #[trigger] a[at + k] == b[bt + k],
    ensures
        u16_at(a, at) == u16_at(b, bt),
{
    reveal(u16_at);
    assert(a[at + 0] == b[bt + 0]);
    assert(a[at + 1] == b[bt + 1]);
}

/// Reads two bytes.
pub fn get_u16(b: &[u8], at: usize) -> (v: u16)
    requires
        at + 2 <= b@.len(),
    ensures
        v == u16_at(b@, at as int),
{
    proof {
        reveal(u16_at);
    }
    b[at] as u16 + b[at + 1] as u16 * 0x100
}

/// Reads four bytes.
pub fn get_u32(b: &[u8], at: usize) -> (v: u32)
    requires
        at + 4 <= b@.len(),
    ensures
        v == u32_at(b@, at as int),
{
    proof {
        reveal(u32_at);
    }
    b[at] as u32 + b[at + 1] as u32 * 0x100 + b[at + 2] as u32 * 0x1_0000 + b[at + 3] as u32
        * 0x100_0000
}

/// Overwrites the bytes from `offset` on with `value`.
pub fn write_bytes(bytes: &mut Vec<u8>, offset: usize, value: &[u8])
    requires
        offset + value@.len() <= old(bytes).len(),
    ensures
        final(bytes)@ == splice(old(bytes)@, offset as int, value@),
{
    let mut i: usize = 0;
    while i < value.len()
        invariant
            i <= value.len(),
            offset + value@.len() <= bytes.len(),
            bytes@ == splice(old(bytes)@, offset as int, value@.take(i as int)),
        decreases value.len() - i,
    {
        bytes.set(offset + i, value[i]);
        i += 1;
    }
}

/// Overwrites two bytes with `value`.
pub fn write_u16(bytes: &mut Vec<u8>, offset: usize, value: u16)
    requires
        offset + 2 <= old(bytes).len(),
    ensures
        final(bytes)@ == splice(old(bytes)@, offset as int, u16_bytes(value)),
{
    bytes.set(offset, (value % 0x100) as u8);
    bytes.set(offset + 1, (value / 0x100) as u8);
}

/// Overwrites four bytes with `value`.
pub fn write_u32(bytes: &mut Vec<u8>, offset: usize, value: u32)
    requires
        offset + 4 <= old(bytes).len(),
    ensures
        final(bytes)@ == splice(old(bytes)@, offset as int, u32_bytes(value)),
{
    bytes.set(offset, (value % 0x100) as u8);
    bytes.set(offset + 1, (value / 0x100 % 0x100) as u8);
    bytes.set(offset + 2, (value / 0x1_0000 % 0x100) as u8);
    bytes.set(offset + 3, (value / 0x100_0000) as u8);
}

/// Overwrites eight bytes with `value`.
pub fn write_u64(bytes: &mut Vec<u8>, offset: usize, value: u64)
    requires
        offset + 8 <= old(bytes).len(),
    ensures
        final(bytes)@ == splice(old(bytes)@, offset as int, u64_bytes(value)),
{
    write_u32(bytes, offset, (value % 0x1_0000_0000) as u32);
    write_u32(bytes, offset + 4, (value / 0x1_0000_0000) as u32);
}

} // verus!

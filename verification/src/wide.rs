//! Text in UTF-16, as Windows and the engine hold it.

use vstd::prelude::*;

use crate::text::chars_of;

verus! {

/// The character with this number, as `char::from_u32` is documented to give it: `None` above the
/// last code point and for a surrogate.
pub assume_specification[ char::from_u32 ](i: u32) -> (r: Option<char>)
    ensures
        match r {
            Some(c) => c as u32 == i,
            None => i > 0x10FFFF || 0xD800 <= i <= 0xDFFF,
        },
;

/// The code units of a character.
pub open spec fn units_of(c: char) -> Seq<u16> {
    let n = c as u32;
    if n < 0x1_0000 {
        seq![n as u16]
    } else {
        seq![
            (0xD800 + (n - 0x1_0000) / 0x400) as u16,
            (0xDC00 + (n - 0x1_0000) % 0x400) as u16,
        ]
    }
}

/// A text in UTF-16.
pub open spec fn encoded(s: Seq<char>) -> Seq<u16>
    decreases s.len(),
{
    if s.len() == 0 {
        seq![]
    } else {
        encoded(s.drop_last()) + units_of(s.last())
    }
}

pub open spec fn is_high(unit: u16) -> bool {
    0xD800 <= unit < 0xDC00
}

pub open spec fn is_low(unit: u16) -> bool {
    0xDC00 <= unit < 0xE000
}

/// The text of some code units; a surrogate without its partner reads as U+FFFD.
pub open spec fn decoded(units: Seq<u16>) -> Seq<char>
    decreases units.len(),
{
    if units.len() == 0 {
        seq![]
    } else if units.len() >= 2 && is_high(units[0]) && is_low(units[1]) {
        let n = 0x1_0000 + 0x400 * (units[0] - 0xD800) + (units[1] - 0xDC00);
        seq![n as u32 as char] + decoded(units.skip(2))
    } else if is_high(units[0]) || is_low(units[0]) {
        seq!['\u{FFFD}'] + decoded(units.skip(1))
    } else {
        seq![units[0] as u32 as char] + decoded(units.skip(1))
    }
}

/// Encodes a text.
pub fn encode_utf16(s: &str) -> (units: Vec<u16>)
    ensures
        units@ == encoded(s@),
{
    let chars = chars_of(s);
    let mut units: Vec<u16> = Vec::new();
    let mut i: usize = 0;
    assert(s@.take(0) =~= Seq::<char>::empty());
    while i < chars.len()
        invariant
            i <= chars.len(),
            chars@ == s@,
            units@ == encoded(s@.take(i as int)),
        decreases chars.len() - i,
    {
        let n: u32 = chars[i] as u32;
        proof {
            vstd::utf8::char_is_scalar(chars@[i as int]);
        }
        if n < 0x1_0000 {
            units.push(n as u16);
        } else {
            units.push((0xD800 + (n - 0x1_0000) / 0x400) as u16);
            units.push((0xDC00 + (n - 0x1_0000) % 0x400) as u16);
        }
        assert(s@.take(i + 1).drop_last() =~= s@.take(i as int));
        assert(units@ =~= encoded(s@.take(i as int)) + units_of(s@[i as int]));
        i += 1;
    }
    assert(s@.take(i as int) =~= s@);
    units
}

/// Encodes a text and ends it with a zero.
pub fn wide_null(value: &str) -> (units: Vec<u16>)
    ensures
        units@ == encoded(value@).push(0),
{
    let mut units = encode_utf16(value);
    units.push(0);
    units
}

fn char_of(n: u32) -> (c: char)
    requires
        n <= 0x10FFFF,
        !(0xD800 <= n <= 0xDFFF),
    ensures
        c == n as char,
{
    match char::from_u32(n) {
        Some(c) => {
            proof {
                vstd::utf8::char_u32_cast(c, n);
            }
            c
        },
        None => '\u{FFFD}',
    }
}

/// Decodes some code units.
pub fn from_utf16_lossy(units: &[u16]) -> (text: String)
    ensures
        text@ == decoded(units@),
{
    let mut text: String = String::new();
    let mut i: usize = 0;
    assert(units@.skip(0) =~= units@);
    while i < units.len()
        invariant
            i <= units.len(),
            decoded(units@) == text@ + decoded(units@.skip(i as int)),
        decreases units.len() - i,
    {
        let unit: u16 = units[i];
        let ghost rest = units@.skip(i as int);
        if 0xD800 <= unit && unit < 0xDC00 && i + 1 < units.len() && 0xDC00 <= units[i + 1]
            && units[i + 1] < 0xE000 {
            let n: u32 = 0x1_0000 + 0x400 * (unit as u32 - 0xD800) + (units[i + 1] as u32 - 0xDC00);
            let ghost before = text@;
            text.push(char_of(n));
            assert(rest.skip(2) =~= units@.skip(i + 2));
            assert(text@ + decoded(rest.skip(2)) =~= before + decoded(rest));
            i += 2;
        } else {
            let ghost before = text@;
            if 0xD800 <= unit && unit < 0xE000 {
                text.push('\u{FFFD}');
            } else {
                text.push(char_of(unit as u32));
            }
            assert(rest.skip(1) =~= units@.skip(i + 1));
            assert(text@ + decoded(rest.skip(1)) =~= before + decoded(rest));
            i += 1;
        }
    }
    assert(text@ + decoded(units@.skip(i as int)) =~= text@);
    text
}

/// The code units of the first character, then those of the rest.
proof fn lemma_encoded_first(s: Seq<char>)
    requires
        s.len() > 0,
    ensures
        encoded(s) == units_of(s[0]) + encoded(s.skip(1)),
    decreases s.len(),
{
    if s.len() == 1 {
        assert(s.drop_last() =~= Seq::<char>::empty());
        assert(s.skip(1) =~= Seq::<char>::empty());
        assert(encoded(s) =~= units_of(s[0]) + encoded(s.skip(1)));
    } else {
        lemma_encoded_first(s.drop_last());
        assert(s.drop_last().skip(1) =~= s.skip(1).drop_last());
        assert(encoded(s) =~= units_of(s[0]) + encoded(s.skip(1)));
    }
}

/// Decoding gives back the text that was encoded.
pub proof fn law_wide_round_trip(s: Seq<char>)
    ensures
        decoded(encoded(s)) == s,
    decreases s.len(),
{
    if s.len() > 0 {
        lemma_encoded_first(s);
        law_wide_round_trip(s.skip(1));
        let all = encoded(s);
        let first = units_of(s[0]);
        let n = s[0] as u32;
        vstd::utf8::char_is_scalar(s[0]);
        vstd::utf8::char_u32_cast(s[0], n);
        assert(all[0] == first[0]);
        if n >= 0x1_0000 {
            assert(all[1] == first[1]);
            assert(0x1_0000 + 0x400 * (first[0] - 0xD800) + (first[1] - 0xDC00) == n);
        }
        assert(all.skip(first.len() as int) =~= encoded(s.skip(1)));
        assert(decoded(all) =~= s);
    } else {
        assert(decoded(encoded(s)) =~= s);
    }
}

} // verus!

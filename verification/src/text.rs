//! Building and comparing text one character at a time.

use vstd::prelude::*;

verus! {

/// Appends one character, as `String::push` is documented to do.
pub assume_specification[ String::push ](s: &mut String, c: char)
    ensures
        final(s)@ == old(s)@.push(c),
;

/// The character that stands for `d`, upper case above nine.
pub open spec fn hex_digit(d: int) -> char {
    if d < 10 {
        (48 + d) as char
    } else {
        (55 + d) as char
    }
}

/// `n` in upper-case hexadecimal, without leading zeros.
pub open spec fn hex_upper(n: nat) -> Seq<char>
    decreases n,
{
    if n < 16 {
        seq![hex_digit(n as int)]
    } else {
        hex_upper(n / 16).push(hex_digit((n % 16) as int))
    }
}

/// The last `width` hexadecimal digits of `n`, zeros in front included.
pub open spec fn hex_fixed(n: nat, width: nat) -> Seq<char>
    decreases width,
{
    if width == 0 {
        seq![]
    } else {
        hex_fixed(n / 16, (width - 1) as nat).push(hex_digit((n % 16) as int))
    }
}

/// `n` in decimal.
pub open spec fn dec(n: nat) -> Seq<char>
    decreases n,
{
    if n < 10 {
        seq![hex_digit(n as int)]
    } else {
        dec(n / 10).push(hex_digit((n % 10) as int))
    }
}

/// A signed number in decimal, with a minus sign where it is negative.
pub open spec fn signed_dec(n: int) -> Seq<char> {
    if n < 0 {
        seq!['-'] + dec((-n) as nat)
    } else {
        dec(n as nat)
    }
}

/// An ASCII capital made small; every other character as it is.
pub open spec fn lower(c: char) -> char {
    if 'A' <= c && c <= 'Z' {
        (c as int + 32) as char
    } else {
        c
    }
}

/// A text with its ASCII capitals made small.
pub open spec fn lower_text(s: Seq<char>) -> Seq<char> {
    Seq::new(s.len(), |i: int| lower(s[i]))
}

fn digit_char(d: u8) -> (c: char)
    requires
        d < 16,
    ensures
        c == hex_digit(d as int),
{
    if d < 10 {
        (48 + d) as char
    } else {
        (55 + d) as char
    }
}

/// Appends `n` in upper-case hexadecimal.
pub fn push_hex(out: &mut String, n: u64)
    ensures
        final(out)@ == old(out)@ + hex_upper(n as nat),
    decreases n,
{
    if n >= 16 {
        push_hex(out, n / 16);
    }
    out.push(digit_char((n % 16) as u8));
}

/// Appends the last `width` hexadecimal digits of `n`.
pub fn push_hex_fixed(out: &mut String, n: u64, width: u8)
    ensures
        final(out)@ == old(out)@ + hex_fixed(n as nat, width as nat),
    decreases width,
{
    if width > 0 {
        push_hex_fixed(out, n / 16, width - 1);
        out.push(digit_char((n % 16) as u8));
    }
}

/// Appends `n` in decimal.
pub fn push_dec(out: &mut String, n: u64)
    ensures
        final(out)@ == old(out)@ + dec(n as nat),
    decreases n,
{
    if n >= 10 {
        push_dec(out, n / 10);
    }
    out.push(digit_char((n % 10) as u8));
}

/// `n` in upper-case hexadecimal, with zeros in front up to eight digits.
pub open spec fn hex_word(n: nat) -> Seq<char> {
    if n <= u32::MAX {
        hex_fixed(n, 8)
    } else {
        hex_upper(n)
    }
}

/// Appends `n` in hexadecimal, with zeros in front up to eight digits.
pub fn push_hex_word(out: &mut String, n: u64)
    ensures
        final(out)@ == old(out)@ + hex_word(n as nat),
{
    if n <= u32::MAX as u64 {
        push_hex_fixed(out, n, 8);
    } else {
        push_hex(out, n);
    }
}

/// Appends a signed number in decimal.
pub fn push_signed(out: &mut String, n: i64)
    ensures
        final(out)@ == old(out)@ + signed_dec(n as int),
{
    if n < 0 {
        out.push('-');
        let magnitude: u64 = if n == i64::MIN {
            0x8000_0000_0000_0000
        } else {
            (-n) as u64
        };
        push_dec(out, magnitude);
    } else {
        push_dec(out, n as u64);
    }
}

/// The characters of a text.
pub fn chars_of(s: &str) -> (v: Vec<char>)
    ensures
        v@ == s@,
{
    let mut v: Vec<char> = Vec::new();
    for c in it: s.chars()
        invariant
            v@ == s@.take(it.index() as int),
            it.seq() == s@,
    {
        v.push(c);
    }
    v
}

/// The text made of some characters.
pub fn text_of(chars: &[char]) -> (s: String)
    ensures
        s@ == chars@,
{
    let mut s: String = String::new();
    let mut i: usize = 0;
    while i < chars.len()
        invariant
            i <= chars.len(),
            s@ == chars@.take(i as int),
        decreases chars.len() - i,
    {
        s.push(chars[i]);
        i += 1;
    }
    s
}

/// One character with ASCII capitals made small.
pub fn lower_char(c: char) -> (r: char)
    ensures
        r == lower(c),
{
    if 'A' <= c && c <= 'Z' {
        (c as u8 + 32) as char
    } else {
        c
    }
}

/// A copy of a text with its ASCII capitals made small.
pub fn to_lower(s: &str) -> (r: String)
    ensures
        r@ == lower_text(s@),
{
    let chars = chars_of(s);
    let mut r: String = String::new();
    let mut i: usize = 0;
    while i < chars.len()
        invariant
            i <= chars.len(),
            chars@ == s@,
            r@ == lower_text(s@).take(i as int),
        decreases chars.len() - i,
    {
        r.push(lower_char(chars[i]));
        i += 1;
    }
    r
}

/// Whether two texts are the same.
pub fn same_text(a: &str, b: &str) -> (same: bool)
    ensures
        same == (a@ == b@),
{
    same_chars(&chars_of(a), &chars_of(b))
}

/// Whether two rows of characters are the same.
pub fn same_chars(a: &[char], b: &[char]) -> (same: bool)
    ensures
        same == (a@ == b@),
{
    if a.len() != b.len() {
        return false;
    }
    let mut i: usize = 0;
    while i < a.len()
        invariant
            i <= a.len(),
            a@.len() == b@.len(),
            forall|j: int| 0 <= j < i ==> a@[j] == b@[j],
        decreases a.len() - i,
    {
        if a[i] != b[i] {
            return false;
        }
        i += 1;
    }
    assert(a@ =~= b@);
    true
}

/// Whether two texts are the same up to ASCII case.
pub fn same_ignoring_case(a: &str, b: &str) -> (same: bool)
    ensures
        same == (lower_text(a@) == lower_text(b@)),
{
    same_text(to_lower(a).as_str(), to_lower(b).as_str())
}

/// Whether a character separates the parts of a path.
pub open spec fn is_separator(c: char) -> bool {
    c == '\\' || c == '/'
}

/// Where the last part of a path starts, looking at its first `n` characters.
pub open spec fn name_start(path: Seq<char>, n: int) -> int
    decreases n,
{
    if n <= 0 {
        0
    } else if is_separator(path[n - 1]) {
        n
    } else {
        name_start(path, n - 1)
    }
}

/// The last part of a path: what stands behind its last separator.
pub open spec fn last_part(path: Seq<char>) -> Seq<char> {
    path.skip(name_start(path, path.len() as int))
}

/// The last part starts behind a separator or at the front, and holds no separator.
pub proof fn lemma_name_start(path: Seq<char>, n: int)
    requires
        0 <= n <= path.len(),
    ensures
        0 <= name_start(path, n) <= n,
        forall|i: int| name_start(path, n) <= i < n ==> !is_separator(#[trigger] path[i]),
        name_start(path, n) > 0 ==> is_separator(path[name_start(path, n) - 1]),
    decreases n,
{
    if n > 0 && !is_separator(path[n - 1]) {
        lemma_name_start(path, n - 1);
    }
}

/// The last part of a path.
pub fn last_part_of(path: &[char]) -> (name: Vec<char>)
    ensures
        name@ == last_part(path@),
{
    let mut start: usize = path.len();
    while start > 0 && path[start - 1] != '\\' && path[start - 1] != '/'
        invariant
            start <= path.len(),
            name_start(path@, path@.len() as int) == name_start(path@, start as int),
        decreases start,
    {
        start -= 1;
    }
    vstd::slice::slice_to_vec(&path[start..path.len()])
}

/// Where the last dot stands, looking at the first `n` characters; -1 where there is none.
pub open spec fn last_dot(s: Seq<char>, n: int) -> int
    decreases n,
{
    if n <= 0 {
        -1
    } else if s[n - 1] == '.' {
        n - 1
    } else {
        last_dot(s, n - 1)
    }
}

/// Where the last dot stands.
pub fn last_dot_of(s: &[char]) -> (at: Option<usize>)
    ensures
        match at {
            Some(at) => at == last_dot(s@, s@.len() as int) && at < s@.len(),
            None => last_dot(s@, s@.len() as int) == -1,
        },
{
    let mut i: usize = s.len();
    while i > 0
        invariant
            i <= s.len(),
            last_dot(s@, s@.len() as int) == last_dot(s@, i as int),
        decreases i,
    {
        if s[i - 1] == '.' {
            return Some(i - 1);
        }
        i -= 1;
    }
    None
}

pub open spec fn is_digit(c: char) -> bool {
    '0' <= c && c <= '9'
}

/// Whether a text is made of decimal digits, and of at least one.
pub open spec fn all_digits(s: Seq<char>) -> bool {
    s.len() > 0 && forall|i: int| 0 <= i < s.len() ==> is_digit(#[trigger] s[i])
}

/// The number that some digits stand for.
pub open spec fn digits_value(s: Seq<char>) -> nat
    decreases s.len(),
{
    if s.len() == 0 {
        0
    } else {
        (digits_value(s.drop_last()) * 10 + (s.last() as int - '0' as int)) as nat
    }
}

/// Whether a text is made of decimal digits, and of at least one.
pub fn has_only_digits(s: &[char]) -> (yes: bool)
    ensures
        yes == all_digits(s@),
{
    if s.len() == 0 {
        return false;
    }
    let mut i: usize = 0;
    while i < s.len()
        invariant
            i <= s.len(),
            forall|j: int| 0 <= j < i ==> is_digit(#[trigger] s@[j]),
        decreases s.len() - i,
    {
        if !('0' <= s[i] && s[i] <= '9') {
            return false;
        }
        i += 1;
    }
    true
}

/// More digits do not make a smaller number.
proof fn lemma_digits_grow(s: Seq<char>, n: int)
    requires
        0 <= n <= s.len(),
        forall|i: int| 0 <= i < s.len() ==> is_digit(#[trigger] s[i]),
    ensures
        digits_value(s.take(n)) <= digits_value(s),
    decreases s.len() - n,
{
    if n < s.len() {
        lemma_digits_grow(s, n + 1);
        assert(s.take(n + 1).drop_last() =~= s.take(n));
        assert(is_digit(s[n]));
    } else {
        assert(s.take(n) =~= s);
    }
}

/// The number that some digits stand for, where it fits in 32 bits.
pub fn parse_digits(s: &[char]) -> (number: Option<u32>)
    requires
        all_digits(s@),
    ensures
        match number {
            Some(number) => number == digits_value(s@),
            None => digits_value(s@) > u32::MAX,
        },
{
    let mut value: u64 = 0;
    let mut i: usize = 0;
    assert(s@.take(0) =~= Seq::<char>::empty());
    while i < s.len()
        invariant
            i <= s.len(),
            all_digits(s@),
            value == digits_value(s@.take(i as int)),
            value <= u32::MAX,
        decreases s.len() - i,
    {
        assert(is_digit(s@[i as int]));
        assert(s@.take(i + 1).drop_last() =~= s@.take(i as int));
        let digit: u64 = (s[i] as u32 - 48) as u64;
        value = value * 10 + digit;
        assert(value == digits_value(s@.take(i + 1)));
        if value > u32::MAX as u64 {
            proof {
                lemma_digits_grow(s@, i + 1);
            }
            return None;
        }
        i += 1;
    }
    assert(s@.take(i as int) =~= s@);
    Some(value as u32)
}

/// Where `pattern` starts in `s`, looking from `i` on; the length of `s` where it does not occur.
pub open spec fn find_from(s: Seq<char>, pattern: Seq<char>, i: int) -> int
    decreases s.len() + 1 - i,
{
    if i < 0 || i + pattern.len() > s.len() {
        s.len() as int
    } else if s.subrange(i, i + pattern.len()) == pattern {
        i
    } else {
        find_from(s, pattern, i + 1)
    }
}

/// What stands in front of `pattern` in `s`; all of `s` where it does not occur.
pub fn before_pattern(s: &[char], pattern: &[char]) -> (front: Vec<char>)
    ensures
        front@ == s@.take(find_from(s@, pattern@, 0)),
{
    let mut i: usize = 0;
    while pattern.len() <= s.len() - i
        invariant
            i <= s.len(),
            find_from(s@, pattern@, 0) == find_from(s@, pattern@, i as int),
        decreases s.len() - i,
    {
        if same_chars(&s[i..i + pattern.len()], pattern) {
            return vstd::slice::slice_to_vec(&s[0..i]);
        }
        assert(pattern@.len() > 0) by {
            if pattern@.len() == 0 {
                assert(s@.subrange(i as int, i as int) =~= pattern@);
            }
        }
        i += 1;
    }
    let front = vstd::slice::slice_to_vec(s);
    assert(front@ =~= s@.take(s@.len() as int));
    front
}

/// The last part of a path is its end, holds no separator, and starts behind one or at the front.
pub proof fn law_last_part_is_behind_the_separators(path: Seq<char>, i: int)
    ensures
        ({
            let name = last_part(path);
            let front = path.take(path.len() - name.len());
            &&& name.len() <= path.len()
            &&& path == front + name
            &&& front.len() > 0 ==> front.last() == '\\' || front.last() == '/'
            &&& 0 <= i < name.len() ==> name[i] != '\\' && name[i] != '/'
        }),
{
    lemma_name_start(path, path.len() as int);
    let start = name_start(path, path.len() as int);
    if 0 <= i < path.len() - start {
        assert(!is_separator(path[start + i]));
    }
    assert(path =~= path.take(start) + path.skip(start));
}

/// The last dot is a dot with none behind it, and is found where there is one.
pub proof fn law_last_dot_has_none_behind(s: Seq<char>, n: int, i: int)
    requires
        0 <= n <= s.len(),
    ensures
        ({
            let dot = last_dot(s, n);
            &&& -1 <= dot < n
            &&& dot >= 0 ==> s[dot] == '.'
            &&& dot < i < n ==> s[i] != '.'
        }),
    decreases n,
{
    if n > 0 && s[n - 1] != '.' {
        law_last_dot_has_none_behind(s, n - 1, i);
    }
}

/// A pattern is found where it occurs first: it stands there, and at no place in front of that.
pub proof fn law_pattern_is_found_first(s: Seq<char>, pattern: Seq<char>, k: int)
    ensures
        ({
            let at = find_from(s, pattern, 0);
            &&& 0 <= at <= s.len()
            &&& at == s.len() || (at + pattern.len() <= s.len() && s.subrange(
                at,
                at + pattern.len(),
            ) == pattern)
            &&& 0 <= k && k + pattern.len() <= s.len() && s.subrange(k, k + pattern.len())
                == pattern ==> at <= k
        }),
{
    lemma_found_first(s, pattern, 0, k);
}

proof fn lemma_found_first(s: Seq<char>, pattern: Seq<char>, from: int, k: int)
    requires
        0 <= from,
    ensures
        ({
            let at = find_from(s, pattern, from);
            &&& from <= at <= s.len() || at == s.len()
            &&& at == s.len() || (at + pattern.len() <= s.len() && s.subrange(
                at,
                at + pattern.len(),
            ) == pattern)
            &&& from <= k && k + pattern.len() <= s.len() && s.subrange(k, k + pattern.len())
                == pattern ==> at <= k
        }),
    decreases s.len() + 1 - from,
{
    if from + pattern.len() <= s.len() && s.subrange(from, from + pattern.len()) != pattern {
        lemma_found_first(s, pattern, from + 1, k);
    }
}

/// A number in decimal is made of digits, without a zero in front of others, and reads as that
/// number.
pub proof fn law_decimal_reads_back(n: nat)
    ensures
        all_digits(dec(n)),
        digits_value(dec(n)) == n,
        dec(n).len() > 1 ==> dec(n)[0] != '0',
        n > 0 ==> dec(n)[0] != '0',
    decreases n,
{
    let s = dec(n);
    if n < 10 {
        assert(s.drop_last() =~= Seq::<char>::empty());
        assert(digits_value(s.drop_last()) == 0);
    } else {
        law_decimal_reads_back(n / 10);
        assert(s.drop_last() =~= dec(n / 10));
        assert forall|i: int| 0 <= i < s.len() implies is_digit(#[trigger] s[i]) by {
            if i < s.len() - 1 {
                assert(is_digit(dec(n / 10)[i]));
            }
        }
    }
}

/// Zeros in front of a number do not change it.
pub proof fn law_leading_zeros_count_nothing(s: Seq<char>)
    ensures
        digits_value(seq!['0'] + s) == digits_value(s),
    decreases s.len(),
{
    let longer = seq!['0'] + s;
    if s.len() == 0 {
        assert(longer.drop_last() =~= Seq::<char>::empty());
        assert(digits_value(longer.drop_last()) == 0);
    } else {
        law_leading_zeros_count_nothing(s.drop_last());
        assert(longer.drop_last() =~= seq!['0'] + s.drop_last());
    }
}

/// What a hexadecimal digit stands for.
pub open spec fn hex_digit_value(c: char) -> int {
    if '0' <= c && c <= '9' {
        c as int - '0' as int
    } else {
        c as int - 'A' as int + 10
    }
}

/// The number that some hexadecimal digits stand for.
pub open spec fn hex_value(s: Seq<char>) -> int
    decreases s.len(),
{
    if s.len() == 0 {
        0
    } else {
        hex_value(s.drop_last()) * 16 + hex_digit_value(s.last())
    }
}

/// A number in hexadecimal reads as that number, and has no zero in front of other digits.
pub proof fn law_hexadecimal_reads_back(n: nat)
    ensures
        hex_value(hex_upper(n)) == n,
        hex_upper(n).len() >= 1,
        n > 0 ==> hex_upper(n)[0] != '0',
    decreases n,
{
    let s = hex_upper(n);
    if n < 16 {
        assert(s.drop_last() =~= Seq::<char>::empty());
        reveal_with_fuel(hex_value, 2);
    } else {
        law_hexadecimal_reads_back(n / 16);
        assert(s.drop_last() =~= hex_upper(n / 16));
    }
}

/// A number in so many hexadecimal digits has just so many, and reads as the number where that
/// needs no more.
pub proof fn law_fixed_hexadecimal_reads_back(n: nat, width: nat)
    ensures
        hex_fixed(n, width).len() == width,
        n < vstd::arithmetic::power::pow(16, width) ==> hex_value(hex_fixed(n, width)) == n,
    decreases width,
{
    vstd::arithmetic::power::lemma_pow0(16);
    if width > 0 {
        let s = hex_fixed(n, width);
        let less = (width - 1) as nat;
        law_fixed_hexadecimal_reads_back(n / 16, less);
        assert(s.drop_last() =~= hex_fixed(n / 16, less));
        assert(vstd::arithmetic::power::pow(16, width) == 16 * vstd::arithmetic::power::pow(
            16,
            less,
        )) by {
            reveal(vstd::arithmetic::power::pow);
        }
    }
}

/// Making ASCII capitals small keeps every other character and the length, leaves no ASCII capital,
/// and does nothing the second time.
pub proof fn law_lowering_touches_capitals_only(s: Seq<char>, i: int)
    requires
        0 <= i < s.len(),
    ensures
        ({
            let low = lower_text(s);
            let was: int = s[i] as int;
            &&& low.len() == s.len()
            &&& 65 <= was <= 90 ==> low[i] as int == was + 32
            &&& !(65 <= was <= 90) ==> low[i] == s[i]
            &&& lower_text(low) == low
        }),
{
    assert(lower_text(lower_text(s)) =~= lower_text(s));
}

/// The last part of a path is what stands behind a directory, where it holds no separator.
pub proof fn law_last_part_of_a_file(directory: Seq<char>, name: Seq<char>)
    requires
        directory.len() == 0 || directory.last() == '\\' || directory.last() == '/',
        forall|i: int| 0 <= i < name.len() ==> #[trigger] name[i] != '\\' && name[i] != '/',
    ensures
        last_part(directory + name) == name,
{
    let path = directory + name;
    lemma_name_start(path, path.len() as int);
    let start = name_start(path, path.len() as int);
    let n = directory.len() as int;
    if start < n {
        assert(!is_separator(path[n - 1]));
    }
    if start > n {
        assert(path[start - 1] == name[start - 1 - n]);
    }
    assert(path.skip(start) =~= name);
}

} // verus!

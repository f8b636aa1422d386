//! Text about the engine's buffers, for the log.

use vstd::prelude::*;

use crate::bytes::{get_u32, u32_at};
use crate::text::{
    dec, hex_fixed, hex_upper, hex_word, push_dec, push_hex, push_hex_fixed, push_hex_word,
    push_signed, signed_dec,
};

verus! {

/// Where an array of the engine starts, where its contents end and where its storage ends.
#[derive(Clone, Copy, Debug, PartialEq, Eq, Structural)]
pub struct ArrayFields {
    pub start: usize,
    pub end: usize,
    pub cap_end: usize,
}

impl ArrayFields {
    /// How many bytes the array holds; none where it ends in front of its start.
    pub open spec fn len(self) -> nat {
        if self.end < self.start {
            0
        } else {
            (self.end - self.start) as nat
        }
    }
}

/// A picture that is open for reading: how many bytes a row takes, and where the rows are.
#[derive(Clone, Copy, Debug, PartialEq, Eq, Structural)]
pub struct LockedRect {
    pub pitch: i32,
    pub bits: usize,
}

/// A number in hexadecimal and in decimal.
pub open spec fn number_text(value: Option<nat>) -> Seq<char> {
    match value {
        Some(value) => "0x"@ + hex_upper(value) + "/"@ + dec(value),
        None => "<unreadable>"@,
    }
}

fn number_text_of(value: u64) -> (text: String)
    ensures
        text@ == number_text(Some(value as nat)),
{
    let mut text = "0x".to_owned();
    push_hex(&mut text, value);
    text.append("/");
    push_dec(&mut text, value);
    text
}

/// A length in hexadecimal and in decimal.
pub fn format_option_usize(value: Option<usize>) -> (text: String)
    ensures
        text@ == number_text(
            match value {
                Some(value) => Some(value as nat),
                None => None,
            },
        ),
{
    match value {
        Some(value) => number_text_of(value as u64),
        None => "<unreadable>".to_owned(),
    }
}

/// A number in hexadecimal and in decimal.
pub fn format_option_u32(value: Option<u32>) -> (text: String)
    ensures
        text@ == number_text(
            match value {
                Some(value) => Some(value as nat),
                None => None,
            },
        ),
{
    match value {
        Some(value) => number_text_of(value as u64),
        None => "<unreadable>".to_owned(),
    }
}

/// The first `n` words in hexadecimal, with a space between each two.
pub open spec fn words_text(words: Seq<u32>, n: int) -> Seq<char>
    decreases n,
{
    if n <= 0 {
        seq![]
    } else if n == 1 {
        hex_fixed(words[0] as nat, 8)
    } else {
        words_text(words, n - 1) + " "@ + hex_fixed(words[n - 1] as nat, 8)
    }
}

/// Some words of memory; `None` stands for a null pointer.
pub fn dump_u32_words(words: Option<&[u32]>) -> (text: String)
    ensures
        text@ == match words {
            Some(words) => words_text(words@, words@.len() as int),
            None => "<null>"@,
        },
{
    let words = match words {
        Some(words) => words,
        None => return "<null>".to_owned(),
    };
    let mut text: String = String::new();
    let mut i: usize = 0;
    while i < words.len()
        invariant
            i <= words.len(),
            text@ == words_text(words@, i as int),
        decreases words.len() - i,
    {
        if i > 0 {
            text.append(" ");
        }
        push_hex_fixed(&mut text, words[i] as u64, 8);
        assert(text@ =~= words_text(words@, i + 1));
        i += 1;
    }
    text
}

/// How many bytes an array holds; `None` stands for a null pointer.
pub fn byte_array_len(fields: Option<ArrayFields>) -> (len: Option<usize>)
    ensures
        match fields {
            Some(fields) => len matches Some(len) && len == fields.len(),
            None => len is None,
        },
{
    match fields {
        Some(fields) => Some(
            if fields.end < fields.start {
                0
            } else {
                fields.end - fields.start
            },
        ),
        None => None,
    }
}

/// What the log says of an array.
pub open spec fn array_text(fields: ArrayFields) -> Seq<char> {
    "start=0x"@ + hex_word(fields.start as nat) + " end=0x"@ + hex_word(fields.end as nat)
        + " cap_end=0x"@ + hex_word(fields.cap_end as nat) + " len="@ + number_text(
        Some(fields.len()),
    )
}

/// An array of the engine; `None` stands for a null pointer.
pub fn dump_byte_array(fields: Option<ArrayFields>) -> (text: String)
    ensures
        text@ == match fields {
            Some(fields) => array_text(fields),
            None => "<null>"@,
        },
{
    let len = format_option_usize(byte_array_len(fields));
    let fields = match fields {
        Some(fields) => fields,
        None => return "<null>".to_owned(),
    };
    let mut text = "start=0x".to_owned();
    push_hex_word(&mut text, fields.start as u64);
    text.append(" end=0x");
    push_hex_word(&mut text, fields.end as u64);
    text.append(" cap_end=0x");
    push_hex_word(&mut text, fields.cap_end as u64);
    text.append(" len=");
    text.append(len.as_str());
    text
}

/// A picture that is open for reading; `None` stands for a null pointer.
pub fn dump_d3d_locked_rect(rect: Option<LockedRect>) -> (text: String)
    ensures
        text@ == match rect {
            Some(rect) => "pitch="@ + signed_dec(rect.pitch as int) + " pBits=0x"@ + hex_word(
                rect.bits as nat,
            ),
            None => "rect=<null>"@,
        },
{
    match rect {
        Some(rect) => {
            let mut text = "pitch=".to_owned();
            push_signed(&mut text, rect.pitch as i64);
            text.append(" pBits=0x");
            push_hex_word(&mut text, rect.bits as u64);
            text
        },
        None => "rect=<null>".to_owned(),
    }
}

/// The number at `offset` in an array; `None` where the array is null or too short.
pub fn read_u32_at(contents: Option<&[u8]>, offset: usize) -> (value: Option<u32>)
    requires
        offset + 4 <= usize::MAX,
    ensures
        match value {
            Some(value) => contents matches Some(bytes) && offset + 4 <= bytes@.len() && value
                == u32_at(bytes@, offset as int),
            None => contents matches Some(bytes) ==> bytes@.len() < offset + 4,
        },
{
    match contents {
        Some(bytes) => if bytes.len() < offset + 4 {
            None
        } else {
            Some(get_u32(bytes, offset))
        },
        None => None,
    }
}

/// Bytes with a key of 256 bytes laid over them, again and again from the first byte on.
pub open spec fn unmasked(bytes: Seq<u8>, table: Seq<u8>) -> Seq<u8> {
    Seq::new(bytes.len(), |i: int| bytes[i] ^ table[i % 256])
}

/// The number at `offset` in an array that the engine has masked; `None` where the array is null
/// or too short, or the table of keys cannot be found.
pub fn read_decrypted_u32_at(
    contents: Option<&[u8]>,
    table: Option<&[u8; 256]>,
    offset: usize,
) -> (value: Option<u32>)
    requires
        offset + 4 <= usize::MAX,
    ensures
        match value {
            Some(value) => contents matches Some(bytes) && table matches Some(table) && offset + 4
                <= bytes@.len() && value == u32_at(unmasked(bytes@, table@), offset as int),
            None => table is Some ==> (contents matches Some(bytes) ==> bytes@.len() < offset + 4),
        },
{
    let bytes = match contents {
        Some(bytes) => bytes,
        None => return None,
    };
    if bytes.len() < offset + 4 {
        return None;
    }
    let table = match table {
        Some(table) => table,
        None => return None,
    };
    let mut plain: Vec<u8> = Vec::new();
    let mut i: usize = 0;
    while i < 4
        invariant
            i <= 4,
            offset + 4 <= bytes.len(),
            plain@ == unmasked(bytes@, table@).subrange(offset as int, offset + i),
        decreases 4 - i,
    {
        plain.push(bytes[offset + i] ^ table[(offset + i) % 256]);
        i += 1;
    }
    proof {
        let all = unmasked(bytes@, table@);
        assert forall|k: int| 0 <= k < 4 implies #[trigger] plain@[0 + k] == all[offset + k] by {}
        crate::bytes::lemma_u32_same(plain@, 0, all, offset as int);
    }
    Some(get_u32(&plain, 0))
}

/// The two sizes in front of packed data.
pub fn dump_packed_buffer_sizes(
    contents: Option<&[u8]>,
    table: Option<&[u8; 256]>,
) -> (text: String)
    ensures
        ({
            let readable = |size: int| contents is Some && table is Some && contents->0@.len()
                >= size;
            let plain = unmasked(contents->0@, table->0@);
            let compressed = if readable(4) {
                Some(u32_at(plain, 0) as nat)
            } else {
                None
            };
            let original = if readable(8) {
                Some(u32_at(plain, 4) as nat)
            } else {
                None
            };
            text@ == "decrypted_compressed_size="@ + number_text(compressed)
                + " decrypted_original_size="@ + number_text(original)
        }),
{
    let compressed = format_option_u32(read_decrypted_u32_at(contents, table, 0));
    let original = format_option_u32(read_decrypted_u32_at(contents, table, 4));
    let mut text = "decrypted_compressed_size=".to_owned();
    text.append(compressed.as_str());
    text.append(" decrypted_original_size=");
    text.append(original.as_str());
    text
}

} // verus!

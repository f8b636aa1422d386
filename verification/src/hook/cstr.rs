//! Strings as the engine holds them.

use vstd::prelude::*;

use crate::text::{dec, hex_fixed, push_dec, push_hex_fixed};
use crate::wide::{decoded, encode_utf16, encoded, from_utf16_lossy};

verus! {

/// How many code units fit in the string itself.
pub const INLINE_UNITS: u32 = 7;

/// A string of the engine: six words, of which the fifth is the length and the sixth the capacity.
/// Up to seven code units stand in the first four words; a longer string stands elsewhere, at the
/// address in the first word, and `heap` holds what is there (`None` for a null address).
#[derive(Debug)]
pub struct ProgramCStr {
    pub fields: [u32; 6],
    pub heap: Option<Vec<u16>>,
}

/// The code unit with this index, zero behind the last one.
pub open spec fn unit_or_zero(units: Seq<u16>, i: int) -> int {
    if 0 <= i < units.len() {
        units[i] as int
    } else {
        0
    }
}

/// A word that holds two code units, the first one in its low half.
pub open spec fn inline_word(units: Seq<u16>, i: int) -> int {
    unit_or_zero(units, 2 * i) + 0x1_0000 * unit_or_zero(units, 2 * i + 1)
}

/// The code unit with this index in a string that holds them itself.
pub open spec fn inline_unit(fields: Seq<u32>, i: int) -> u16 {
    if i % 2 == 0 {
        (fields[i / 2] % 0x1_0000) as u16
    } else {
        (fields[i / 2] / 0x1_0000) as u16
    }
}

impl ProgramCStr {
    /// How many code units the string has.
    pub open spec fn len(self) -> int {
        self.fields@[4] as int
    }

    pub open spec fn cap(self) -> int {
        self.fields@[5] as int
    }

    /// Whether what stands elsewhere is as long as the string says.
    pub open spec fn wf(self) -> bool {
        self.len() > INLINE_UNITS ==> (self.heap matches Some(heap) ==> heap@.len() >= self.len())
    }

    /// The code units of the string; `None` where they stand at a null address.
    pub open spec fn units(self) -> Option<Seq<u16>> {
        if self.len() <= INLINE_UNITS {
            Some(Seq::new(self.len() as nat, |i: int| inline_unit(self.fields@, i)))
        } else {
            match self.heap {
                Some(heap) => Some(heap@.take(self.len())),
                None => None,
            }
        }
    }

    /// Whether the string is laid out as one of these code units, but for the address of what
    /// stands elsewhere.
    pub open spec fn holds(self, units: Seq<u16>) -> bool {
        &&& self.len() == units.len()
        &&& if units.len() <= INLINE_UNITS {
            &&& self.cap() == INLINE_UNITS
            &&& self.heap is None
            &&& forall|i: int| 0 <= i < 4 ==> #[trigger] self.fields@[i] == inline_word(units, i)
        } else {
            &&& self.cap() == units.len()
            &&& self.heap matches Some(heap) && heap@ == units.push(0)
            &&& forall|i: int| 1 <= i < 4 ==> #[trigger] self.fields@[i] == 0
        }
    }

    /// A string of the engine with this text; `None` where it has too many code units. Where the
    /// text stands elsewhere, its address is left zero.
    pub fn new(value: &str) -> (cstr: Option<Self>)
        ensures
            match cstr {
                Some(cstr) => {
                    &&& cstr.wf()
                    &&& cstr.holds(encoded(value@))
                    &&& encoded(value@).len() <= u32::MAX
                    &&& encoded(value@).len() > INLINE_UNITS ==> cstr.fields@[0] == 0
                },
                None => encoded(value@).len() > u32::MAX,
            },
    {
        let mut wide: Vec<u16> = encode_utf16(value);
        let len: usize = wide.len();
        if len as u64 > u32::MAX as u64 {
            return None;
        }
        let mut fields: [u32; 6] = [0; 6];
        if len <= 7 {
            let mut i: usize = 0;
            while i < 4
                invariant
                    i <= 4,
                    wide.len() <= 7,
                    forall|j: int| 0 <= j < i ==> #[trigger] fields@[j] == inline_word(wide@, j),
                    forall|j: int| i <= j < 6 ==> #[trigger] fields@[j] == 0,
                decreases 4 - i,
            {
                let low: u32 = if 2 * i < wide.len() {
                    wide[2 * i] as u32
                } else {
                    0
                };
                let high: u32 = if 2 * i + 1 < wide.len() {
                    wide[2 * i + 1] as u32
                } else {
                    0
                };
                fields[i] = low + 0x1_0000 * high;
                i += 1;
            }
            fields[4] = len as u32;
            fields[5] = 7;
            Some(ProgramCStr { fields, heap: None })
        } else {
            wide.push(0);
            fields[4] = len as u32;
            fields[5] = len as u32;
            Some(ProgramCStr { fields, heap: Some(wide) })
        }
    }

    /// Says where the text stands that is not held in the string itself.
    pub fn place_heap(&mut self, address: u32)
        ensures
            final(self).heap == old(self).heap,
            final(self).fields@ == if old(self).heap is Some {
                old(self).fields@.update(0, address)
            } else {
                old(self).fields@
            },
    {
        if self.heap.is_some() {
            self.fields[0] = address;
        }
    }

    /// What the log says of how the string is laid out.
    pub fn debug_description(&self) -> (text: String)
        ensures
            text@ == if self.len() <= INLINE_UNITS {
                "inline len="@ + dec(self.len() as nat) + " cap="@ + dec(self.cap() as nat)
            } else {
                "heap ptr=0x"@ + hex_fixed(self.fields@[0] as nat, 8) + " len="@ + dec(
                    self.len() as nat,
                ) + " cap="@ + dec(self.cap() as nat) + " storage_u16_len="@ + dec(
                    match self.heap {
                        Some(heap) => heap@.len(),
                        None => 0,
                    },
                )
            },
    {
        let len: u64 = self.fields[4] as u64;
        let cap: u64 = self.fields[5] as u64;
        if len <= 7 {
            let mut text = "inline len=".to_owned();
            push_dec(&mut text, len);
            text.append(" cap=");
            push_dec(&mut text, cap);
            text
        } else {
            let storage: u64 = match &self.heap {
                Some(heap) => heap.len() as u64,
                None => 0,
            };
            let mut text = "heap ptr=0x".to_owned();
            push_hex_fixed(&mut text, self.fields[0] as u64, 8);
            text.append(" len=");
            push_dec(&mut text, len);
            text.append(" cap=");
            push_dec(&mut text, cap);
            text.append(" storage_u16_len=");
            push_dec(&mut text, storage);
            text
        }
    }

    /// The code units of the string; `None` where they stand at a null address.
    fn read_units(&self) -> (units: Option<Vec<u16>>)
        requires
            self.wf(),
        ensures
            match units {
                Some(units) => self.units() == Some(units@),
                None => self.units() is None,
            },
    {
        let len: usize = self.fields[4] as usize;
        if self.fields[4] > 7 {
            match &self.heap {
                Some(heap) => {
                    let units = vstd::slice::slice_to_vec(&heap.as_slice()[0..len]);
                    assert(units@ =~= heap@.take(self.len()));
                    Some(units)
                },
                None => None,
            }
        } else {
            let mut units: Vec<u16> = Vec::new();
            let mut i: usize = 0;
            while i < len
                invariant
                    i <= len <= 7,
                    units@ == Seq::new(i as nat, |j: int| inline_unit(self.fields@, j)),
                decreases len - i,
            {
                let word: u32 = self.fields[i / 2];
                let unit: u16 = if i % 2 == 0 {
                    (word % 0x1_0000) as u16
                } else {
                    (word / 0x1_0000) as u16
                };
                units.push(unit);
                assert(units@ =~= Seq::new((i + 1) as nat, |j: int| inline_unit(self.fields@, j)));
                i += 1;
            }
            Some(units)
        }
    }
}

/// What the log says of a string; `None` stands for a null pointer.
pub open spec fn cstr_text(value: Option<ProgramCStr>) -> Seq<char> {
    match value {
        Some(cstr) => match cstr.units() {
            Some(units) => decoded(units) + " (len="@ + dec(cstr.len() as nat) + " cap="@ + dec(
                cstr.cap() as nat,
            ) + ")"@,
            None => "<null-heap len="@ + dec(cstr.len() as nat) + " cap="@ + dec(cstr.cap() as nat)
                + ">"@,
        },
        None => "<null>"@,
    }
}

/// The text of a string, with its length and capacity behind it, for the log.
pub fn read_cstr(value: Option<&ProgramCStr>) -> (text: String)
    requires
        value matches Some(cstr) ==> cstr.wf(),
    ensures
        text@ == cstr_text(
            match value {
                Some(cstr) => Some(*cstr),
                None => None,
            },
        ),
{
    let cstr = match value {
        Some(cstr) => cstr,
        None => return "<null>".to_owned(),
    };
    let len: u64 = cstr.fields[4] as u64;
    let cap: u64 = cstr.fields[5] as u64;
    match cstr.read_units() {
        Some(units) => {
            let mut text = from_utf16_lossy(&units);
            text.append(" (len=");
            push_dec(&mut text, len);
            text.append(" cap=");
            push_dec(&mut text, cap);
            text.append(")");
            text
        },
        None => {
            let mut text = "<null-heap len=".to_owned();
            push_dec(&mut text, len);
            text.append(" cap=");
            push_dec(&mut text, cap);
            text.append(">");
            text
        },
    }
}

/// The text of a string; `None` where there is no string or its text stands at a null address.
pub fn read_cstr_plain(value: Option<&ProgramCStr>) -> (text: Option<String>)
    requires
        value matches Some(cstr) ==> cstr.wf(),
    ensures
        match text {
            Some(text) => value matches Some(cstr) && cstr.units() matches Some(units) && text@
                == decoded(units),
            None => value matches Some(cstr) ==> cstr.units() is None,
        },
{
    match value {
        Some(cstr) => match cstr.read_units() {
            Some(units) => Some(from_utf16_lossy(&units)),
            None => None,
        },
        None => None,
    }
}

/// Reading a string of the engine gives back the text that it was made from.
pub proof fn law_cstr_round_trip(value: Seq<char>, cstr: ProgramCStr)
    requires
        cstr.holds(encoded(value)),
    ensures
        cstr.units() == Some(encoded(value)),
        decoded(cstr.units()->0) == value,
{
    let units = encoded(value);
    crate::wide::law_wide_round_trip(value);
    if units.len() <= INLINE_UNITS {
        assert forall|i: int| 0 <= i < units.len() implies #[trigger] inline_unit(cstr.fields@, i)
            == units[i] by {
            assert(cstr.fields@[i / 2] == inline_word(units, i / 2));
        }
        assert(cstr.units()->0 =~= units);
    } else {
        assert(cstr.units()->0 =~= units);
    }
}

} // verus!

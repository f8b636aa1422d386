//! Telling the rotation of autosaves from other copies.

use vstd::prelude::*;

use crate::text::{
    all_digits, chars_of, dec, digits_value, has_only_digits, is_digit, last_dot, last_dot_of,
    last_part, last_part_of, law_decimal_reads_back, law_last_dot_has_none_behind,
    law_last_part_of_a_file, lower_text, parse_digits, same_ignoring_case, text_of,
};

verus! {

/// What a numbered file holds.
#[derive(Clone, Copy, Debug, PartialEq, Eq, Structural)]
pub enum SavOrPng {
    Sav,
    Png,
}

/// A file that is called by a number.
#[derive(Clone, Copy, Debug, PartialEq, Eq, Structural)]
pub struct NumberedSavOrPngFile {
    pub number: u32,
    pub extension: SavOrPng,
}

/// What takes the place of a copy.
#[derive(Clone, Copy, Debug, PartialEq, Eq, Structural)]
pub enum CopyAction {
    Copy,
    /// Move, and replace the file that is there.
    MoveReplacing,
    /// Move, and fail where a file is there.
    Move,
}

/// The numbered save file or picture that a path leads to.
pub open spec fn numbered(path: Seq<char>) -> Option<NumberedSavOrPngFile> {
    let name = last_part(path);
    let dot = last_dot(name, name.len() as int);
    let stem = name.take(dot);
    let extension = lower_text(name.skip(dot + 1));
    if dot < 0 || !all_digits(stem) || digits_value(stem) > u32::MAX {
        None
    } else if extension == lower_text("sav"@) {
        Some(
            NumberedSavOrPngFile { number: digits_value(stem) as u32, extension: SavOrPng::Sav },
        )
    } else if extension == lower_text("png"@) {
        Some(
            NumberedSavOrPngFile { number: digits_value(stem) as u32, extension: SavOrPng::Png },
        )
    } else {
        None
    }
}

/// Whether a copy is one step of the rotation of autosaves: from a number to the next one, that
/// being one of the nine that are rotated into.
pub open spec fn rotates(existing: Seq<char>, new: Seq<char>) -> bool {
    match (numbered(existing), numbered(new)) {
        (Some(from), Some(to)) => {
            &&& from.extension == to.extension
            &&& from.number + 1 == to.number
            &&& 1001 <= to.number <= 1009
        },
        _ => false,
    }
}

/// The numbered save file or picture that a path leads to.
pub fn numbered_sav_or_png_file(path: &str) -> (file: Option<NumberedSavOrPngFile>)
    ensures
        file == numbered(path@),
{
    let name = last_part_of(&chars_of(path));
    let dot: usize = match last_dot_of(&name) {
        Some(dot) => dot,
        None => return None,
    };
    let stem = &name[0..dot];
    let rest = &name[dot + 1..name.len()];
    assert(stem@ =~= name@.take(dot as int));
    assert(rest@ =~= name@.skip(dot + 1));
    if !has_only_digits(stem) {
        return None;
    }
    let text = text_of(rest);
    let extension = if same_ignoring_case(text.as_str(), "sav") {
        SavOrPng::Sav
    } else if same_ignoring_case(text.as_str(), "png") {
        SavOrPng::Png
    } else {
        return None;
    };
    match parse_digits(stem) {
        Some(number) => Some(NumberedSavOrPngFile { number, extension }),
        None => None,
    }
}

/// Whether a copy is one step of the rotation of autosaves.
pub fn should_move_rotated_save_or_png(existing: &str, new: &str) -> (moves: bool)
    ensures
        moves == rotates(existing@, new@),
{
    let existing = match numbered_sav_or_png_file(existing) {
        Some(existing) => existing,
        None => return false,
    };
    let new = match numbered_sav_or_png_file(new) {
        Some(new) => new,
        None => return false,
    };
    existing.extension == new.extension && existing.number < u32::MAX && existing.number + 1
        == new.number && 1001 <= new.number && new.number <= 1009
}

/// What to do in place of a copy: the rotation moves, everything else is copied.
pub fn copy_action(existing: &str, new: &str, fail_if_exists: bool) -> (action: CopyAction)
    ensures
        action == if !rotates(existing@, new@) {
            CopyAction::Copy
        } else if fail_if_exists {
            CopyAction::Move
        } else {
            CopyAction::MoveReplacing
        },
{
    if should_move_rotated_save_or_png(existing, new) {
        if fail_if_exists {
            CopyAction::Move
        } else {
            CopyAction::MoveReplacing
        }
    } else {
        CopyAction::Copy
    }
}

/// The rotation never goes back: where one copy is a step of it, the copy the other way is not.
pub proof fn law_rotation_goes_one_way(existing: Seq<char>, new: Seq<char>)
    requires
        rotates(existing, new),
    ensures
        !rotates(new, existing),
        !rotates(existing, existing),
{
}

/// A file that is called by a number, in any directory, is a save file or a picture by what stands
/// behind its dot.
pub proof fn law_numbered_file_is_read(directory: Seq<char>, n: u32, extension: Seq<char>)
    requires
        directory.len() == 0 || directory.last() == '\\' || directory.last() == '/',
        forall|i: int|
            0 <= i < extension.len() ==> #[trigger] extension[i] != '\\' && extension[i] != '/'
                && extension[i] != '.',
    ensures
        ({
            let file = numbered(directory + (dec(n as nat) + seq!['.'] + extension));
            &&& lower_text(extension) == seq!['s', 'a', 'v'] ==> file == Some(
                NumberedSavOrPngFile { number: n, extension: SavOrPng::Sav },
            )
            &&& lower_text(extension) == seq!['p', 'n', 'g'] ==> file == Some(
                NumberedSavOrPngFile { number: n, extension: SavOrPng::Png },
            )
            &&& lower_text(extension) != seq!['s', 'a', 'v'] && lower_text(extension)
                != seq!['p', 'n', 'g'] ==> file is None
        }),
{
    let stem = dec(n as nat);
    let name = stem + seq!['.'] + extension;
    let dot = stem.len() as int;
    law_decimal_reads_back(n as nat);
    assert forall|i: int| 0 <= i < name.len() implies #[trigger] name[i] != '\\' && name[i]
        != '/' by {
        if i < dot {
            assert(is_digit(stem[i]));
        } else if i > dot {
            assert(extension[i - dot - 1] != '\\');
        }
    }
    law_last_part_of_a_file(directory, name);
    let found = last_dot(name, name.len() as int);
    law_last_dot_has_none_behind(name, name.len() as int, dot);
    law_last_dot_has_none_behind(name, name.len() as int, found);
    if found > dot {
        assert(extension[found - dot - 1] != '.');
    }
    assert(name.take(dot) =~= stem);
    assert(name.skip(dot + 1) =~= extension);
    reveal_strlit("sav");
    reveal_strlit("png");
    assert(lower_text("sav"@) =~= seq!['s', 'a', 'v']);
    assert(lower_text("png"@) =~= seq!['p', 'n', 'g']);
    assert(seq!['s', 'a', 'v'][0] != seq!['p', 'n', 'g'][0]);
}

/// Autosaves rotate from 1000 to 1009, one step at a time and each kind of file for itself: a copy
/// is a step exactly where it goes from a number to the next.
pub proof fn law_autosaves_rotate(
    from_directory: Seq<char>,
    to_directory: Seq<char>,
    from: u32,
    to: u32,
    pictures: bool,
)
    requires
        from_directory.len() == 0 || from_directory.last() == '\\' || from_directory.last() == '/',
        to_directory.len() == 0 || to_directory.last() == '\\' || to_directory.last() == '/',
    ensures
        ({
            let extension = if pictures {
                seq!['p', 'n', 'g']
            } else {
                seq!['s', 'a', 'v']
            };
            rotates(
                from_directory + (dec(from as nat) + seq!['.'] + extension),
                to_directory + (dec(to as nat) + seq!['.'] + extension),
            ) <==> 1000 <= from < 1009 && to == from + 1
        }),
        !rotates(
            from_directory + (dec(from as nat) + seq!['.'] + seq!['p', 'n', 'g']),
            to_directory + (dec(to as nat) + seq!['.'] + seq!['s', 'a', 'v']),
        ),
{
    let sav = seq!['s', 'a', 'v'];
    let png = seq!['p', 'n', 'g'];
    assert(lower_text(sav) =~= sav);
    assert(lower_text(png) =~= png);
    law_numbered_file_is_read(from_directory, from, sav);
    law_numbered_file_is_read(to_directory, to, sav);
    law_numbered_file_is_read(from_directory, from, png);
    law_numbered_file_is_read(to_directory, to, png);
}

} // verus!

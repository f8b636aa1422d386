//! Answering for the attributes of files in the picture directory without asking the file system.

use vstd::hash_map::StringHashMap;
use vstd::prelude::*;

use crate::text::{lower_text, same_ignoring_case, to_lower};
use crate::wide::{decoded, from_utf16_lossy};

verus! {

/// What stands for the attributes of a file that is not there.
pub const INVALID_FILE_ATTRIBUTES: u32 = 0xFFFF_FFFF;

/// The system's number for "file not found".
pub const ERROR_FILE_NOT_FOUND: u32 = 2;

/// A path that attributes are asked for: the name of the file, and that of the directory it is in.
#[derive(Debug)]
pub struct RequestedPath {
    pub parent_name: Option<String>,
    pub file_name: Option<String>,
}

/// One entry of a directory.
#[derive(Debug)]
pub struct ListedEntry {
    pub file_name: Option<String>,
    pub is_file: bool,
    pub attributes: u32,
}

/// The attributes of the files in the picture directory, by their names in small letters.
pub struct FileAttributeCache {
    pub g00_root: String,
    pub attributes: StringHashMap<u32>,
}

#[derive(Clone, Copy, Debug, PartialEq, Eq, Structural)]
pub enum AttributeLookupResult {
    Hit(u32),
    MissingInG00,
    ParentNotG00,
}

#[derive(Clone, Copy, Debug, PartialEq, Eq, Structural)]
pub struct AttributeLookup {
    pub result: AttributeLookupResult,
}

/// The key of a file name.
pub open spec fn key_of(name: Option<String>) -> Option<Seq<char>> {
    match name {
        Some(name) => Some(lower_text(name@)),
        None => None,
    }
}

/// Whether a directory is called like the picture directory, up to ASCII case.
pub open spec fn names_g00(parent: Option<String>) -> bool {
    parent matches Some(name) && lower_text(name@) == lower_text("g00"@)
}

/// What the first `n` entries of a directory say: of two files with one key the later one counts.
pub open spec fn listed(entries: Seq<ListedEntry>, n: int) -> Map<Seq<char>, u32>
    decreases n,
{
    if n <= 0 {
        Map::empty()
    } else {
        let entry = entries[n - 1];
        match key_of(entry.file_name) {
            Some(key) if entry.is_file => listed(entries, n - 1).insert(key, entry.attributes),
            _ => listed(entries, n - 1),
        }
    }
}

/// What is known of a path, from the attributes of the files in the picture directory.
pub open spec fn looked_up(
    attributes: Map<Seq<char>, u32>,
    path: RequestedPath,
) -> AttributeLookupResult {
    if !names_g00(path.parent_name) {
        AttributeLookupResult::ParentNotG00
    } else {
        match key_of(path.file_name) {
            Some(key) if attributes.contains_key(key) => AttributeLookupResult::Hit(
                attributes[key],
            ),
            _ => AttributeLookupResult::MissingInG00,
        }
    }
}

/// Whether a directory is called like the picture directory.
pub fn parent_is_g00(path: &RequestedPath) -> (yes: bool)
    ensures
        yes == names_g00(path.parent_name),
{
    match &path.parent_name {
        Some(name) => same_ignoring_case(name.as_str(), "g00"),
        None => false,
    }
}

/// The key of a file name: the name in small letters.
pub fn file_name_key(name: &Option<String>) -> (key: Option<String>)
    ensures
        match key {
            Some(key) => key_of(*name) == Some(key@),
            None => key_of(*name) is None,
        },
{
    match name {
        Some(name) => Some(to_lower(name.as_str())),
        None => None,
    }
}

/// Adds the files among some entries of a directory.
pub fn collect_file_attributes(entries: &[ListedEntry]) -> (attributes: StringHashMap<u32>)
    ensures
        attributes@ == listed(entries@, entries@.len() as int),
{
    let mut attributes: StringHashMap<u32> = StringHashMap::new();
    let mut i: usize = 0;
    while i < entries.len()
        invariant
            i <= entries.len(),
            attributes@ == listed(entries@, i as int),
        decreases entries.len() - i,
    {
        let entry = &entries[i];
        if entry.is_file {
            match file_name_key(&entry.file_name) {
                Some(key) => {
                    attributes.insert(key, entry.attributes);
                },
                None => {},
            }
        }
        i += 1;
    }
    attributes
}

/// The attributes of the files in the picture directory.
pub fn build_file_attribute_cache(
    g00_root: String,
    entries: &[ListedEntry],
) -> (cache: FileAttributeCache)
    ensures
        cache.g00_root == g00_root,
        cache.attributes@ == listed(entries@, entries@.len() as int),
{
    FileAttributeCache { g00_root, attributes: collect_file_attributes(entries) }
}

impl FileAttributeCache {
    /// What is known of a path.
    pub fn lookup_attributes(&self, path: &RequestedPath) -> (lookup: AttributeLookup)
        ensures
            lookup.result == looked_up(self.attributes@, *path),
    {
        if !parent_is_g00(path) {
            return AttributeLookup { result: AttributeLookupResult::ParentNotG00 };
        }
        let result = match file_name_key(&path.file_name) {
            Some(key) => match self.attributes.get(key.as_str()) {
                Some(attributes) => AttributeLookupResult::Hit(*attributes),
                None => AttributeLookupResult::MissingInG00,
            },
            None => AttributeLookupResult::MissingInG00,
        };
        AttributeLookup { result }
    }
}

impl AttributeLookup {
    /// The attributes to answer with; `None` where the file system has to be asked.
    pub fn to_option(self) -> (attributes: Option<u32>)
        ensures
            attributes == match self.result {
                AttributeLookupResult::Hit(attributes) => Some(attributes),
                AttributeLookupResult::MissingInG00 => Some(INVALID_FILE_ATTRIBUTES),
                AttributeLookupResult::ParentNotG00 => None,
            },
    {
        match self.result {
            AttributeLookupResult::Hit(attributes) => Some(attributes),
            AttributeLookupResult::MissingInG00 => Some(INVALID_FILE_ATTRIBUTES),
            AttributeLookupResult::ParentNotG00 => None,
        }
    }

    /// The error to leave behind with the answer.
    pub fn last_error(self) -> (error: Option<u32>)
        ensures
            error == match self.result {
                AttributeLookupResult::MissingInG00 => Some(ERROR_FILE_NOT_FOUND),
                _ => None,
            },
    {
        match self.result {
            AttributeLookupResult::MissingInG00 => Some(ERROR_FILE_NOT_FOUND),
            _ => None,
        }
    }
}

/// The text of a path in UTF-16; `None` where there is none or it is empty.
pub fn pcwstr_to_path_buf(units: Option<&[u16]>) -> (path: Option<String>)
    ensures
        match path {
            Some(path) => units matches Some(units) && units@.len() > 0 && path@ == decoded(units@),
            None => units matches Some(units) ==> units@.len() == 0,
        },
{
    match units {
        Some(units) => if units.len() == 0 {
            None
        } else {
            Some(from_utf16_lossy(units))
        },
        None => None,
    }
}

/// The text of a path in UTF-16, for the log.
pub fn pcwstr_to_log_string(units: Option<&[u16]>) -> (text: String)
    ensures
        text@ == match units {
            Some(units) if units@.len() > 0 => decoded(units@),
            _ => "<null-or-empty>"@,
        },
{
    match pcwstr_to_path_buf(units) {
        Some(path) => path,
        None => "<null-or-empty>".to_owned(),
    }
}

/// A file of the picture directory is found whatever the case of the letters it is asked for with,
/// and with the attributes that it was listed with, where no later entry has the same key.
pub proof fn law_listed_file_is_found(
    entries: Seq<ListedEntry>,
    at: int,
    path: RequestedPath,
)
    requires
        0 <= at < entries.len(),
        entries[at].is_file,
        key_of(entries[at].file_name) is Some,
        forall|later: int|
            at < later < entries.len() && #[trigger] entries[later].is_file ==> key_of(
                entries[later].file_name,
            ) != key_of(entries[at].file_name),
        names_g00(path.parent_name),
        key_of(path.file_name) == key_of(entries[at].file_name),
    ensures
        looked_up(listed(entries, entries.len() as int), path) == AttributeLookupResult::Hit(
            entries[at].attributes,
        ),
{
    lemma_listed_stays(entries, at, entries.len() as int);
}

proof fn lemma_listed_stays(entries: Seq<ListedEntry>, at: int, n: int)
    requires
        0 <= at < n <= entries.len(),
        entries[at].is_file,
        key_of(entries[at].file_name) is Some,
        forall|later: int|
            at < later < n && #[trigger] entries[later].is_file ==> key_of(
                entries[later].file_name,
            ) != key_of(entries[at].file_name),
    ensures
        listed(entries, n).contains_key(key_of(entries[at].file_name)->0),
        listed(entries, n)[key_of(entries[at].file_name)->0] == entries[at].attributes,
    decreases n,
{
    if n > at + 1 {
        lemma_listed_stays(entries, at, n - 1);
        assert(entries[n - 1].is_file ==> key_of(entries[n - 1].file_name) != key_of(
            entries[at].file_name,
        ));
    }
}

/// A file that was not listed is answered for as missing.
pub proof fn law_unlisted_file_is_missing(entries: Seq<ListedEntry>, path: RequestedPath)
    requires
        names_g00(path.parent_name),
        forall|i: int|
            0 <= i < entries.len() && #[trigger] entries[i].is_file ==> key_of(entries[i].file_name)
                is None || key_of(entries[i].file_name) != key_of(path.file_name),
    ensures
        looked_up(listed(entries, entries.len() as int), path)
            == AttributeLookupResult::MissingInG00,
{
    if key_of(path.file_name) is Some {
        lemma_not_listed(entries, key_of(path.file_name)->0, entries.len() as int);
    }
}

proof fn lemma_not_listed(entries: Seq<ListedEntry>, key: Seq<char>, n: int)
    requires
        n <= entries.len(),
        forall|i: int|
            0 <= i < entries.len() && #[trigger] entries[i].is_file ==> key_of(entries[i].file_name)
                != Some(key),
    ensures
        !listed(entries, n).contains_key(key),
    decreases n,
{
    if n > 0 {
        lemma_not_listed(entries, key, n - 1);
        assert(entries[n - 1].is_file ==> key_of(entries[n - 1].file_name) != Some(key));
    }
}

} // verus!

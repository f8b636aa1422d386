use siglus_patch::hook::attributes::{
    build_file_attribute_cache, file_name_key, parent_is_g00, pcwstr_to_log_string,
    pcwstr_to_path_buf, AttributeLookup, AttributeLookupResult, ListedEntry, RequestedPath,
    ERROR_FILE_NOT_FOUND, INVALID_FILE_ATTRIBUTES,
};

fn path(parent: &str, name: &str) -> RequestedPath {
    RequestedPath { parent_name: Some(parent.to_string()), file_name: Some(name.to_string()) }
}

fn entry(name: &str, is_file: bool, attributes: u32) -> ListedEntry {
    ListedEntry { file_name: Some(name.to_string()), is_file, attributes }
}

#[test]
fn listed_files_are_found_in_any_case() {
    let cache = build_file_attribute_cache(
        "C:\\game\\g00".to_string(),
        &[
            entry("BG001.g00", true, 0x20),
            entry("sub", false, 0x10),
            entry("bg002.G00", true, 0x21),
            entry("bg001.g00", true, 0x80),
            ListedEntry { file_name: None, is_file: true, attributes: 1 },
        ],
    );
    assert_eq!(cache.g00_root, "C:\\game\\g00");
    assert_eq!(cache.attributes.len(), 2);
    assert_eq!(
        cache.lookup_attributes(&path("G00", "Bg001.G00")).result,
        AttributeLookupResult::Hit(0x80)
    );
    assert_eq!(
        cache.lookup_attributes(&path("g00", "BG002.g00")).result,
        AttributeLookupResult::Hit(0x21)
    );
    assert_eq!(
        cache.lookup_attributes(&path("g00", "sub")).result,
        AttributeLookupResult::MissingInG00
    );
    assert_eq!(
        cache.lookup_attributes(&path("dat", "bg001.g00")).result,
        AttributeLookupResult::ParentNotG00
    );
    let rootless = RequestedPath { parent_name: None, file_name: Some("bg001.g00".to_string()) };
    assert_eq!(
        cache.lookup_attributes(&rootless).result,
        AttributeLookupResult::ParentNotG00
    );
    let nameless = RequestedPath { parent_name: Some("g00".to_string()), file_name: None };
    assert_eq!(
        cache.lookup_attributes(&nameless).result,
        AttributeLookupResult::MissingInG00
    );
}

#[test]
fn lookups_are_answered() {
    let hit = AttributeLookup { result: AttributeLookupResult::Hit(0x20) };
    assert_eq!(hit.to_option(), Some(0x20));
    assert_eq!(hit.last_error(), None);
    let missing = AttributeLookup { result: AttributeLookupResult::MissingInG00 };
    assert_eq!(missing.to_option(), Some(INVALID_FILE_ATTRIBUTES));
    assert_eq!(missing.last_error(), Some(ERROR_FILE_NOT_FOUND));
    let elsewhere = AttributeLookup { result: AttributeLookupResult::ParentNotG00 };
    assert_eq!(elsewhere.to_option(), None);
    assert_eq!(elsewhere.last_error(), None);
    assert_eq!(INVALID_FILE_ATTRIBUTES, u32::MAX);
    assert_eq!(ERROR_FILE_NOT_FOUND, 2);
}

#[test]
fn names_become_keys() {
    assert_eq!(file_name_key(&Some("AbC.G00".to_string())), Some("abc.g00".to_string()));
    assert_eq!(file_name_key(&None), None);
    assert!(parent_is_g00(&path("g00", "x")));
    assert!(!parent_is_g00(&path("g000", "x")));
}

#[test]
fn wide_paths_are_read() {
    let units: Vec<u16> = "C:\\g00\\a.g00".encode_utf16().collect();
    assert_eq!(pcwstr_to_path_buf(Some(&units)), Some("C:\\g00\\a.g00".to_string()));
    assert_eq!(pcwstr_to_path_buf(Some(&[])), None);
    assert_eq!(pcwstr_to_path_buf(None), None);
    assert_eq!(pcwstr_to_log_string(Some(&units)), "C:\\g00\\a.g00");
    assert_eq!(pcwstr_to_log_string(Some(&[])), "<null-or-empty>");
}

use siglus_patch::bytes::{get_u16, get_u32};
use siglus_patch::pe::hook::{add_hook_import, hook_import_fits, HookFault, HOOK_DLL_NAME};
use siglus_patch::pe::image::{align_u32, read_c_string, require_range, PeFault, PeImage};
use siglus_patch::pe::patch::{
    machine, machine_name, patch, status, status_fits, unpatch, ExeFiles, PatchError, PatchStatus,
    BACKUP_EXTENSION,
};
use siglus_patch::pe::window::{
    append_log, refresh_status, report, window_command, Task, WindowCommand,
};

const NT: usize = 0x80;
const OPTIONAL: usize = NT + 24;

fn put16(image: &mut [u8], at: usize, value: u16) {
    image[at..at + 2].copy_from_slice(&value.to_le_bytes());
}

fn put32(image: &mut [u8], at: usize, value: u32) {
    image[at..at + 4].copy_from_slice(&value.to_le_bytes());
}

/// A 32-bit executable with one section, which imports one library.
fn executable() -> Vec<u8> {
    let mut image = vec![0u8; 0x600];
    image[0] = b'M';
    image[1] = b'Z';
    put32(&mut image, 0x3C, NT as u32);
    image[NT..NT + 4].copy_from_slice(b"PE\0\0");
    put16(&mut image, NT + 4, 0x014C);
    put16(&mut image, NT + 6, 1);
    put16(&mut image, NT + 20, 0xE0);
    put16(&mut image, OPTIONAL, 0x10B);
    put32(&mut image, OPTIONAL + 32, 0x1000);
    put32(&mut image, OPTIONAL + 36, 0x200);
    put32(&mut image, OPTIONAL + 56, 0x2000);
    put32(&mut image, OPTIONAL + 60, 0x400);
    put32(&mut image, OPTIONAL + 64, 0x1234);
    put32(&mut image, OPTIONAL + 92, 16);
    put32(&mut image, OPTIONAL + 104, 0x1000);
    put32(&mut image, OPTIONAL + 108, 40);
    let section = OPTIONAL + 0xE0;
    image[section..section + 6].copy_from_slice(b".rdata");
    put32(&mut image, section + 8, 0x180);
    put32(&mut image, section + 12, 0x1000);
    put32(&mut image, section + 16, 0x200);
    put32(&mut image, section + 20, 0x400);
    put32(&mut image, 0x400, 0x1080);
    put32(&mut image, 0x40C, 0x1040);
    put32(&mut image, 0x410, 0x1090);
    image[0x440..0x44D].copy_from_slice(b"KERNEL32.dll\0");
    image
}

fn files(exe: Vec<u8>, dll: Option<Vec<u8>>, backup_exists: bool) -> ExeFiles {
    ExeFiles {
        exe_path: "C:\\game\\Siglus.exe".to_string(),
        exe,
        dll_path: Some("C:\\game\\siglus_hook.dll".to_string()),
        dll,
        backup_path: "C:\\game\\Siglus.siglus_iat_backup".to_string(),
        backup_exists,
    }
}

fn patched() -> Vec<u8> {
    let mut image = executable();
    assert!(hook_import_fits(&image));
    assert!(add_hook_import(&mut image).is_ok());
    image
}

#[test]
fn an_image_is_parsed() {
    let image = executable();
    let pe = PeImage::parse(&image).unwrap();
    assert_eq!(pe.machine, 0x014C);
    assert_eq!(pe.rva_to_offset(0x1040).unwrap(), 0x440);
    let descriptors = pe.import_descriptors().unwrap();
    assert_eq!((descriptors.offset, descriptors.count), (0x400, 1));
    assert!(pe.imports_dll("kernel32.DLL").unwrap());
    assert!(!pe.imports_dll(HOOK_DLL_NAME).unwrap());
    assert!(pe.has_section(b".rdata\0\0"));
    assert!(!pe.has_section(b".sighook"));
    assert_eq!(pe.next_section_virtual_address(), Some(0x2000));
    assert!(matches!(pe.rva_to_offset(0x9000), Err(PeFault::Invalid(_))));
}

#[test]
fn unsound_images_are_refused() {
    let message = |image: &[u8]| match PeImage::parse(image) {
        Err(PeFault::Invalid(message)) => message,
        _ => panic!("the image was accepted"),
    };
    assert!(message(&[0u8; 10]).contains("0x0"));
    let mut image = executable();
    image[0] = 0;
    assert_eq!(message(&image), "missing MZ DOS signature");
    let mut image = executable();
    image[NT] = 0;
    assert_eq!(message(&image), "missing PE signature");
    let mut image = executable();
    put16(&mut image, OPTIONAL, 0x107);
    assert_eq!(message(&image), "unsupported PE optional header magic: 0x0107");
    let mut image = executable();
    put32(&mut image, OPTIONAL + 32, 0);
    assert_eq!(message(&image), "PE section/file alignment cannot be zero");
}

#[test]
fn the_hook_is_added_as_an_import() {
    let before = executable();
    let image = patched();
    assert_eq!(image.len(), 0x800);
    assert_eq!(get_u16(&image, NT + 6), 2);
    assert_eq!(get_u32(&image, OPTIONAL + 56), 0x3000);
    assert_eq!(get_u32(&image, OPTIONAL + 64), 0);
    assert_eq!(get_u32(&image, OPTIONAL + 104), 0x2000);
    assert_eq!(get_u32(&image, OPTIONAL + 108), 60);
    let header = OPTIONAL + 0xE0 + 40;
    assert_eq!(&image[header..header + 8], b".sighook");
    assert_eq!(get_u32(&image, header + 8), 60 + 8 + 8 + 23 + 16);
    assert_eq!(get_u32(&image, header + 12), 0x2000);
    assert_eq!(get_u32(&image, header + 16), 0x200);
    assert_eq!(get_u32(&image, header + 20), 0x600);
    assert_eq!(get_u32(&image, header + 36), 0xC000_0040);
    assert_eq!(image[0x600..0x614], before[0x400..0x414]);
    assert_eq!(get_u32(&image, 0x614), 0x2000 + 60);
    assert_eq!(get_u32(&image, 0x614 + 12), 0x2000 + 99);
    assert_eq!(get_u32(&image, 0x614 + 16), 0x2000 + 68);
    assert_eq!(get_u32(&image, 0x600 + 60), 0x2000 + 76);
    assert_eq!(get_u32(&image, 0x600 + 64), 0);
    assert_eq!(get_u32(&image, 0x600 + 68), 0x2000 + 76);
    assert_eq!(&image[0x600 + 76..0x600 + 99], b"\0\0SiglusHookLoadAnchor\0");
    assert_eq!(&image[0x600 + 99..0x600 + 115], b"siglus_hook.dll\0");
    let pe = PeImage::parse(&image).unwrap();
    assert!(pe.imports_dll("SIGLUS_HOOK.DLL").unwrap());
    assert!(pe.imports_dll("KERNEL32.dll").unwrap());
    assert!(pe.has_section(b".sighook"));
}

#[test]
fn a_patched_image_is_not_patched_again() {
    let mut image = patched();
    let before = image.clone();
    assert!(matches!(add_hook_import(&mut image), Err(HookFault::AlreadyPatched)));
    assert_eq!(image, before);
}

#[test]
fn a_section_header_needs_room() {
    let mut image = executable();
    put32(&mut image, OPTIONAL + 0xE0 + 20, (OPTIONAL + 0xE0 + 79) as u32);
    put32(&mut image, OPTIONAL + 104, 0);
    assert!(hook_import_fits(&image));
    match add_hook_import(&mut image) {
        Err(HookFault::Pe(PeFault::Invalid(message))) => {
            assert_eq!(message, "there is no room in the PE headers for a new section");
        }
        _ => panic!("the image was patched"),
    }
}

#[test]
fn patching_takes_a_library_for_the_same_machine() {
    let ready = files(executable(), Some(executable()), false);
    assert!(status_fits(&ready));
    let plan = patch(&ready).unwrap();
    assert!(plan.make_backup);
    assert_eq!(plan.image.unwrap(), patched());
    assert!(!patch(&files(executable(), Some(executable()), true)).unwrap().make_backup);
    let missing = patch(&files(executable(), None, false)).unwrap_err();
    assert_eq!(
        missing.message(),
        "missing hook DLL next to the executable: C:\\game\\siglus_hook.dll"
    );
    let mut other = executable();
    put16(&mut other, NT + 4, 0x8664);
    let mismatch = patch(&files(executable(), Some(other), false)).unwrap_err();
    assert_eq!(mismatch.message(), "architecture mismatch: EXE is x86, DLL is x64");
    let again = patch(&files(patched(), Some(executable()), true)).unwrap_err();
    assert_eq!(again.message(), "the executable already imports siglus_hook.dll");
}

#[test]
fn unpatching_takes_a_backup() {
    assert!(unpatch(&files(patched(), None, true)).is_ok());
    assert_eq!(
        unpatch(&files(patched(), None, false)).unwrap_err().message(),
        "missing backup for unpatch: C:\\game\\Siglus.siglus_iat_backup"
    );
    assert_eq!(
        unpatch(&files(executable(), None, true)).unwrap_err().message(),
        "the executable does not import siglus_hook.dll"
    );
}

#[test]
fn the_status_says_what_is_there() {
    let current = status(&files(patched(), Some(executable()), true)).unwrap();
    assert!(current.patched && current.dll_exists && current.backup_exists);
    assert_eq!(current.machine_summary(), "EXE: x86, DLL: x86");
    assert_eq!(
        refresh_status(&Ok(current)),
        "Selected: C:\\game\\Siglus.exe\nStatus: patched\nHook DLL: C:\\game\\siglus_hook.dll (found)\nBackup: C:\\game\\Siglus.siglus_iat_backup (found)\nEXE: x86, DLL: x86"
    );
    let current: PatchStatus = status(&files(executable(), None, false)).unwrap();
    assert_eq!(
        refresh_status(&Ok(current)),
        "Selected: C:\\game\\Siglus.exe\nStatus: not patched\nHook DLL: C:\\game\\siglus_hook.dll (missing)\nBackup: C:\\game\\Siglus.siglus_iat_backup (missing)\nEXE: x86, DLL: missing"
    );
    let mut homeless = files(executable(), None, false);
    homeless.dll_path = None;
    let error = status(&homeless).unwrap_err();
    assert_eq!(
        error.message(),
        "executable path has no parent directory: C:\\game\\Siglus.exe"
    );
    assert_eq!(
        refresh_status(&Err(PatchError::NotPatched)),
        "Status: failed to inspect executable\nthe executable does not import siglus_hook.dll"
    );
    assert_eq!(BACKUP_EXTENSION, "siglus_iat_backup");
}

#[test]
fn machines_have_names() {
    assert_eq!(machine_name(0x014C), "x86");
    assert_eq!(machine_name(0x8664), "x64");
    assert_eq!(machine_name(0), "unknown");
    assert_eq!(machine(&executable()).unwrap(), 0x014C);
    assert!(matches!(machine(&[]), Err(PatchError::InvalidPe(_))));
    let failed: PatchError = std::io::Error::new(std::io::ErrorKind::Other, "disk").into();
    assert_eq!(failed.message(), "disk");
}

#[test]
fn names_in_an_image_end_at_a_zero() {
    assert_eq!(read_c_string(b"xabc\0d", 1).unwrap(), "abc");
    assert_eq!(read_c_string(&[0xC3, 0xA4, 0xFF, 0], 0).unwrap(), "ä\u{FFFD}");
    assert!(read_c_string(b"abc", 0).is_err());
    assert!(require_range(&[0; 4], 1, 3).is_ok());
    assert!(require_range(&[0; 4], 2, 3).is_err());
    assert_eq!(align_u32(0x1001, 0x1000), Some(0x2000));
    assert_eq!(align_u32(0x1000, 0x1000), Some(0x1000));
    assert_eq!(align_u32(0xFFFF_F001, 0x1000), None);
}

#[test]
fn the_window_knows_its_buttons() {
    assert_eq!(window_command(1001), WindowCommand::Browse);
    assert_eq!(window_command(0x1_0000 + 1002), WindowCommand::Patch);
    assert_eq!(window_command(1003), WindowCommand::Unpatch);
    assert_eq!(window_command(1004), WindowCommand::Nothing);
}

#[test]
fn tasks_are_reported() {
    let done = report(Task::Patch, "a.exe", &Ok(()));
    assert_eq!((done.log.as_str(), done.message.as_str()), ("Patched a.exe", "Patch completed."));
    assert!(!done.is_error);
    let done = report(Task::Unpatch, "a.exe", &Ok(()));
    assert_eq!(done.log, "Restored a.exe");
    assert_eq!(done.message, "Unpatch completed.");
    let failed = report(Task::Unpatch, "a.exe", &Err(PatchError::NotPatched));
    assert!(failed.is_error);
    assert_eq!(failed.log, "Unpatch failed: the executable does not import siglus_hook.dll");
    assert_eq!(
        report(Task::Patch, "a", &Err(PatchError::AlreadyPatched)).message,
        "Patch failed:\nthe executable already imports siglus_hook.dll"
    );
    let mut log = "x".to_string();
    append_log(&mut log, "y");
    assert_eq!(log, "xy\r\n");
}

#[test]
fn failures_to_read_or_write_are_reported() {
    let locked = || PatchError::from(std::io::Error::other("the file is in use"));
    assert_eq!(locked().message(), "the file is in use");
    let failed = report(Task::Patch, "a.exe", &Err(locked()));
    assert!(failed.is_error);
    assert_eq!(failed.log, "Patch failed: the file is in use");
    assert_eq!(failed.message, "Patch failed:\nthe file is in use");
    let failed = report(Task::Unpatch, "a.exe", &Err(locked()));
    assert_eq!(failed.log, "Unpatch failed: the file is in use");
    assert_eq!(failed.message, "Unpatch failed:\nthe file is in use");
    assert_eq!(
        refresh_status(&Err(locked())),
        "Status: failed to inspect executable\nthe file is in use"
    );
}

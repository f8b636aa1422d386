use siglus_patch::hook::code::{
    movie_patches, patch_ecx_eax_call, CodePatch, HookStatus, MovieTargets,
};
use siglus_patch::injector::{
    arch_name, ensure_process_arch_matches, find_process_id, inject_dll, injected_text,
    normalize_process_name, parse_pid, pe_header_machine, pe_header_offset, process_arch, usage,
    wide_null_terminated_to_string, InjectAction, InjectEvent, ProcessEntry,
};

fn process(id: u32, name: &str) -> ProcessEntry {
    let mut exe_file: Vec<u16> = name.encode_utf16().collect();
    exe_file.extend_from_slice(&[0, 0x41, 0]);
    ProcessEntry { id, exe_file }
}

#[test]
fn arguments_are_numbers_or_names() {
    assert_eq!(
        usage("siglus_injector"),
        "usage: siglus_injector <process-name-or-pid> [path-to-siglus_hook.dll]"
    );
    for text in ["0", "42", "+7", "4294967295", "007"] {
        assert_eq!(parse_pid(text), text.parse::<u32>().ok());
        assert!(parse_pid(text).is_some());
    }
    for text in ["", "+", "-1", "++1", "4294967296", "12 ", "Siglus.exe"] {
        assert_eq!(parse_pid(text), text.parse::<u32>().ok());
        assert!(parse_pid(text).is_none());
    }
}

#[test]
fn processes_are_found_by_name() {
    assert_eq!(normalize_process_name("SiglusEngine.exe.exe"), "siglusengine");
    assert_eq!(normalize_process_name("Siglus.EXE"), "siglus.exe");
    assert_eq!(normalize_process_name(".exe"), "");
    let entries = [process(1, "explorer.exe"), process(2, "Siglus.exe"), process(3, "siglus")];
    assert_eq!(find_process_id("SIGLUS", &entries), Ok(2));
    assert_eq!(
        find_process_id("other.exe", &entries),
        Err("process not found: other.exe".to_string())
    );
    assert_eq!(wide_null_terminated_to_string(&[0x41, 0x42]), "AB");
    assert_eq!(wide_null_terminated_to_string(&[0x41, 0, 0x42]), "A");
}

#[test]
fn machines_have_to_match() {
    assert_eq!(process_arch(0, 0x8664), 0x8664);
    assert_eq!(process_arch(0x014C, 0x8664), 0x014C);
    assert_eq!(arch_name(0x014C), "x86");
    assert!(ensure_process_arch_matches(0x014C, 0x014C, 0x014C).is_ok());
    assert_eq!(
        ensure_process_arch_matches(0x8664, 0x014C, 0x014C).unwrap_err(),
        "process architecture mismatch: injector is x64, target is x86. Build both DLL and injector with the matching target, e.g. `cargo build --target i686-pc-windows-msvc` for 32-bit Siglus games."
    );
    assert_eq!(
        ensure_process_arch_matches(0x014C, 0x014C, 0x8664).unwrap_err(),
        "DLL architecture mismatch: DLL is x64, target is x86. Rebuild siglus_hook for the same target architecture."
    );
}

#[test]
fn the_machine_of_a_library_is_read() {
    let mut dos = [0u8; 0x40];
    assert_eq!(
        pe_header_offset("a.dll", &dos),
        Err("DLL is not a PE file: a.dll".to_string())
    );
    dos[0] = b'M';
    dos[1] = b'Z';
    dos[0x3D] = 1;
    assert_eq!(pe_header_offset("a.dll", &dos), Ok(0x100));
    assert_eq!(pe_header_machine("a.dll", b"PE\0\0\x4C\x01"), Ok(0x014C));
    assert_eq!(
        pe_header_machine("a.dll", b"PX\0\0\x4C\x01"),
        Err("DLL has an invalid PE signature: a.dll".to_string())
    );
}

fn next(event: InjectEvent) -> InjectAction {
    inject_dll(7, "C:\\hook.dll", 12, event)
}

fn failure(event: InjectEvent) -> String {
    match next(event) {
        InjectAction::Fail(message) => message,
        _ => panic!("the failure was passed over"),
    }
}

#[test]
fn a_library_is_loaded_step_by_step() {
    assert!(matches!(next(InjectEvent::Opened(Ok(()))), InjectAction::CheckArchitecture));
    assert!(matches!(next(InjectEvent::Architecture(Ok(()))), InjectAction::Allocate(24)));
    assert!(matches!(next(InjectEvent::Allocated(Ok(()))), InjectAction::WritePath));
    let written = InjectEvent::Written { done: true, written: 24, error: 0 };
    assert!(matches!(next(written), InjectAction::FindLoader));
    assert!(matches!(next(InjectEvent::LoaderFound(Ok(()))), InjectAction::StartThread));
    assert!(matches!(next(InjectEvent::ThreadStarted(Ok(()))), InjectAction::ReadExitCode));
    assert!(matches!(next(InjectEvent::ExitCode(Ok(5))), InjectAction::Done(5)));
    assert_eq!(
        injected_text("C:\\hook.dll", 7, 0x10000),
        "Injected C:\\hook.dll into process 7; remote module handle: 0x10000"
    );
}

#[test]
fn loading_stops_at_the_first_failure() {
    assert_eq!(failure(InjectEvent::Opened(Err(5))), "OpenProcess(7) failed: 5");
    assert_eq!(failure(InjectEvent::Architecture(Err("no".to_string()))), "no");
    assert_eq!(failure(InjectEvent::Allocated(Err(8))), "VirtualAllocEx failed: 8");
    let short = InjectEvent::Written { done: true, written: 23, error: 9 };
    assert_eq!(failure(short), "WriteProcessMemory failed: 9");
    let refused = InjectEvent::Written { done: false, written: 24, error: 10 };
    assert_eq!(failure(refused), "WriteProcessMemory failed: 10");
    assert_eq!(failure(InjectEvent::LoaderFound(Err("x".to_string()))), "x");
    assert_eq!(failure(InjectEvent::ThreadStarted(Err(11))), "CreateRemoteThread failed: 11");
    assert_eq!(failure(InjectEvent::ExitCode(Err(12))), "GetExitCodeThread failed: 12");
    assert_eq!(
        failure(InjectEvent::ExitCode(Ok(0))),
        "remote LoadLibraryW failed for C:\\hook.dll. Check that the target can read the DLL path, the DLL matches process architecture, and required runtime/dependencies are available."
    );
}

fn targets(address: u32) -> MovieTargets {
    MovieTargets {
        end_loop: address,
        is_playing: address,
        destroy: address,
        new: address,
        init: address,
        get_last_error: address,
        get_size: address,
        is_rgb: address,
        total_time_ms: address,
        check_error: address,
        check_need_update: address,
        fill_buffer: address,
    }
}

#[test]
fn a_call_is_patched_in() {
    let mut out: Vec<CodePatch> = Vec::new();
    assert_eq!(patch_ecx_eax_call(&mut out, 0x400000, 0x15C329, 9, 0x10000000), Ok(()));
    assert_eq!(out[0].offset, 0x15C329);
    let relative = 0x10000000i32 - (0x400000 + 0x15C329 + 2 + 5);
    let mut expected = vec![0x8B, 0xC8, 0xE8];
    expected.extend_from_slice(&relative.to_le_bytes());
    expected.extend_from_slice(&[0x90, 0x90]);
    assert_eq!(out[0].bytes, expected);
    assert_eq!(
        patch_ecx_eax_call(&mut out, 0x400000, 0x15C329, 6, 0x10000000),
        Err(HookStatus::MemoryAlloc)
    );
    assert_eq!(
        patch_ecx_eax_call(&mut out, 0x10400000, 0x15C329, 9, 0x80000000),
        Err(HookStatus::MemoryAlloc)
    );
    assert_eq!(out.len(), 1);
}

#[test]
fn all_movie_calls_are_patched() {
    let (patches, done) = movie_patches(0x400000, &targets(0x10000000));
    assert_eq!(done, Ok(()));
    let mut spans: Vec<(u32, u32)> = patches
        .iter()
        .map(|patch| (patch.offset, patch.offset + patch.bytes.len() as u32))
        .collect();
    spans.sort();
    for pair in spans.windows(2) {
        assert!(pair[0].1 <= pair[1].0);
    }
    let calls = patches
        .iter()
        .filter(|patch| {
            (0..patch.bytes.len().saturating_sub(4)).any(|at| {
                let bytes = &patch.bytes[at + 1..at + 5];
                let relative = i32::from_le_bytes([bytes[0], bytes[1], bytes[2], bytes[3]]);
                let next = 0x400000 + patch.offset + at as u32 + 5;
                (patch.bytes[at] == 0xE8 || patch.bytes[at] == 0xE9)
                    && next.wrapping_add(relative as u32) == 0x10000000
            })
        })
        .count();
    assert_eq!(calls, 13);
}

#[test]
fn a_call_out_of_reach_stops_the_patches() {
    let mut far = targets(0x10000000);
    far.destroy = 0x8000_0000;
    let (patches, done) = movie_patches(0x400000, &far);
    assert_eq!(done, Err(HookStatus::MemoryAlloc));
    let (all, _) = movie_patches(0x400000, &targets(0x10000000));
    assert!(patches.len() < all.len());
    for (made, planned) in patches.iter().zip(all.iter()) {
        assert_eq!(made.offset, planned.offset);
        assert_eq!(made.bytes, planned.bytes);
    }
}

use siglus_patch::hook::cstr::{read_cstr, read_cstr_plain, ProgramCStr};
use siglus_patch::hook::dump::{
    byte_array_len, dump_byte_array, dump_d3d_locked_rect, dump_packed_buffer_sizes,
    dump_u32_words, format_option_u32, format_option_usize, read_decrypted_u32_at, read_u32_at,
    ArrayFields, LockedRect,
};
use siglus_patch::hook::engine::main_module_offset;
use siglus_patch::hook::code::HookStatus;
use siglus_patch::hook::job::{run_async_save_job, JobAction, JobEvent};
use siglus_patch::hook::rotation::{
    copy_action, numbered_sav_or_png_file, should_move_rotated_save_or_png, CopyAction,
    NumberedSavOrPngFile, SavOrPng,
};
use siglus_patch::hook::save::{
    check_placeholder, packs_later, program_save_array_from_parts, save_file_name_from_cstr_log,
    save_layout_for_file_name, tnm_pack_buffer_hook_body, tnm_save_to_file_hook_body,
    try_queue_placeholder_save, write_placeholder_pack_buffer, AsyncSaveJob, PlaceholderCheck,
    SaveChoice,
};
use siglus_patch::hook::tasks::{SavePlace, SaveTasks};

#[test]
fn autosave_rotation_is_recognised() {
    assert!(should_move_rotated_save_or_png("C:\\g\\savedata\\1008.sav", "C:\\g\\savedata\\1009.sav"));
    assert!(should_move_rotated_save_or_png("1000.png", "1001.PNG"));
    assert!(!should_move_rotated_save_or_png("1009.sav", "1010.sav"));
    assert!(!should_move_rotated_save_or_png("1009.sav", "1008.sav"));
    assert!(!should_move_rotated_save_or_png("1008.sav", "1009.png"));
    assert!(!should_move_rotated_save_or_png("1007.sav", "1009.sav"));
    assert!(!should_move_rotated_save_or_png("0999.sav", "1000.sav"));
    assert!(!should_move_rotated_save_or_png("4294967295.sav", "1001.sav"));
    assert!(!should_move_rotated_save_or_png("global.sav", "1001.sav"));
    assert!(should_move_rotated_save_or_png("0001000.sav", "1001.sav"));
}

#[test]
fn numbered_files_are_parsed() {
    assert_eq!(
        numbered_sav_or_png_file("a/b\\0042.SAV"),
        Some(NumberedSavOrPngFile { number: 42, extension: SavOrPng::Sav })
    );
    assert_eq!(
        numbered_sav_or_png_file("7.png"),
        Some(NumberedSavOrPngFile { number: 7, extension: SavOrPng::Png })
    );
    assert_eq!(numbered_sav_or_png_file("7"), None);
    assert_eq!(numbered_sav_or_png_file(".sav"), None);
    assert_eq!(numbered_sav_or_png_file("7.8.sav"), None);
    assert_eq!(numbered_sav_or_png_file("7.bmp"), None);
    assert_eq!(numbered_sav_or_png_file("4294967296.sav"), None);
}

#[test]
fn a_rotation_is_moved_and_anything_else_is_copied() {
    assert_eq!(copy_action("1008.sav", "1009.sav", false), CopyAction::MoveReplacing);
    assert_eq!(copy_action("1008.sav", "1009.sav", true), CopyAction::Move);
    assert_eq!(copy_action("a.txt", "b.txt", false), CopyAction::Copy);
}

#[test]
fn save_files_have_layouts() {
    let layout = save_layout_for_file_name("READ.sav").unwrap();
    assert_eq!((layout.kind, layout.data_size_offset, layout.data_offset), ("read", 8, 0x10));
    let layout = save_layout_for_file_name("config.sav").unwrap();
    assert_eq!((layout.kind, layout.data_size_offset, layout.data_offset), ("config", 8, 0xC));
    let layout = save_layout_for_file_name("global.SAV").unwrap();
    assert_eq!((layout.kind, layout.data_size_offset, layout.data_offset), ("global", 8, 0xC));
    let layout = save_layout_for_file_name("1008.sav").unwrap();
    assert_eq!(
        (layout.kind, layout.data_size_offset, layout.data_offset),
        ("normal", 0x1228, 0x122C)
    );
    for name in ["", ".sav", "sav", "12a.sav", "read.sav.bak", "1008.png"] {
        assert!(save_layout_for_file_name(name).is_none());
    }
}

#[test]
fn file_names_are_cut_out_of_log_text() {
    assert_eq!(save_file_name_from_cstr_log("C:\\s\\read.sav (len=13 cap=20)"), "read.sav");
    assert_eq!(save_file_name_from_cstr_log("<null>"), "<null>");
    assert_eq!(save_file_name_from_cstr_log("a (len=1/b (len=2"), "a");
}

#[test]
fn only_large_data_is_packed_later() {
    assert!(!packs_later(None));
    assert!(!packs_later(Some(50 * 1024)));
    assert!(packs_later(Some(50 * 1024 + 1)));
    let small = vec![1u8; 50 * 1024];
    assert!(tnm_pack_buffer_hook_body(Some(&small)).is_none());
    assert!(tnm_pack_buffer_hook_body(None).is_none());
    let large = vec![1u8; 50 * 1024 + 1];
    let placeholder = tnm_pack_buffer_hook_body(Some(&large)).unwrap();
    assert_eq!(placeholder.len(), large.len() + 16);
    assert_eq!(&placeholder[..16], b"SPP0\x01\xC8\x00\x00\x01\x00\x00\x00\x00\x00\x00\x00");
    assert_eq!(&placeholder[16..], &large[..]);
}

fn pending_save(header_len: usize, raw: &[u8]) -> Vec<u8> {
    let mut save: Vec<u8> = (0..header_len).map(|i| (i % 251) as u8).collect();
    save.extend_from_slice(&write_placeholder_pack_buffer(raw).unwrap());
    save
}

#[test]
fn data_that_was_put_off_is_found_again() {
    let layout = save_layout_for_file_name("1001.sav").unwrap();
    let raw: Vec<u8> = (0..60_000u32).map(|i| (i * 7) as u8).collect();
    let save = pending_save(layout.data_offset, &raw);
    let job = try_queue_placeholder_save(&save, Some("C:\\Save\\1001.SAV".to_string()), &layout)
        .unwrap();
    assert_eq!(job.raw, raw);
    assert_eq!(job.header, save[..layout.data_offset].to_vec());
    assert_eq!(job.file_path, "C:\\Save\\1001.SAV");
    assert_eq!(job.path_key, "c:\\save\\1001.sav");
    assert!(try_queue_placeholder_save(&save, None, &layout).is_none());
}

#[test]
fn unsound_placeholders_are_told_apart() {
    let layout = save_layout_for_file_name("read.sav").unwrap();
    let save = pending_save(0x10, &[1, 2, 3]);
    assert!(matches!(check_placeholder(&save, &layout), PlaceholderCheck::Found { .. }));
    assert!(matches!(check_placeholder(&save[..0x1F], &layout), PlaceholderCheck::Packed));
    let mut other = save.clone();
    other[0x10] = b'X';
    assert!(matches!(check_placeholder(&other, &layout), PlaceholderCheck::Packed));
    let mut newer = save.clone();
    newer[0x18] = 2;
    assert!(matches!(check_placeholder(&newer, &layout), PlaceholderCheck::VersionMismatch(2)));
    assert!(matches!(
        check_placeholder(&save[..save.len() - 1], &layout),
        PlaceholderCheck::RangeInvalid { raw_len: 3, save_len: 34 }
    ));
}

#[test]
fn a_save_file_is_put_together() {
    let layout = save_layout_for_file_name("config.sav").unwrap();
    let header = [9u8; 12];
    let save = program_save_array_from_parts(&header, &[1, 2, 3, 4, 5], &layout).unwrap();
    assert_eq!(save, vec![9, 9, 9, 9, 9, 9, 9, 9, 5, 0, 0, 0, 1, 2, 3, 4, 5]);
    assert!(program_save_array_from_parts(&header[..11], &[1], &layout).is_none());
}

#[test]
fn the_engine_writes_what_was_not_put_off() {
    let path = ProgramCStr::new("C:\\savedata\\read.sav").unwrap();
    let save = pending_save(0x10, &[1, 2, 3]);
    match tnm_save_to_file_hook_body(false, Some(&path), Some(&save)) {
        SaveChoice::Queue(job) => {
            assert_eq!(job.raw, vec![1, 2, 3]);
            assert_eq!(job.layout.kind, "read");
        }
        SaveChoice::CallOriginal => panic!("the save was not queued"),
    }
    let original = |choice: SaveChoice| matches!(choice, SaveChoice::CallOriginal);
    assert!(original(tnm_save_to_file_hook_body(true, Some(&path), Some(&save))));
    assert!(original(tnm_save_to_file_hook_body(false, None, Some(&save))));
    assert!(original(tnm_save_to_file_hook_body(false, Some(&path), None)));
    assert!(original(tnm_save_to_file_hook_body(false, Some(&path), Some(&[0u8; 64]))));
    let other = ProgramCStr::new("notes.txt").unwrap();
    assert!(original(tnm_save_to_file_hook_body(false, Some(&other), Some(&save))));
}

fn some_job() -> AsyncSaveJob {
    AsyncSaveJob {
        path_key: "config.sav".to_string(),
        file_path: "Config.sav".to_string(),
        layout: save_layout_for_file_name("config.sav").unwrap(),
        header: vec![0; 12],
        raw: vec![1, 2, 3],
    }
}

#[test]
fn a_background_save_goes_step_by_step() {
    let job = some_job();
    assert!(matches!(run_async_save_job(&job, JobEvent::RawCopied(true)), JobAction::Pack));
    assert!(matches!(run_async_save_job(&job, JobEvent::Packed(true)), JobAction::ReadPacked));
    match run_async_save_job(&job, JobEvent::PackedRead(Some(vec![8, 9]))) {
        JobAction::StoreSave(save) => {
            assert_eq!(save, vec![0, 0, 0, 0, 0, 0, 0, 0, 2, 0, 0, 0, 8, 9]);
        }
        _ => panic!("the save was not put together"),
    }
    match run_async_save_job(&job, JobEvent::SaveStored(true)) {
        JobAction::Save(path) => {
            assert_eq!(read_cstr_plain(Some(&path)), Some("Config.sav".to_string()));
        }
        _ => panic!("the save was not written"),
    }
    assert!(matches!(run_async_save_job(&job, JobEvent::Saved(true)), JobAction::End(true)));
}

#[test]
fn a_background_save_stops_at_the_first_failure() {
    let job = some_job();
    for event in [
        JobEvent::RawCopied(false),
        JobEvent::Packed(false),
        JobEvent::PackedRead(None),
        JobEvent::SaveStored(false),
        JobEvent::Saved(false),
    ] {
        assert!(matches!(run_async_save_job(&job, event), JobAction::End(false)));
    }
    let mut short = some_job();
    short.header.pop();
    assert!(matches!(
        run_async_save_job(&short, JobEvent::PackedRead(Some(vec![1]))),
        JobAction::End(false)
    ));
}

#[test]
fn saves_of_one_file_wait_for_each_other() {
    let mut tasks = SaveTasks::new();
    let first = tasks.queue("a".to_string());
    assert_eq!(first, SavePlace { ticket: 0, previous: None });
    let second = tasks.queue("a".to_string());
    assert_eq!(second, SavePlace { ticket: 1, previous: Some(0) });
    let other = tasks.queue("b".to_string());
    assert_eq!(other, SavePlace { ticket: 2, previous: None });
    tasks.finish("a", first.ticket);
    let third = tasks.queue("a".to_string());
    assert_eq!(third.previous, Some(1));
    tasks.finish("a", second.ticket);
    tasks.finish("a", third.ticket);
    assert_eq!(tasks.queue("a".to_string()).previous, None);
    tasks.finish("nowhere", 0);
}

#[test]
fn engine_strings_round_trip() {
    for text in ["", "a", "1234567", "12345678", "C:\\セーブ\\1008.sav", "😀😀😀"] {
        let cstr = ProgramCStr::new(text).unwrap();
        assert_eq!(read_cstr_plain(Some(&cstr)), Some(text.to_string()));
    }
}

#[test]
fn engine_strings_are_laid_out() {
    let short = ProgramCStr::new("abc").unwrap();
    assert_eq!(short.fields, [0x0062_0061, 0x63, 0, 0, 3, 7]);
    assert!(short.heap.is_none());
    assert_eq!(short.debug_description(), "inline len=3 cap=7");
    let mut long = ProgramCStr::new("abcdefgh").unwrap();
    assert_eq!(long.fields, [0, 0, 0, 0, 8, 8]);
    long.place_heap(0x00AB_CDEF);
    assert_eq!(long.fields[0], 0x00AB_CDEF);
    assert_eq!(
        long.debug_description(),
        "heap ptr=0x00ABCDEF len=8 cap=8 storage_u16_len=9"
    );
    let mut short = short;
    short.place_heap(5);
    assert_eq!(short.fields[0], 0x0062_0061);
}

#[test]
fn engine_strings_are_logged() {
    assert_eq!(read_cstr(None), "<null>");
    assert_eq!(read_cstr(Some(&ProgramCStr::new("abc").unwrap())), "abc (len=3 cap=7)");
    let lost = ProgramCStr { fields: [0, 0, 0, 0, 9, 15], heap: None };
    assert_eq!(read_cstr(Some(&lost)), "<null-heap len=9 cap=15>");
    assert_eq!(read_cstr_plain(Some(&lost)), None);
    assert_eq!(read_cstr_plain(None), None);
}

#[test]
fn buffers_are_described() {
    assert_eq!(format_option_usize(Some(50)), "0x32/50");
    assert_eq!(format_option_usize(None), "<unreadable>");
    assert_eq!(format_option_u32(Some(255)), "0xFF/255");
    assert_eq!(dump_u32_words(None), "<null>");
    assert_eq!(dump_u32_words(Some(&[])), "");
    assert_eq!(dump_u32_words(Some(&[1, 0xABCDEF])), "00000001 00ABCDEF");
    let fields = ArrayFields { start: 0x1000, end: 0x1032, cap_end: 0x1100 };
    assert_eq!(byte_array_len(Some(fields)), Some(0x32));
    assert_eq!(byte_array_len(None), None);
    assert_eq!(
        byte_array_len(Some(ArrayFields { start: 2, end: 1, cap_end: 0 })),
        Some(0)
    );
    assert_eq!(
        dump_byte_array(Some(fields)),
        "start=0x00001000 end=0x00001032 cap_end=0x00001100 len=0x32/50"
    );
    assert_eq!(dump_byte_array(None), "<null>");
    assert_eq!(
        dump_d3d_locked_rect(Some(LockedRect { pitch: -4, bits: 0x20 })),
        "pitch=-4 pBits=0x00000020"
    );
    assert_eq!(dump_d3d_locked_rect(None), "rect=<null>");
}

#[test]
fn numbers_are_read_out_of_buffers() {
    let bytes = [1u8, 2, 3, 4, 5, 6, 7, 8];
    assert_eq!(read_u32_at(Some(&bytes), 4), Some(0x08070605));
    assert_eq!(read_u32_at(Some(&bytes), 5), None);
    assert_eq!(read_u32_at(None, 0), None);
    let mut table = [0u8; 256];
    table[4] = 0xFF;
    assert_eq!(read_decrypted_u32_at(Some(&bytes), Some(&table), 4), Some(0x080706FA));
    assert_eq!(read_decrypted_u32_at(Some(&bytes), None, 4), None);
    assert_eq!(read_decrypted_u32_at(Some(&bytes[..7]), Some(&table), 4), None);
    assert_eq!(
        dump_packed_buffer_sizes(Some(&bytes[..7]), Some(&table)),
        "decrypted_compressed_size=0x4030201/67305985 decrypted_original_size=<unreadable>"
    );
}

#[test]
fn the_key_table_repeats() {
    let bytes = vec![0u8; 260];
    let mut table = [0u8; 256];
    table[0] = 7;
    assert_eq!(read_decrypted_u32_at(Some(&bytes), Some(&table), 256), Some(7));
}

#[test]
fn addresses_count_from_the_module() {
    assert_eq!(main_module_offset(0x400000, 0x10), Ok(0x400010));
    assert_eq!(main_module_offset(0, 0x10), Err(HookStatus::ModuleNotFound));
}

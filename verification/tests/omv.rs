use siglus_patch::omv::header::{OmvHeader, OmvReadError, OMV_HEADER_SIZE};
use siglus_patch::omv::video::{HeaderRead, OmvVideoFormat, OmvVideoInfo};

fn header_bytes() -> [u8; 168] {
    let mut bytes = [0u8; 168];
    let mut put = |at: usize, value: i32| {
        bytes[at..at + 4].copy_from_slice(&value.to_le_bytes());
    };
    put(0, 168);
    put(40, 1);
    put(44, 1280);
    put(48, 720);
    put(52, -4);
    put(56, 5);
    put(60, 33_333);
    put(64, 11);
    put(68, 12);
    put(72, 13);
    put(76, 3);
    put(80, 2);
    put(116, 21);
    put(120, 22);
    put(124, 23);
    put(128, 24);
    put(132, -25);
    bytes[4] = 1;
    bytes[5] = 2;
    bytes[8] = 0xAA;
    bytes[84] = 0xBB;
    bytes[167] = 0xCC;
    bytes
}

#[test]
fn a_header_is_read_field_by_field() {
    let header = OmvHeader::from_bytes(&header_bytes());
    assert_eq!(header.header_size, 168);
    assert_eq!((header.major_version, header.minor_version), (1, 2));
    assert_eq!((header.theora_size.cx, header.theora_size.cy), (1280, 720));
    assert_eq!((header.theora_center.x, header.theora_center.y), (-4, 5));
    assert_eq!((header.keep00[0], header.keep01[0], header.keep02[31]), (0xAA, 0xBB, 0xCC));
    assert_eq!(header.vorbis_packet_cnt, -25);
    assert_eq!(header.theora_type_name(), "RGBA");
}

#[test]
fn a_header_is_written_out() {
    let text = OmvHeader::from_bytes(&header_bytes()).to_text();
    assert_eq!(
        text,
        "header_size: 168\nversion: 1.2\ntheora_type: 1 (RGBA)\ntheora_size: 1280x720\ntheora_center: -4, 5\ntheora_us_per_frame: 33333\ntheora_serial_no: 11\ntheora_header_page_no: 12\ntheora_subheader_page_no: 13\ntheora_page_cnt: 3\ntheora_packet_cnt: 2\nvorbis_serial_no: 21\nvorbis_header_page_no: 22\nvorbis_subheader_page_no: 23\nvorbis_page_cnt: 24\nvorbis_packet_cnt: -25"
    );
}

#[test]
fn headers_need_all_their_bytes() {
    let mut bytes = header_bytes().to_vec();
    bytes.push(9);
    assert_eq!(OmvHeader::read_from_prefix(&bytes).unwrap().theora_type, 1);
    let error = OmvHeader::read_from_prefix(&bytes[..167]).unwrap_err();
    assert_eq!(error.message(), "file is too small for OMV header: 167 < 168");
    assert!(matches!(
        error,
        OmvReadError::TooSmall { actual: 167, needed: OMV_HEADER_SIZE }
    ));
    assert_eq!(OmvHeader::read_from_file(Ok(bytes)).unwrap().theora_type, 1);
    let missing = std::io::Error::new(std::io::ErrorKind::NotFound, "gone");
    let error = OmvHeader::read_from_file(Err(missing)).unwrap_err();
    assert!(matches!(error, OmvReadError::Io(_)));
    assert_eq!(error.message(), "gone");
}

#[test]
fn types_have_names() {
    let mut bytes = header_bytes();
    for (kind, name, format) in [
        (0, "RGB", OmvVideoFormat::Rgb),
        (1, "RGBA", OmvVideoFormat::Rgba),
        (2, "YUV", OmvVideoFormat::Yuv),
        (3, "unknown", OmvVideoFormat::Unknown),
        (-1, "unknown", OmvVideoFormat::Unknown),
    ] {
        bytes[40..44].copy_from_slice(&i32::to_le_bytes(kind));
        assert_eq!(OmvHeader::from_bytes(&bytes).theora_type_name(), name);
        assert_eq!(OmvVideoFormat::from(kind), format);
    }
}

#[test]
fn the_stream_starts_behind_the_tables() {
    let read = HeaderRead::Read(header_bytes());
    assert!(read.payload_fits());
    let info = OmvVideoInfo::from_path(&read).unwrap();
    assert_eq!(info.format, OmvVideoFormat::Rgba);
    assert_eq!((info.display_width, info.display_height), (1280, 720));
    assert_eq!(info.payload_offset, 168 + 3 * 0x1C + 2 * 0x20);
}

#[test]
fn unsound_movies_are_refused() {
    let open = HeaderRead::NotOpened("denied".to_string());
    assert_eq!(OmvVideoInfo::from_path(&open).unwrap_err(), "Failed to open file: denied");
    let short = HeaderRead::NotRead("short".to_string());
    assert_eq!(OmvVideoInfo::from_path(&short).unwrap_err(), "Failed to read header: short");
    let mut bytes = header_bytes();
    bytes[44..48].copy_from_slice(&0i32.to_le_bytes());
    assert_eq!(
        OmvVideoInfo::from_path(&HeaderRead::Read(bytes)).unwrap_err(),
        "Invalid video dimensions in header"
    );
    let mut bytes = header_bytes();
    bytes[80..84].copy_from_slice(&(-1i32).to_le_bytes());
    assert_eq!(
        OmvVideoInfo::from_path(&HeaderRead::Read(bytes)).unwrap_err(),
        "Invalid page or packet count in header"
    );
}

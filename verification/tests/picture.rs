use siglus_patch::hook::cstr::ProgramCStr;
use siglus_patch::hook::dump::LockedRect;
use siglus_patch::hook::picture::{
    append_bgra_row_as_rgb, convert_shift_r, encode_png, picture_as_rgb, plan_picture,
    write_png_from_texture, PictureError, PngFault,
};

fn plan_error(width: i32, height: i32, rect: Option<LockedRect>) -> PictureError {
    let path = ProgramCStr::new("thumb.png").unwrap();
    plan_picture(Some(&path), width, height, rect).unwrap_err()
}

#[test]
fn pictures_are_checked_before_they_are_written() {
    let rect = Some(LockedRect { pitch: 16, bits: 0x1000 });
    assert_eq!(
        plan_error(0, 5, rect).message(),
        "invalid size width=0 height=5"
    );
    assert_eq!(
        plan_error(5, -1, None).message(),
        "invalid size width=5 height=-1"
    );
    assert_eq!(plan_error(1, 1, None), PictureError::NullRect);
    assert_eq!(PictureError::NullRect.message(), "D3DLOCKED_RECT is null");
    assert_eq!(
        plan_picture(None, 1, 1, rect).unwrap_err().message(),
        "failed to read file_path CSTR"
    );
    assert_eq!(
        plan_error(1, 1, Some(LockedRect { pitch: -8, bits: 0 })).message(),
        "unsupported pitch=-8"
    );
    assert_eq!(
        plan_error(1, 1, Some(LockedRect { pitch: 8, bits: 0 })).message(),
        "D3DLOCKED_RECT.pBits is null"
    );
    assert_eq!(
        plan_error(5, 1, rect).message(),
        "pitch too small pitch=16 row_len=20"
    );
    assert_eq!(PictureError::RowOverflow.message(), "source row length overflow");
    assert_eq!(PictureError::BufferOverflow.message(), "png buffer length overflow");
    let path = ProgramCStr::new("thumb.png").unwrap();
    let plan = plan_picture(Some(&path), 3, 2, rect).unwrap();
    assert_eq!((plan.path.as_str(), plan.width, plan.height, plan.pitch), ("thumb.png", 3, 2, 16));
    assert_eq!(plan.memory(), Some(16 + 12));
}

#[test]
fn pixels_lose_their_alpha_and_turn_round() {
    let bgra: [u8; 16] = [1, 2, 3, 4, 5, 6, 7, 8, 9, 10, 11, 12, 13, 14, 15, 16];
    assert_eq!(convert_shift_r(&bgra), [3, 2, 1, 7, 6, 5, 11, 10, 9, 15, 14, 13]);
    let row: Vec<u8> = (0..28).collect();
    let mut rgb = vec![0xEE];
    append_bgra_row_as_rgb(&row, 7, &mut rgb);
    let mut expected = vec![0xEE];
    for pixel in row.chunks(4) {
        expected.extend_from_slice(&[pixel[2], pixel[1], pixel[0]]);
    }
    assert_eq!(rgb, expected);
}

#[test]
fn rows_are_a_pitch_apart() {
    let path = ProgramCStr::new("t.png").unwrap();
    let plan = plan_picture(Some(&path), 1, 2, Some(LockedRect { pitch: 6, bits: 1 })).unwrap();
    let bits = [1, 2, 3, 4, 0, 0, 5, 6, 7, 8];
    assert_eq!(plan.memory(), Some(bits.len()));
    assert_eq!(picture_as_rgb(&plan, &bits), vec![3, 2, 1, 7, 6, 5]);
}

#[test]
fn a_picture_becomes_a_png_file() {
    let path = ProgramCStr::new("t.png").unwrap();
    let plan = plan_picture(Some(&path), 2, 2, Some(LockedRect { pitch: 12, bits: 1 })).unwrap();
    let bits = [
        10, 20, 30, 255, 40, 50, 60, 255, 0, 0, 0, 0, 70, 80, 90, 255, 100, 110, 120, 255,
    ];
    let file = match write_png_from_texture(&plan, &bits) {
        Ok(file) => file,
        Err(_) => panic!("the picture was not encoded"),
    };
    let decoder = png::Decoder::new(&file[..]);
    let mut reader = decoder.read_info().unwrap();
    let mut pixels = vec![0; reader.output_buffer_size()];
    let info = reader.next_frame(&mut pixels).unwrap();
    assert_eq!((info.width, info.height), (2, 2));
    assert_eq!(info.color_type, png::ColorType::Rgb);
    assert_eq!(info.bit_depth, png::BitDepth::Eight);
    assert_eq!(pixels, vec![30, 20, 10, 60, 50, 40, 90, 80, 70, 120, 110, 100]);
}

#[test]
fn unsound_pictures_are_not_encoded() {
    assert!(matches!(encode_png(&[], 0, 1), Err(PngFault::Header(_))));
    assert!(matches!(encode_png(&[], 1, 0), Err(PngFault::Header(_))));
    assert!(matches!(encode_png(&[1, 2], 1, 1), Err(PngFault::Data(_))));
    assert!(encode_png(&[1, 2, 3], 1, 1).is_ok());
}

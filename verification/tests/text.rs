use siglus_patch::bytes::{get_u16, get_u32, write_bytes, write_u16, write_u32, write_u64};
use siglus_patch::text::{
    before_pattern, chars_of, has_only_digits, last_dot_of, last_part_of, parse_digits,
    push_dec, push_hex, push_hex_fixed, push_hex_word, push_signed, same_ignoring_case, same_text,
    text_of, to_lower,
};
use siglus_patch::wide::{encode_utf16, from_utf16_lossy, wide_null};

#[test]
fn numbers_are_written_as_text() {
    let mut out = String::new();
    push_hex(&mut out, 0xDEADBEEF);
    out.push(' ');
    push_hex(&mut out, 0);
    out.push(' ');
    push_hex_fixed(&mut out, 0xAB, 4);
    out.push(' ');
    push_hex_word(&mut out, 0x400000);
    out.push(' ');
    push_hex_word(&mut out, 0x1_0000_0000);
    out.push(' ');
    push_dec(&mut out, u64::MAX);
    out.push(' ');
    push_signed(&mut out, i64::MIN);
    out.push(' ');
    push_signed(&mut out, -7);
    assert_eq!(
        out,
        "DEADBEEF 0 00AB 00400000 100000000 18446744073709551615 -9223372036854775808 -7"
    );
}

#[test]
fn text_is_compared_and_lowered_as_ascii() {
    assert_eq!(to_lower("CONFIG.Sav Ä"), "config.sav Ä");
    assert!(same_ignoring_case("G00", "g00"));
    assert!(!same_ignoring_case("Ä", "ä"));
    assert!(same_text("abc", "abc"));
    assert!(!same_text("abc", "abd"));
    assert!(!same_text("abc", "abcd"));
    assert_eq!(text_of(&chars_of("日本")), "日本");
}

#[test]
fn paths_and_digits_are_taken_apart() {
    assert_eq!(text_of(&last_part_of(&chars_of("C:\\save/1008.sav"))), "1008.sav");
    assert_eq!(text_of(&last_part_of(&chars_of("plain"))), "plain");
    assert_eq!(text_of(&last_part_of(&chars_of("dir\\"))), "");
    assert_eq!(last_dot_of(&chars_of("a.b.c")), Some(3));
    assert_eq!(last_dot_of(&chars_of("abc")), None);
    assert!(has_only_digits(&chars_of("0123")));
    assert!(!has_only_digits(&chars_of("")));
    assert!(!has_only_digits(&chars_of("12a")));
    assert_eq!(parse_digits(&chars_of("4294967295")), Some(u32::MAX));
    assert_eq!(parse_digits(&chars_of("4294967296")), None);
    assert_eq!(parse_digits(&chars_of("0000000000000000000007")), Some(7));
    assert_eq!(text_of(&before_pattern(&chars_of("a (len=3 cap=7)"), &chars_of(" (len="))), "a");
    assert_eq!(text_of(&before_pattern(&chars_of("abc"), &chars_of(" (len="))), "abc");
}

#[test]
fn utf16_round_trips() {
    for text in ["", "abc", "セーブ", "😀 mixed 日本語 😀"] {
        let expected: Vec<u16> = text.encode_utf16().collect();
        assert_eq!(encode_utf16(text), expected);
        assert_eq!(from_utf16_lossy(&expected), text);
        let mut ended = expected.clone();
        ended.push(0);
        assert_eq!(wide_null(text), ended);
    }
}

#[test]
fn unpaired_surrogates_are_replaced() {
    for units in [
        vec![0xD83D],
        vec![0xDE00],
        vec![0xD83D, 0x41],
        vec![0xDE00, 0xD83D],
        vec![0xD83D, 0xD83D, 0xDE00],
        vec![0x41, 0xDFFF, 0x42],
    ] {
        assert_eq!(from_utf16_lossy(&units), String::from_utf16_lossy(&units));
    }
}

#[test]
fn little_endian_numbers_are_read_and_written() {
    let mut bytes = vec![0u8; 12];
    write_u16(&mut bytes, 0, 0x1234);
    write_u32(&mut bytes, 2, 0x89ABCDEF);
    assert_eq!(bytes[..6], [0x34, 0x12, 0xEF, 0xCD, 0xAB, 0x89]);
    assert_eq!(get_u16(&bytes, 0), 0x1234);
    assert_eq!(get_u32(&bytes, 2), 0x89ABCDEF);
    write_u64(&mut bytes, 4, 0x1122334455667788);
    assert_eq!(bytes[4..], [0x88, 0x77, 0x66, 0x55, 0x44, 0x33, 0x22, 0x11]);
    write_bytes(&mut bytes, 1, &[7, 8, 9]);
    assert_eq!(bytes[..5], [0x34, 7, 8, 9, 0x88]);
}

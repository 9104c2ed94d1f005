use msixvc::text::{
    chars_of, contains_char, decode_nul_terminated_utf16, decode_utf16_prefix,
    ends_with_ignore_ascii_case, find_nul, replace_chars, string_from_chars,
};

#[test]
fn utf16_name_stops_at_nul() {
    let units: Vec<u16> = "Game.exe\0junk".encode_utf16().collect();
    assert_eq!(find_nul(&units), 8);
    assert_eq!(decode_nul_terminated_utf16(&units).as_deref(), Some("Game.exe"));
    let no_nul: Vec<u16> = "abc".encode_utf16().collect();
    assert_eq!(decode_nul_terminated_utf16(&no_nul).as_deref(), Some("abc"));
}

#[test]
fn utf16_prefix_and_invalid_units() {
    let units: Vec<u16> = "Content\\data.bin".encode_utf16().collect();
    assert_eq!(decode_utf16_prefix(&units, 7).as_deref(), Some("Content"));
    let lone_surrogate = [0x0041u16, 0xD800, 0x0042];
    assert_eq!(decode_utf16_prefix(&lone_surrogate, 3), None);
    assert_eq!(decode_utf16_prefix(&lone_surrogate, 1).as_deref(), Some("A"));
}

#[test]
fn char_helpers() {
    let c = chars_of("a/b/C.EXE");
    assert_eq!(c.len(), 9);
    assert!(contains_char(&c, '/'));
    assert!(!contains_char(&c, ':'));
    assert!(ends_with_ignore_ascii_case(&c, &['.', 'e', 'x', 'e']));
    assert!(!ends_with_ignore_ascii_case(&c, &['.', 'd', 'l', 'l']));
    let r = replace_chars(&c, '/', '\\');
    assert_eq!(string_from_chars(&r), "a\\b\\C.EXE");
}

#[test]
fn utf16_surrogate_pairs() {
    let units: Vec<u16> = "a\u{1F600}b".encode_utf16().collect();
    assert_eq!(units, vec![0x61, 0xD83D, 0xDE00, 0x62]);
    assert_eq!(decode_utf16_prefix(&units, 4).as_deref(), Some("a\u{1F600}b"));
    // a pair cut in half is invalid
    assert_eq!(decode_utf16_prefix(&units, 2), None);
    // a low surrogate alone is invalid
    assert_eq!(decode_utf16_prefix(&[0xDE00u16], 1), None);
}

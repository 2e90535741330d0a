use rustpad::encoding::{utf8_to_wide, wide_to_utf8};
use rustpad::util::{convert_string, until_nul};

fn wide(s: &str) -> Vec<u16> {
    s.encode_utf16().collect()
}

#[test]
fn convert_string_appends_terminator() {
    let mut expected = wide("Rustpad");
    expected.push(0);
    assert_eq!(convert_string("Rustpad"), expected);
}

#[test]
fn convert_string_of_empty_is_terminator_only() {
    assert_eq!(convert_string(""), vec![0u16]);
}

#[test]
fn convert_string_encodes_surrogate_pairs() {
    assert_eq!(convert_string("a\u{1F600}é"), vec![0x61, 0xD83D, 0xDE00, 0xE9, 0]);
}

#[test]
fn convert_string_keeps_embedded_nuls() {
    let filter = "Text Files (*.txt)\0*.txt\0All Files (*.*)\0*.*\0";
    let mut expected = wide(filter);
    expected.push(0);
    assert_eq!(convert_string(filter), expected);
}

#[test]
fn until_nul_stops_at_first_zero() {
    assert_eq!(until_nul(&[0x41, 0x42, 0, 0x43, 0]), vec![0x41, 0x42]);
}

#[test]
fn until_nul_without_zero_takes_all() {
    assert_eq!(until_nul(&[0x41, 0x42]), vec![0x41, 0x42]);
}

#[test]
fn until_nul_of_leading_zero_is_empty() {
    assert_eq!(until_nul(&[0, 0x41]), Vec::<u16>::new());
    assert_eq!(until_nul(&[]), Vec::<u16>::new());
}

#[test]
fn converted_string_reads_back_to_its_encoding() {
    let s = "C:\\Users\\ö\u{10437}.txt";
    assert_eq!(until_nul(&convert_string(s)), wide(s));
}

#[test]
fn wide_to_utf8_matches_std_on_well_formed_text() {
    let s = "Hello, wörld \u{20AC} \u{1F600}\r\n";
    assert_eq!(wide_to_utf8(&wide(s)), s.as_bytes().to_vec());
}

#[test]
fn wide_to_utf8_replaces_unpaired_surrogates() {
    assert_eq!(wide_to_utf8(&[0x41, 0xD800, 0x42]), vec![0x41, 0xEF, 0xBF, 0xBD, 0x42]);
    assert_eq!(wide_to_utf8(&[0xDC00]), vec![0xEF, 0xBF, 0xBD]);
    assert_eq!(wide_to_utf8(&[0xD83D]), vec![0xEF, 0xBF, 0xBD]);
}

#[test]
fn wide_to_utf8_lossy_matches_std() {
    let units = [0x61, 0xDE00, 0xD83D, 0xDE00, 0xD800, 0xD800, 0xDC00, 0x7FF, 0x800];
    assert_eq!(wide_to_utf8(&units), String::from_utf16_lossy(&units).into_bytes());
}

#[test]
fn utf8_to_wide_matches_std_on_valid_input() {
    let s = "Line one\nzwei: \u{00DF}\u{20AC}\u{10348}\n";
    assert_eq!(utf8_to_wide(s.as_bytes()), wide(s));
}

#[test]
fn utf8_to_wide_replaces_each_bad_byte() {
    assert_eq!(utf8_to_wide(&[0x41, 0xFF, 0x42]), vec![0x41, 0xFFFD, 0x42]);
    // overlong encoding of '/'
    assert_eq!(utf8_to_wide(&[0xC0, 0xAF]), vec![0xFFFD, 0xFFFD]);
    // encoded surrogate
    assert_eq!(utf8_to_wide(&[0xED, 0xA0, 0x80]), vec![0xFFFD, 0xFFFD, 0xFFFD]);
    // truncated sequence at the end
    assert_eq!(utf8_to_wide(&[0x61, 0xE2, 0x82]), vec![0x61, 0xFFFD, 0xFFFD]);
    // above U+10FFFF
    assert_eq!(utf8_to_wide(&[0xF4, 0x90, 0x80, 0x80]), vec![0xFFFD, 0xFFFD, 0xFFFD, 0xFFFD]);
}

#[test]
fn save_then_open_gives_back_the_text() {
    let text = wide("first\r\nsecond \u{1F600}\n\u{FFFF}end");
    assert_eq!(utf8_to_wide(&wide_to_utf8(&text)), text);
}

#[test]
fn save_then_open_of_unpaired_surrogate_gives_replacement() {
    let text = vec![0x41, 0xD800];
    assert_eq!(utf8_to_wide(&wide_to_utf8(&text)), vec![0x41, 0xFFFD]);
}

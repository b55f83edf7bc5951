use rustcom::codec::HexParseError;
use rustcom::codec::ViewMode;
use rustcom::codec::format_hex;
use rustcom::codec::format_hex_tokens;
use rustcom::codec::parse_hex_input;
use rustcom::codec::render;
use rustcom::codec::str_to_chars;
use rustcom::codec::strip_ansi_codes;

#[test]
fn hex_dump_single_short_line() {
    let s = format_hex(b"Hello");
    assert_eq!(s, "0000  48 65 6C 6C 6F                                     Hello\n");
}

#[test]
fn hex_dump_two_lines_with_mid_space() {
    let data: Vec<u8> = (0x41..0x41 + 17).collect();
    let s = format_hex(&data);
    assert_eq!(
        s,
        "0000  41 42 43 44 45 46 47 48  49 4A 4B 4C 4D 4E 4F 50   ABCDEFGHIJKLMNOP\n\
         0010  51                                                 Q\n"
    );
}

#[test]
fn hex_dump_long_line_padding_and_dots() {
    let s = format_hex(b"Hi\x00\xff ten bytes");
    assert_eq!(s, "0000  48 69 00 FF 20 74 65 6E  20 62 79 74 65 73         Hi.. ten bytes\n");
}

#[test]
fn hex_dump_empty_is_empty() {
    assert_eq!(format_hex(b""), "");
}

#[test]
fn hex_dump_offsets_grow_past_four_digits() {
    let data: Vec<u8> = vec![0u8; 0x10010];
    let s = format_hex(&data);
    assert!(s.contains("\n10000  00 "));
}

#[test]
fn hex_tokens_rendering() {
    assert_eq!(format_hex_tokens(&[0xAA, 0xBB, 0x0D, 0x0A]), "AA BB 0D 0A");
    assert_eq!(format_hex_tokens(&[0x00]), "00");
    assert_eq!(format_hex_tokens(&[]), "");
}

#[test]
fn hex_round_trip_recovers_bytes() {
    let cases: Vec<Vec<u8>> = vec![
        vec![0x00],
        vec![0xAA, 0xBB, 0x0D, 0x0A],
        vec![0xFF, 0x00, 0x7F, 0x80, 0x01],
        (0u8..=255u8).collect(),
    ];
    for bytes in cases {
        let text = format_hex_tokens(&bytes);
        assert_eq!(parse_hex_input(&text), Ok(bytes));
    }
}

#[test]
fn parse_hex_accepts_tokens_and_whitespace() {
    assert_eq!(parse_hex_input("AA BB 0D 0A"), Ok(vec![0xAA, 0xBB, 0x0D, 0x0A]));
    assert_eq!(parse_hex_input("  a 0F\t42\n"), Ok(vec![0x0A, 0x0F, 0x42]));
}

#[test]
fn parse_hex_rejects_empty_input() {
    assert_eq!(parse_hex_input(""), Err(HexParseError::EmptyInput));
    assert_eq!(parse_hex_input("   \t  "), Err(HexParseError::EmptyInput));
}

#[test]
fn parse_hex_reports_first_bad_token() {
    assert_eq!(parse_hex_input("GG"), Err(HexParseError::InvalidToken("GG".to_string())));
    assert_eq!(parse_hex_input("AA XY BB"), Err(HexParseError::InvalidToken("XY".to_string())));
    assert_eq!(parse_hex_input("AAA"), Err(HexParseError::InvalidToken("AAA".to_string())));
    assert_eq!(parse_hex_input("0x41"), Err(HexParseError::InvalidToken("0x41".to_string())));
}

#[test]
fn strip_ansi_removes_csi_sequences() {
    assert_eq!(strip_ansi_codes("\x1b[31mHELLO\x1b[0m"), "HELLO");
}

#[test]
fn strip_ansi_keeps_lone_escape() {
    assert_eq!(strip_ansi_codes("A\x1bB"), "A\x1bB");
    assert_eq!(strip_ansi_codes("A\x1b"), "A\x1b");
}

#[test]
fn strip_ansi_consumes_open_sequence_at_end() {
    assert_eq!(strip_ansi_codes("A\x1b[12;3"), "A");
    assert_eq!(strip_ansi_codes("A\x1b["), "A");
}

#[test]
fn strip_ansi_plain_text_unchanged() {
    assert_eq!(strip_ansi_codes("no escapes here"), "no escapes here");
    assert_eq!(strip_ansi_codes(""), "");
}

#[test]
fn render_ascii_lossy_replaces_invalid_utf8() {
    let s = render(&[0xFF], ViewMode::Ascii, false);
    assert_eq!(s, "\u{FFFD}");
}

#[test]
fn render_ascii_strips_when_asked() {
    assert_eq!(render(b"\x1b[31mOK\x1b[0m", ViewMode::Ascii, true), "OK");
    assert_eq!(render(b"\x1b[31mOK\x1b[0m", ViewMode::Ascii, false), "\x1b[31mOK\x1b[0m");
}

#[test]
fn render_both_combines_views() {
    let s = render(b"A", ViewMode::Both, false);
    let expected = format!("=== HEX ===\n{}\n\n=== ASCII ===\nA", format_hex(b"A"));
    assert_eq!(s, expected);
}

#[test]
fn render_hex_mode_is_hex_dump() {
    assert_eq!(render(b"Hello", ViewMode::Hex, true), format_hex(b"Hello"));
}

#[test]
fn str_to_chars_keeps_characters() {
    let v = str_to_chars("a\u{1F600}b");
    assert_eq!(v, vec!['a', '\u{1F600}', 'b']);
}

#[test]
fn hex_dump_exactly_eight_bytes() {
    // the eighth byte brings the mid-line space, and the padding of a line
    // of at most eight bytes adds the separator space as well
    let s = format_hex(b"ABCDEFGH");
    assert_eq!(s, "0000  41 42 43 44 45 46 47 48                             ABCDEFGH\n");
}

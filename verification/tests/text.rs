use protohackers::budget_chat::protocol::format_chat_message;
use protohackers::prime_time::protocol::request_text;
use protohackers::text::{read_text, strip_newline};

fn has_white_space_property(c: char) -> bool {
    matches!(
        c as u32,
        0x09..=0x0D
            | 0x20
            | 0x85
            | 0xA0
            | 0x1680
            | 0x2000..=0x200A
            | 0x2028
            | 0x2029
            | 0x202F
            | 0x205F
            | 0x3000
    )
}

#[test]
fn white_space_is_what_the_standard_library_takes_off() {
    let mut count = 0;
    for code in 0..=0x10FFFFu32 {
        if let Some(c) = char::from_u32(code) {
            assert_eq!(c.is_whitespace(), has_white_space_property(c), "U+{code:04X}");
            if has_white_space_property(c) {
                count += 1;
                let padded = format!("{c}{c}x y{c}");
                assert_eq!(request_text(&padded), "x y", "U+{code:04X}");
            }
        }
    }
    assert_eq!(count, 25);
}

#[test]
fn what_is_no_white_space_is_kept() {
    for c in ['\u{1c}', '\u{1f}', '\u{200b}', '\u{180e}', '\u{feff}', '\u{2060}', '_', '\0'] {
        let padded = format!("{c}x{c}");
        assert_eq!(request_text(&padded), padded);
    }
}

#[test]
fn white_space_inside_is_kept() {
    assert_eq!(request_text(" a  b\tc \n"), "a  b\tc");
    assert_eq!(request_text(""), "");
    assert_eq!(request_text(" \t\r\n"), "");
    assert_eq!(request_text("x"), "x");
}

#[test]
fn bytes_that_are_no_text_become_replacement_characters() {
    assert_eq!(format_chat_message("a", b"\xff"), "[a] \u{fffd}\n");
    assert_eq!(format_chat_message("a", b"ok \xe2\x82"), "[a] ok \u{fffd}\n");
    assert_eq!(format_chat_message("a", b"\xe2\x82\xac 5"), "[a] \u{20ac} 5\n");
    assert_eq!(format_chat_message("a", b" \xc2\xa0hi\xe3\x80\x80"), "[a] hi\n");
}

#[test]
fn only_the_newline_at_the_end_is_taken_off() {
    assert_eq!(strip_newline("bob\n"), "bob");
    assert_eq!(strip_newline("bob"), "bob");
    assert_eq!(strip_newline("bob\r\n"), "bob\r");
    assert_eq!(strip_newline(" bob \n"), " bob ");
    assert_eq!(strip_newline("bob\n\n"), "bob\n");
    assert_eq!(strip_newline("\nbob"), "\nbob");
    assert_eq!(strip_newline("\n"), "");
    assert_eq!(strip_newline(""), "");
    assert_eq!(strip_newline("caf\u{e9}\n"), "caf\u{e9}");
    assert_eq!(strip_newline("\u{4e2d}\u{6587}"), "\u{4e2d}\u{6587}");
}

#[test]
fn bytes_that_are_text_are_read_as_that_text() {
    assert_eq!(read_text(b""), "");
    assert_eq!(read_text(b"hi"), "hi");
    assert_eq!(read_text(b" a\tb "), " a\tb ");
    assert_eq!(read_text("caf\u{e9} \u{20ac} \u{1f600}".as_bytes()), "caf\u{e9} \u{20ac} \u{1f600}");
    assert_eq!(read_text(b"\xc0\xaf"), "\u{fffd}\u{fffd}");
    assert_eq!(read_text(b"\xed\xa0\x80"), "\u{fffd}\u{fffd}\u{fffd}");
    assert_eq!(read_text(b"\xf4\x90\x80\x80"), "\u{fffd}\u{fffd}\u{fffd}\u{fffd}");
}

use fhe_boolean::text::{parse_state_text, parse_u32_ascii, parse_u64_ascii, parse_u8_ascii};

#[test]
fn parse_decimal_tokens() {
    assert_eq!(parse_u32_ascii(b"0"), Some(0));
    assert_eq!(parse_u32_ascii(b"42"), Some(42));
    assert_eq!(parse_u32_ascii(b"007"), Some(7));
    assert_eq!(parse_u32_ascii(b"4294967295"), Some(u32::MAX));
    assert_eq!(parse_u32_ascii(b"4294967296"), None);
    assert_eq!(parse_u32_ascii(b""), None);
    assert_eq!(parse_u32_ascii(b"1x"), None);
    assert_eq!(parse_u32_ascii(b"-1"), None);
    assert_eq!(parse_u32_ascii(b" 1"), None);
    assert_eq!(parse_u8_ascii(b"255"), Some(255));
    assert_eq!(parse_u8_ascii(b"256"), None);
    assert_eq!(parse_u8_ascii(b"1"), Some(1));
    assert_eq!(parse_u64_ascii(b"18446744073709551615"), Some(u64::MAX));
    assert_eq!(parse_u64_ascii(b"18446744073709551616"), None);
    assert_eq!(parse_u64_ascii(b"99999999999999999999999999"), None);
}

#[test]
fn parse_state_file() {
    // Two rows of three cells; each cell and each row has a trailing
    // separator, so the counts come out as written.
    let content = b"1 0 1 \n0 1 0 \n";
    let ((rows, cols), cells) = parse_state_text(content);
    assert_eq!(rows, 2);
    assert_eq!(cols, 3);
    assert_eq!(cells, vec![true, false, true, false, true, false]);
}

#[test]
fn parse_state_file_skips_non_numeric_tokens() {
    let content = b"1 x 0 \n9 256 1 \n";
    let ((rows, cols), cells) = parse_state_text(content);
    assert_eq!(rows, 2);
    assert_eq!(cols, 3);
    // `x` and `256` do not parse as bytes and are skipped; `9` parses and
    // is simply not one.
    assert_eq!(cells, vec![true, false, false, true]);
}

#[test]
fn parse_state_file_empty() {
    let ((rows, cols), cells) = parse_state_text(b"");
    assert_eq!(rows, 0);
    assert_eq!(cols, 0);
    assert!(cells.is_empty());
}

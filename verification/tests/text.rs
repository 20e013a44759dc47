use eurus::text::{
    chars_of, decimal_string, decimal_string_u64, field_bounds, find_sep, is_space_char,
    json_string_of, parse_decimal, signed_decimal_string, spells, trim_bounds,
};

fn chars(s: &str) -> Vec<char> {
    s.chars().collect()
}

#[test]
fn numbers_are_written_without_sign_or_leading_zero() {
    assert_eq!(decimal_string(0), "0");
    assert_eq!(decimal_string(7), "7");
    assert_eq!(decimal_string(10), "10");
    assert_eq!(decimal_string(1234567890), "1234567890");
    assert_eq!(decimal_string(usize::MAX), usize::MAX.to_string());
}

#[test]
fn numerals_are_read_back() {
    for n in [0usize, 1, 9, 10, 99, 100, 65535, usize::MAX] {
        let v = chars(&decimal_string(n));
        assert_eq!(parse_decimal(&v, 0, v.len()), Some(n));
    }
}

#[test]
fn only_canonical_numerals_that_fit_are_read() {
    for text in ["", "00", "01", "+1", "-1", "1 ", " 1", "1a", "0x10", "１"] {
        let v = chars(text);
        assert_eq!(parse_decimal(&v, 0, v.len()), None, "{:?}", text);
    }
    let over = chars(&format!("{}", usize::MAX as u128 + 1));
    assert_eq!(parse_decimal(&over, 0, over.len()), None);
    let long = chars("99999999999999999999999999999999");
    assert_eq!(parse_decimal(&long, 0, long.len()), None);
}

#[test]
fn a_numeral_is_read_from_the_middle_of_a_text() {
    let v = chars("ab123cd");
    assert_eq!(parse_decimal(&v, 2, 5), Some(123));
    assert_eq!(parse_decimal(&v, 2, 6), None);
    assert_eq!(parse_decimal(&v, 3, 3), None);
}

#[test]
fn the_characters_of_a_text_come_in_order() {
    assert_eq!(chars_of("a/β c"), vec!['a', '/', 'β', ' ', 'c']);
    assert_eq!(chars_of(""), Vec::<char>::new());
}

#[test]
fn whitespace_is_the_four_json_characters() {
    for c in [' ', '\t', '\n', '\r'] {
        assert!(is_space_char(c));
    }
    for c in ['a', '0', '\u{b}', '\u{c}', '\u{a0}', '"'] {
        assert!(!is_space_char(c));
    }
}

#[test]
fn trimming_finds_the_text_between_the_whitespace() {
    assert_eq!(trim_bounds(&chars("  ab c \n")), (2, 6));
    assert_eq!(trim_bounds(&chars("abc")), (0, 3));
    assert_eq!(trim_bounds(&chars("")), (0, 0));
    let (a, b) = trim_bounds(&chars(" \t\r\n"));
    assert_eq!(a, b);
}

#[test]
fn fields_are_what_stands_between_separators() {
    let v = chars("rooms/abc/rt/write");
    assert_eq!(field_bounds(&v, '/', 0), Some((0, 5)));
    assert_eq!(field_bounds(&v, '/', 1), Some((6, 9)));
    assert_eq!(field_bounds(&v, '/', 2), Some((10, 12)));
    assert_eq!(field_bounds(&v, '/', 3), Some((13, 18)));
    assert_eq!(field_bounds(&v, '/', 4), None);
    let w = chars("a//");
    assert_eq!(field_bounds(&w, '/', 1), Some((2, 2)));
    assert_eq!(field_bounds(&w, '/', 2), Some((3, 3)));
    assert_eq!(field_bounds(&w, '/', 3), None);
    assert_eq!(field_bounds(&chars(""), '/', 0), Some((0, 0)));
    assert_eq!(field_bounds(&chars(""), '/', 1), None);
}

#[test]
fn the_first_separator_is_found_or_the_end() {
    let v = chars("ab/cd/e");
    assert_eq!(find_sep(&v, '/', 0), 2);
    assert_eq!(find_sep(&v, '/', 2), 2);
    assert_eq!(find_sep(&v, '/', 3), 5);
    assert_eq!(find_sep(&v, '/', 6), 7);
    assert_eq!(find_sep(&v, '/', 7), 7);
}

#[test]
fn a_stretch_spells_a_text_or_does_not() {
    let v = chars("xx\"JoinRoom\"yy");
    assert!(spells(&v, 2, 12, "\"JoinRoom\""));
    assert!(!spells(&v, 2, 11, "\"JoinRoom\""));
    assert!(!spells(&v, 1, 11, "\"JoinRoom\""));
    assert!(spells(&v, 3, 3, ""));
}

#[test]
fn signed_numbers_are_written_with_a_minus_sign_when_negative() {
    assert_eq!(signed_decimal_string(0), "0");
    assert_eq!(signed_decimal_string(42), "42");
    assert_eq!(signed_decimal_string(-1), "-1");
    assert_eq!(signed_decimal_string(-120), "-120");
    assert_eq!(signed_decimal_string(i64::MAX), "9223372036854775807");
    assert_eq!(signed_decimal_string(i64::MIN), "-9223372036854775808");
    assert_eq!(decimal_string_u64(u64::MAX), "18446744073709551615");
}

#[test]
fn a_json_string_escapes_what_json_asks_to_escape() {
    assert_eq!(json_string_of(""), "\"\"");
    assert_eq!(json_string_of("abc"), "\"abc\"");
    assert_eq!(json_string_of("a\"b"), "\"a\\\"b\"");
    assert_eq!(json_string_of("a\\b"), "\"a\\\\b\"");
    assert_eq!(json_string_of("\n\r\t\u{8}\u{c}"), "\"\\n\\r\\t\\b\\f\"");
    assert_eq!(json_string_of("\u{0}\u{1}\u{1f}"), "\"\\u0000\\u0001\\u001f\"");
    assert_eq!(json_string_of("\u{7f}é/"), "\"\u{7f}é/\"");
}

#[test]
fn a_json_string_is_what_a_json_writer_writes() {
    let mut all = String::new();
    for code in 0u32..0x250 {
        if let Some(c) = char::from_u32(code) {
            all.push(c);
            let one = c.to_string();
            assert_eq!(
                json_string_of(&one),
                serde_json::to_string(&serde_json::Value::String(one.clone())).unwrap()
            );
        }
    }
    all.push_str("\u{2028}\u{2029}\u{1f600}");
    assert_eq!(
        json_string_of(&all),
        serde_json::to_string(&serde_json::Value::String(all.clone())).unwrap()
    );
}

use nepix::text::{
    chars_of, concat_str, decimal_string, is_space_char, owned, parse_u32_chars, same_text,
    signed_decimal_string, split_chars, string_of, strip_leading_chars, trim_chars,
    zero_padded_chars,
};

fn cs(s: &str) -> Vec<char> {
    s.chars().collect()
}

#[test]
fn decimal_of_numbers() {
    assert_eq!(decimal_string(0), "0");
    assert_eq!(decimal_string(7), "7");
    assert_eq!(decimal_string(10), "10");
    assert_eq!(decimal_string(1234567890), "1234567890");
    assert_eq!(decimal_string(u64::MAX), "18446744073709551615");
}

#[test]
fn signed_decimal_of_numbers() {
    assert_eq!(signed_decimal_string(0), "0");
    assert_eq!(signed_decimal_string(42), "42");
    assert_eq!(signed_decimal_string(-1), "-1");
    assert_eq!(signed_decimal_string(i32::MIN), "-2147483648");
}

#[test]
fn zero_padding() {
    assert_eq!(zero_padded_chars(5, 2), cs("05"));
    assert_eq!(zero_padded_chars(45, 3), cs("045"));
    assert_eq!(zero_padded_chars(123, 2), cs("123"));
    assert_eq!(zero_padded_chars(0, 3), cs("000"));
}

#[test]
fn parsing_u32_like_str_parse() {
    for s in ["0", "21", "007", "+5", "4294967295", "", "+", "-1", "1a", "4294967296", " 1", "99999999999"] {
        assert_eq!(parse_u32_chars(&cs(s)), s.parse::<u32>().ok(), "input {s:?}");
    }
}

#[test]
fn trimming_like_str_trim() {
    for s in ["  a b  ", "\t-Xmx2G\n", "", "   ", "x", "\u{3000}wide\u{a0}", "a\u{200b}"] {
        assert_eq!(trim_chars(&cs(s)), cs(s.trim()), "input {s:?}");
    }
}

#[test]
fn stripping_leading_dashes() {
    assert_eq!(strip_leading_chars(&cs("--Xmx"), '-'), cs("Xmx"));
    assert_eq!(strip_leading_chars(&cs("Xmx-"), '-'), cs("Xmx-"));
    assert_eq!(strip_leading_chars(&cs("---"), '-'), cs(""));
}

#[test]
fn splitting_like_str_split() {
    for s in ["a,b,,c", "", ",", "abc", ",x,"] {
        let got: Vec<String> = split_chars(&cs(s), ',').iter().map(|p| p.iter().collect()).collect();
        let want: Vec<String> = s.split(',').map(String::from).collect();
        assert_eq!(got, want, "input {s:?}");
    }
}

#[test]
fn string_building() {
    assert_eq!(concat_str("nepix-", "1.21"), "nepix-1.21");
    assert_eq!(owned("héllo"), "héllo");
    assert_eq!(string_of(&cs("añb")), "añb");
    assert_eq!(chars_of("añb"), vec!['a', 'ñ', 'b']);
    assert!(same_text("Fabric", "Fabric"));
    assert!(!same_text("Fabric", "fabric"));
    assert!(!same_text("Fab", "Fabric"));
}

#[test]
fn whitespace_matches_char_is_whitespace() {
    for c in ['\t', '\n', ' ', '\u{85}', '\u{a0}', '\u{2009}', '\u{3000}', 'a', '\u{200b}', '-'] {
        assert_eq!(is_space_char(c), c.is_whitespace(), "char {c:?}");
    }
}

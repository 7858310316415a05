use breakrs::text::{
    all_digits_in, append_chars, chars_of, copy_range, is_ascii_digit, is_whitespace, join_with_blank, parse_decimal, push_decimal, range_is, scan_back_spaces,
    scan_run, split_words, string_of, trim, Run,
};

fn chars(s: &str) -> Vec<char> {
    s.chars().collect()
}

fn text(v: &[char]) -> String {
    v.iter().collect()
}

#[test]
fn character_classes_agree_with_the_standard_ones() {
    let mut spaces = 0;
    for code in 0..=0x10ffffu32 {
        if let Some(c) = char::from_u32(code) {
            assert_eq!(is_whitespace(c), c.is_whitespace(), "{:x}", code);
            assert_eq!(is_ascii_digit(c), c.is_ascii_digit(), "{:x}", code);
            if is_whitespace(c) {
                spaces += 1;
            }
        }
    }
    assert_eq!(spaces, 25);
}

#[test]
fn chars_and_strings_convert_both_ways() {
    let v = chars_of("héllo wörld ☕");
    assert_eq!(v, chars("héllo wörld ☕"));
    assert_eq!(string_of(&v, 0, v.len()), "héllo wörld ☕");
    assert_eq!(string_of(&v, 6, 11), "wörld");
    assert_eq!(string_of(&v, 3, 3), "");
    assert_eq!(copy_range(&v, 0, 5), chars("héllo"));
    assert_eq!(chars_of(""), Vec::<char>::new());
}

#[test]
fn range_is_compares_with_a_literal() {
    let v = chars("twenty-one");
    assert!(range_is(&v, 0, 6, "twenty"));
    assert!(range_is(&v, 7, 10, "one"));
    assert!(range_is(&v, 0, 10, "twenty-one"));
    assert!(!range_is(&v, 0, 6, "twent"));
    assert!(!range_is(&v, 0, 5, "twenty"));
    assert!(!range_is(&v, 0, 6, "twenti"));
    assert!(range_is(&v, 4, 4, ""));
    assert!(!range_is(&v, 4, 5, ""));
}

#[test]
fn runs_end_where_the_kind_ends() {
    let v = chars("  12ab:3 ");
    assert_eq!(scan_run(&v, 0, Run::Spaces), 2);
    assert_eq!(scan_run(&v, 2, Run::Spaces), 2);
    assert_eq!(scan_run(&v, 2, Run::Digits), 4);
    assert_eq!(scan_run(&v, 2, Run::Word), 8);
    assert_eq!(scan_run(&v, 4, Run::Text), 7);
    assert_eq!(scan_run(&v, 2, Run::Field), 6);
    assert_eq!(scan_run(&v, 7, Run::Field), 9);
    assert_eq!(scan_run(&v, 9, Run::Word), 9);
    assert_eq!(scan_back_spaces(&v, 9), 8);
    assert_eq!(scan_back_spaces(&v, 8), 8);
    assert_eq!(scan_back_spaces(&v, 2), 0);
}

#[test]
fn trim_agrees_with_the_standard_trim() {
    for s in [
        "",
        " ",
        "a",
        "  a b  ",
        "\t\n x \r\n",
        "\u{a0}non breaking\u{3000}",
        "no space",
        " \u{2003} ",
        "x ",
        " x",
    ] {
        assert_eq!(text(&trim(&chars(s))), s.trim(), "{:?}", s);
    }
}

#[test]
fn words_agree_with_the_standard_split() {
    for s in [
        "",
        "   ",
        "one",
        " one  two\tthree\n",
        "5m  get   coffee",
        "a\u{a0}b\u{2028}c",
        "1:30 5m reminder",
        "trailing ",
        " leading",
    ] {
        let ours: Vec<String> = split_words(&chars(s)).iter().map(|w| text(w)).collect();
        let theirs: Vec<String> = s.split_whitespace().map(|w| w.to_string()).collect();
        assert_eq!(ours, theirs, "{:?}", s);
    }
}

#[test]
fn join_puts_a_blank_between_parts() {
    let parts = vec![chars("take"), chars("a"), chars("break")];
    assert_eq!(text(&join_with_blank(&parts)), "take a break");
    assert_eq!(text(&join_with_blank(&vec![chars("one")])), "one");
    assert_eq!(text(&join_with_blank(&Vec::new())), "");
    assert_eq!(text(&join_with_blank(&vec![chars(""), chars("")])), " ");
    let mut out = chars("ab");
    append_chars(&mut out, &chars("cd"));
    assert_eq!(text(&out), "abcd");
}

#[test]
fn decimal_agrees_with_the_standard_parse() {
    for s in [
        "0",
        "7",
        "42",
        "007",
        "+5",
        "+",
        "-",
        "-5",
        "-0",
        "",
        " 5",
        "5 ",
        "5a",
        "a5",
        "++5",
        "+-5",
        "5+",
        "1_000",
        "١٢",
        "18446744073709551615",
        "18446744073709551616",
        "018446744073709551615",
        "99999999999999999999",
        "99999999999999999999x",
        "184467440737095516150",
        "+18446744073709551615",
    ] {
        let v = chars(s);
        assert_eq!(parse_decimal(&v, 0, v.len()), s.parse::<u64>().ok(), "{:?}", s);
    }
    let v = chars("ab123cd");
    assert_eq!(parse_decimal(&v, 2, 5), Some(123));
    assert_eq!(parse_decimal(&v, 2, 2), None);
    assert!(all_digits_in(&v, 2, 5));
    assert!(!all_digits_in(&v, 1, 5));
    assert!(all_digits_in(&v, 3, 3));
}

#[test]
fn decimal_text_agrees_with_the_standard_rendering() {
    for n in [
        0u64,
        1,
        9,
        10,
        11,
        99,
        100,
        101,
        123,
        1000,
        65535,
        4_294_967_296,
        9_999_999_999,
        u64::MAX - 1,
        u64::MAX,
    ] {
        let mut out = chars("n=");
        push_decimal(&mut out, n);
        assert_eq!(text(&out), format!("n={}", n));
    }
}

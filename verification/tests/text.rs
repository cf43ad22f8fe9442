use marubatsu::text::is_whitespace;
use marubatsu::text::parse_number;
use marubatsu::text::split_words;
use marubatsu::text::to_chars;

fn chars(s: &str) -> Vec<char> {
    s.chars().collect()
}

fn words_of(s: &str) -> Vec<String> {
    split_words(&chars(s)).iter().map(|w| w.iter().collect()).collect()
}

const LINES: [&str; 14] = [
    "",
    " ",
    "a",
    "next 1 2",
    "  next   1\t2  ",
    "\n\n",
    "1\u{3000}2",
    "a\u{a0}b\u{85}c",
    "x\u{2003}y\u{205f}z",
    "\u{200b}",
    "one two  three   four",
    "trailing ",
    " leading",
    "日本語 の 文",
];

#[test]
fn to_chars_keeps_every_character() {
    for line in LINES {
        assert_eq!(to_chars(line), chars(line));
    }
}

#[test]
fn white_space_is_what_std_calls_white_space() {
    for code in 0..=0x10ffff_u32 {
        if let Some(c) = char::from_u32(code) {
            assert_eq!(is_whitespace(c), c.is_whitespace(), "at U+{:04X}", code);
        }
    }
}

#[test]
fn white_space_by_code_point() {
    for c in ['\t', '\n', '\u{b}', '\u{c}', '\r', ' ', '\u{85}', '\u{a0}', '\u{1680}', '\u{2000}',
        '\u{200a}', '\u{2028}', '\u{2029}', '\u{202f}', '\u{205f}', '\u{3000}']
    {
        assert!(is_whitespace(c));
    }
    for c in ['\u{8}', '\u{e}', 'a', '0', '\u{1f}', '\u{200b}', '\u{180e}', '\u{feff}', '\u{2060}'] {
        assert!(!is_whitespace(c));
    }
}

#[test]
fn words_are_split_at_white_space() {
    assert_eq!(words_of(""), Vec::<String>::new());
    assert_eq!(words_of("   \t "), Vec::<String>::new());
    assert_eq!(words_of("next 1 2"), vec!["next", "1", "2"]);
    assert_eq!(words_of("  next   1\t2  "), vec!["next", "1", "2"]);
    assert_eq!(words_of("1\u{3000}2"), vec!["1", "2"]);
    assert_eq!(words_of("a\u{200b}b"), vec!["a\u{200b}b"]);
}

#[test]
fn words_are_what_std_splits() {
    for line in LINES {
        let expected: Vec<String> = line.split_whitespace().map(String::from).collect();
        assert_eq!(words_of(line), expected);
    }
}

#[test]
fn numbers_are_read_in_base_ten() {
    assert_eq!(parse_number(&chars("0")), Some(0));
    assert_eq!(parse_number(&chars("2")), Some(2));
    assert_eq!(parse_number(&chars("10")), Some(10));
    assert_eq!(parse_number(&chars("4096")), Some(4096));
    assert_eq!(parse_number(&chars("007")), Some(7));
    assert_eq!(parse_number(&chars("+1")), Some(1));
    assert_eq!(parse_number(&chars("+0012")), Some(12));
    assert_eq!(parse_number(&chars("0000000000000000000000000000000002")), Some(2));
}

#[test]
fn what_is_no_number() {
    for s in ["", "+", "-", "-1", "++1", "+-1", "1+", "1 ", " 1", "a", "1a", "0x10", "1.0", "１", "٣", "1_000"] {
        assert_eq!(parse_number(&chars(s)), None, "{:?}", s);
    }
}

#[test]
fn numbers_stop_at_the_largest_usize() {
    let max = usize::MAX.to_string();
    assert_eq!(parse_number(&chars(&max)), Some(usize::MAX));
    assert_eq!(parse_number(&chars(&format!("+{}", max))), Some(usize::MAX));
    assert_eq!(parse_number(&chars(&format!("000{}", max))), Some(usize::MAX));
    let mut above = chars(&max);
    let last = above.len() - 1;
    above[last] = '6';
    assert_eq!(parse_number(&above), None);
    assert_eq!(parse_number(&chars(&format!("{}0", max))), None);
    assert_eq!(parse_number(&chars("99999999999999999999999999999999999999999")), None);
    assert_eq!(parse_number(&chars("99999999999999999999999999999999999999999x")), None);
}

#[test]
fn numbers_are_what_std_parses() {
    let max = usize::MAX.to_string();
    let mut samples: Vec<String> = vec![
        "", "+", "-", "0", "1", "2", "3", "+2", "-2", "02", "2a", "a2", "++2", "18446744073709551615",
        "18446744073709551616", "4294967295", "4294967296", "00000000000000000000000000001", "１",
    ]
    .into_iter()
    .map(String::from)
    .collect();
    samples.push(max.clone());
    samples.push(format!("{}1", max));
    for n in 0..300_usize {
        samples.push(n.to_string());
        samples.push(format!("+{}", n));
        samples.push(format!("{}x", n));
    }
    for s in samples {
        assert_eq!(parse_number(&chars(&s)), s.parse::<usize>().ok(), "{:?}", s);
    }
}

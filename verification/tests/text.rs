use ores_otel_sidecar::text::{
    append_text, byte_len, chars_of, chars_spell, contains_char, decimal_text, find_char,
    has_part, has_prefix, has_suffix, is_plain_name, lowered, padded_decimal_text, parse_unsigned,
    same_text, split_at_char, split_word, string_of, trimmed, whitespace, without_line_end,
};

const SAMPLES: [&str; 14] = [
    "",
    " ",
    "a",
    " a b ",
    "\u{a0}\u{3000}x\u{2003}",
    "\r\n",
    "line\r\r\n",
    "GET /healthz HTTP/1.1",
    "a,,b,",
    ",",
    "..",
    "h\u{e9}llo \u{1f600}",
    "\u{200b}zero\u{feff}",
    "Content-LENGTH: 7",
];

#[test]
fn whitespace_is_that_of_std() {
    for code in 0..=0x10ffff_u32 {
        if let Some(c) = char::from_u32(code) {
            assert_eq!(whitespace(c), c.is_whitespace(), "{code:x}");
        }
    }
}

#[test]
fn primitives_agree_with_std() {
    for sample in SAMPLES {
        let chars = chars_of(sample);
        assert_eq!(string_of(&chars), sample);
        assert_eq!(byte_len(sample), sample.len());
        assert_eq!(string_of(trimmed(&chars)), sample.trim());
        assert_eq!(
            string_of(without_line_end(&chars)),
            sample.trim_end_matches(['\r', '\n'])
        );
        assert_eq!(
            split_at_char(&chars, ',')
                .into_iter()
                .map(string_of)
                .collect::<Vec<_>>(),
            sample.split(',').collect::<Vec<_>>()
        );
        assert_eq!(string_of(&lowered(&chars)), sample.to_ascii_lowercase());
        let (first, rest) = split_word(&chars);
        let (second, _) = split_word(rest);
        let mut words = sample.split_whitespace();
        assert_eq!(string_of(first), words.next().unwrap_or_default());
        assert_eq!(string_of(second), words.next().unwrap_or_default());
        for other in SAMPLES {
            assert_eq!(same_text(sample, other), sample == other);
            assert_eq!(chars_spell(&chars, other), sample == other);
            assert_eq!(has_part(&chars, other), sample.contains(other));
            assert_eq!(has_prefix(&chars, other), sample.starts_with(other));
            assert_eq!(has_suffix(&chars, other), sample.ends_with(other));
            assert_eq!(
                append_text(sample.to_owned(), other),
                format!("{sample}{other}")
            );
        }
        for c in ['a', ' ', '\u{e9}'] {
            assert_eq!(contains_char(&chars, c), sample.contains(c));
            assert_eq!(
                find_char(&chars, c),
                sample
                    .chars()
                    .position(|other| other == c)
                    .unwrap_or(chars.len())
            );
        }
    }
}

#[test]
fn numbers_agree_with_std() {
    for n in [0, 7, 10, 99, 100, 12_345, u64::MAX - 1, u64::MAX] {
        assert_eq!(decimal_text(n), n.to_string());
        assert_eq!(padded_decimal_text(n, 4), format!("{n:04}"));
    }
    for text in [
        "", "+", "0", "+0", "-0", "00012", "18446744073709551615", "18446744073709551616", "1 ",
        "99999999999999999999999", "\u{0661}", "1_0",
    ] {
        assert_eq!(
            parse_unsigned(&chars_of(text), u64::MAX),
            text.parse::<u64>().ok(),
            "{text}"
        );
        assert_eq!(
            parse_unsigned(&chars_of(text), u32::MAX as u64),
            text.parse::<u32>().ok().map(u64::from),
            "{text}"
        );
    }
}

#[test]
fn names_are_plain() {
    assert!(is_plain_name("A-z_0.9", 7));
    assert!(!is_plain_name("A-z_0.9", 6));
    assert!(!is_plain_name("", 6));
    assert!(!is_plain_name("a:b", 6));
}

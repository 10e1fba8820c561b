use alpine::text::{
    chars_of, join, lines, same_text, strip_prefix, to_decimal, trim, trim_trailing_slashes,
    white_space,
};

const SAMPLES: [&str; 16] = [
    "",
    "a",
    "\n",
    "\r\n",
    "a\n",
    "a\r\n",
    "a\nb",
    "a\r\nb\r\n",
    "\n\na",
    "a\rb\n",
    "last\r",
    " padded \t",
    "\u{a0}wide\u{3000}",
    "event: ping",
    "päivää\nöö",
    "https://host///",
];

#[test]
fn lines_are_those_of_std() {
    for s in SAMPLES {
        assert_eq!(lines(s), s.lines().collect::<Vec<_>>(), "{s:?}");
    }
}

#[test]
fn trimmed_as_std_trims() {
    for s in SAMPLES {
        assert_eq!(trim(s), s.trim(), "{s:?}");
    }
}

#[test]
fn white_space_as_std_has_it() {
    for n in 0..=0x10ffffu32 {
        if let Some(c) = char::from_u32(n) {
            assert_eq!(white_space(c), c.is_whitespace(), "{n:x}");
        }
    }
}

#[test]
fn prefixes_as_std_strips_them() {
    for s in SAMPLES {
        for prefix in ["", "a", "event:", "ä", "päivää\n", "longer than any of the samples"] {
            assert_eq!(strip_prefix(s, prefix), s.strip_prefix(prefix), "{s:?}");
        }
    }
}

#[test]
fn trailing_slashes_are_removed() {
    assert_eq!(trim_trailing_slashes("http://host"), "http://host");
    assert_eq!(trim_trailing_slashes("http://host/"), "http://host");
    assert_eq!(trim_trailing_slashes("http://host///"), "http://host");
    assert_eq!(trim_trailing_slashes("///"), "");
    let once = trim_trailing_slashes("a//b//");
    assert_eq!(once, "a//b");
    assert_eq!(trim_trailing_slashes(&once), once);
}

#[test]
fn same_text_compares_characters() {
    for a in SAMPLES {
        for b in SAMPLES {
            assert_eq!(same_text(a, b), a == b);
        }
    }
    assert!(!same_text("ab", "ac"));
}

#[test]
fn chars_of_a_string() {
    assert_eq!(chars_of("pä"), vec!['p', 'ä']);
}

#[test]
fn joined_with_a_separator() {
    assert_eq!(join(&vec![], "\n"), "");
    assert_eq!(join(&vec!["a".to_string()], "\n"), "a");
    assert_eq!(join(&vec!["a".to_string(), "".to_string(), "b".to_string()], "--"), "a----b");
}

#[test]
fn decimal_numerals() {
    for n in [0u64, 1, 9, 10, 42, 429, 4096, 1_000_000, u64::MAX] {
        assert_eq!(to_decimal(n), n.to_string());
    }
}

#[test]
fn a_line_then_the_lines_of_the_rest() {
    assert_eq!(lines("first\nb\nc"), vec!["first", "b", "c"]);
}

use devo_server::text::{
    contains, decimal_text, ends_with, is_blank, is_white_space, join, lines_of, parse_unsigned,
    replace_all, replace_char, split_once, starts_with, strip_prefix, strip_suffix,
    take_first_line, to_ascii_lowercase, trim, trim_end_char, trim_start,
};

const SAMPLES: [&str; 12] = [
    "",
    " ",
    "a",
    "aa",
    "aaa",
    " a b\t",
    "\u{a0}x\u{2003}",
    "one\ntwo\r\nthree\n",
    "\r\n\n",
    "a/b//",
    "\u{1f600}aba\u{1f600}",
    "ABC\u{c4}",
];

#[test]
fn white_space_is_that_of_characters() {
    for c in '\0'..=char::MAX {
        assert_eq!(is_white_space(c), c.is_whitespace());
    }
}

#[test]
fn texts_are_handled_as_usual() {
    for s in SAMPLES {
        assert_eq!(trim(s), s.trim());
        assert_eq!(trim_start(s), s.trim_start());
        assert_eq!(is_blank(s), s.trim().is_empty());
        assert_eq!(to_ascii_lowercase(s), s.to_ascii_lowercase());
        assert_eq!(replace_char(s, 'a', '/'), s.replace('a', "/"));
        assert_eq!(trim_end_char(s, '/'), s.trim_end_matches('/'));
        assert_eq!(lines_of(s), s.lines().map(str::to_owned).collect::<Vec<_>>());
        assert_eq!(
            split_once(s, 'b'),
            s.split_once('b').map(|(a, b)| (a.to_owned(), b.to_owned()))
        );
        assert_eq!(take_first_line(s), s.lines().next().unwrap_or(""));
        for t in SAMPLES {
            assert_eq!(contains(s, t), s.contains(t));
            assert_eq!(starts_with(s, t), s.starts_with(t));
            assert_eq!(ends_with(s, t), s.ends_with(t));
            assert_eq!(strip_prefix(s, t), s.strip_prefix(t).map(str::to_owned));
            assert_eq!(strip_suffix(s, t), s.strip_suffix(t).map(str::to_owned));
            if !t.is_empty() {
                assert_eq!(replace_all(s, t, "<->"), s.replace(t, "<->"));
            }
        }
    }
    assert_eq!(join(&vec!["a".to_string(), String::new(), "b".to_string()], ", "), "a, , b");
    assert_eq!(join(&vec![], ", "), "");
}

#[test]
fn numbers_are_read_as_written() {
    for n in [0u64, 1, 9, 10, 101, 65_536, u64::MAX] {
        assert_eq!(decimal_text(n), n.to_string());
        assert_eq!(parse_unsigned(&decimal_text(n)), Some(n));
    }
    for s in ["", "+", "-", "-0", "+7", "007", "1_0", " 1", "18446744073709551616", "\u{663}"] {
        assert_eq!(parse_unsigned(s), s.parse::<u64>().ok());
    }
}

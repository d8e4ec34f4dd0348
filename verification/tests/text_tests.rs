use gen_doc::text::{chars_of, split_lines, strip_leading_str, string_of, trim_str, white_space};

#[test]
fn trim_agrees_with_std() {
    for s in ["", "  ", " a ", "\t\r\n x y \u{a0}", "\u{2000}z\u{205f}", "\u{200b}a\u{200b}", "é ", "\u{85}q\u{3000}"] {
        assert_eq!(trim_str(s), s.trim());
    }
}

#[test]
fn trim_twice_is_trim_once() {
    for s in ["  a  b  ", "\u{2028}x\u{2029}", "", "\t"] {
        let once = trim_str(s);
        assert_eq!(trim_str(&once), once);
    }
}

#[test]
fn white_space_agrees_with_std() {
    for c in ['\t', '\n', '\u{b}', '\u{c}', '\r', ' ', '\u{85}', '\u{a0}', '\u{1680}', '\u{2000}',
        '\u{200a}', '\u{2028}', '\u{2029}', '\u{202f}', '\u{205f}', '\u{3000}', 'a', '\u{200b}',
        '\u{180e}', '\u{1f}', '\u{feff}', 'é'] {
        assert_eq!(white_space(c), c.is_whitespace(), "{:?}", c);
    }
}

#[test]
fn strip_leading_agrees_with_std() {
    for s in ["**x*", "x", "", "***", " *"] {
        assert_eq!(strip_leading_str(s, '*'), s.trim_start_matches('*'));
    }
}

#[test]
fn lines_agree_with_std() {
    for s in ["", "a", "a\n", "a\n\n", "\r\n", "a\r\r\nb", "a\rb", "x\n\ry", "ligne é\r\nfin"] {
        let expected: Vec<&str> = s.lines().collect();
        assert_eq!(split_lines(s), expected);
    }
}

#[test]
fn lines_hold_no_line_feed() {
    for l in split_lines("a\nb\r\n\nc\r") {
        assert!(!l.contains('\n'));
    }
}

#[test]
fn chars_and_substrings() {
    let v = chars_of("aé\u{1f600}");
    assert_eq!(v, vec!['a', 'é', '\u{1f600}']);
    assert_eq!(string_of(&v, 1, 3), "é\u{1f600}");
    assert_eq!(string_of(&v, 2, 2), "");
}

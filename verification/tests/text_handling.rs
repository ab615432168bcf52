use bridge_checker::text::{
    chars_of, count_leading_spaces, count_trailing_spaces, count_word, field_slice, find_char,
    is_blank_slice, is_space_char, split_first, split_slice, string_of, strip_cr_slice,
    trim_slice,
};

fn chars(s: &str) -> Vec<char> {
    s.chars().collect()
}

fn text(s: &[char]) -> String {
    s.iter().collect()
}

#[test]
fn whitespace_is_the_unicode_white_space_set() {
    let spaces = [
        '\u{9}', '\u{a}', '\u{b}', '\u{c}', '\u{d}', ' ', '\u{85}', '\u{a0}', '\u{1680}',
        '\u{2000}', '\u{2005}', '\u{200a}', '\u{2028}', '\u{2029}', '\u{202f}', '\u{205f}',
        '\u{3000}',
    ];
    for c in spaces {
        assert!(is_space_char(c), "{:?}", c);
    }
    for c in ['a', '0', ':', '.', '\u{0}', '\u{8}', '\u{e}', '\u{1f}', '\u{200b}', '\u{feff}'] {
        assert!(!is_space_char(c), "{:?}", c);
    }
}

#[test]
fn whitespace_agrees_with_std_on_every_char() {
    let mut n: u32 = 0;
    while n <= 0x10ffff {
        if let Some(c) = char::from_u32(n) {
            assert_eq!(is_space_char(c), c.is_whitespace(), "U+{:04X}", n);
        }
        n += 1;
    }
}

#[test]
fn chars_of_keeps_every_char_in_order() {
    assert_eq!(chars_of(""), Vec::<char>::new());
    assert_eq!(chars_of("a:b"), vec!['a', ':', 'b']);
    assert_eq!(chars_of("né\u{3000}x"), vec!['n', 'é', '\u{3000}', 'x']);
}

#[test]
fn string_of_is_the_inverse_of_chars_of() {
    for s in ["", "obfs4 1.2.3.4:443", "tab\there", "über\u{a0}"] {
        assert_eq!(string_of(&chars_of(s)), s);
    }
}

#[test]
fn find_char_gives_first_occurrence_or_length() {
    assert_eq!(find_char(&chars("1.2.3.4:80"), ':'), 7);
    assert_eq!(find_char(&chars("a:b:c"), ':'), 1);
    assert_eq!(find_char(&chars(":"), ':'), 0);
    assert_eq!(find_char(&chars("abc"), ':'), 3);
    assert_eq!(find_char(&chars(""), ':'), 0);
}

#[test]
fn leading_and_trailing_space_counts() {
    assert_eq!(count_leading_spaces(&chars("  \tab ")), 3);
    assert_eq!(count_leading_spaces(&chars("ab")), 0);
    assert_eq!(count_leading_spaces(&chars("   ")), 3);
    assert_eq!(count_leading_spaces(&chars("")), 0);
    assert_eq!(count_trailing_spaces(&chars(" ab \r\n")), 3);
    assert_eq!(count_trailing_spaces(&chars("ab")), 0);
    assert_eq!(count_trailing_spaces(&chars("  ")), 2);
    assert_eq!(count_trailing_spaces(&chars("")), 0);
}

#[test]
fn word_count_stops_at_first_space() {
    assert_eq!(count_word(&chars("obfs4 1.2.3.4:1")), 5);
    assert_eq!(count_word(&chars("word")), 4);
    assert_eq!(count_word(&chars(" word")), 0);
    assert_eq!(count_word(&chars("")), 0);
}

#[test]
fn blank_means_nothing_but_whitespace() {
    assert!(is_blank_slice(&chars("")));
    assert!(is_blank_slice(&chars(" \t\r\u{a0}")));
    assert!(!is_blank_slice(&chars("  x ")));
}

#[test]
fn trim_agrees_with_std() {
    for s in [
        "", " ", "a", " a", "a ", "  a b  ", "\t\r\n1.2.3.4:80\r\n", "\u{a0}x\u{3000}",
        " \n \n ", "a\n\n",
    ] {
        assert_eq!(text(trim_slice(&chars(s))), s.trim(), "{:?}", s);
    }
}

#[test]
fn strip_cr_takes_one_carriage_return_off_the_end() {
    assert_eq!(text(strip_cr_slice(&chars("abc\r"))), "abc");
    assert_eq!(text(strip_cr_slice(&chars("abc\r\r"))), "abc\r");
    assert_eq!(text(strip_cr_slice(&chars("abc"))), "abc");
    assert_eq!(text(strip_cr_slice(&chars("\rabc"))), "\rabc");
    assert_eq!(text(strip_cr_slice(&chars(""))), "");
}

#[test]
fn fields_are_separated_by_runs_of_whitespace() {
    let line = chars("  obfs4 \t 1.2.3.4:443   FINGERPRINT cert=abc ");
    assert_eq!(text(field_slice(&line, 0)), "obfs4");
    assert_eq!(text(field_slice(&line, 1)), "1.2.3.4:443");
    assert_eq!(text(field_slice(&line, 2)), "FINGERPRINT");
    assert_eq!(text(field_slice(&line, 3)), "cert=abc");
    assert_eq!(text(field_slice(&line, 4)), "");
    assert_eq!(text(field_slice(&line, 100)), "");
}

#[test]
fn fields_agree_with_split_whitespace() {
    for s in ["", "   ", "a", "a b", " a  b\tc\u{a0}d ", "x\ny"] {
        let v = chars(s);
        let expected: Vec<&str> = s.split_whitespace().collect();
        for i in 0..expected.len() {
            assert_eq!(text(field_slice(&v, i)), expected[i], "{:?} field {}", s, i);
        }
        assert_eq!(text(field_slice(&v, expected.len())), "", "{:?}", s);
    }
}

#[test]
fn split_first_cuts_at_the_first_separator() {
    let v = chars("1.2.3.4:80:90");
    let (head, tail) = split_first(&v, ':');
    assert_eq!(text(head), "1.2.3.4");
    assert_eq!(tail.map(text), Some("80:90".to_string()));

    let v = chars("no separator");
    let (head, tail) = split_first(&v, ':');
    assert_eq!(text(head), "no separator");
    assert!(tail.is_none());

    let v = chars("end:");
    let (head, tail) = split_first(&v, ':');
    assert_eq!(text(head), "end");
    assert_eq!(tail.map(text), Some(String::new()));
}

#[test]
fn split_agrees_with_std() {
    for s in ["", ".", "a", "1.2.3.4", "1..2", ".1.", "...", "a.b.c.d.e"] {
        let v = chars(s);
        let parts: Vec<String> = split_slice(&v, '.').into_iter().map(text).collect();
        let expected: Vec<String> = s.split('.').map(|p| p.to_string()).collect();
        assert_eq!(parts, expected, "{:?}", s);
    }
}

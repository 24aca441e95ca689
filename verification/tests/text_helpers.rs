use notification_worker::text::{chars_of, is_blank, join};

#[test]
fn blanks_are_the_characters_that_std_calls_whitespace() {
    let mut code: u32 = 0;
    while code <= 0x10FFFF {
        if let Some(c) = char::from_u32(code) {
            assert_eq!(is_blank(c), c.is_whitespace(), "U+{:04X}", code);
        }
        code += 1;
    }
}

#[test]
fn some_blanks_and_some_that_are_none() {
    for c in [' ', '\t', '\n', '\r', '\u{b}', '\u{c}', '\u{85}', '\u{a0}', '\u{3000}'] {
        assert!(is_blank(c));
    }
    for c in ['a', '0', ',', '\u{0}', '\u{1c}', '\u{200b}', '\u{180e}', '\u{feff}'] {
        assert!(!is_blank(c));
    }
}

#[test]
fn chars_of_a_text_are_its_characters() {
    assert_eq!(chars_of(""), Vec::<char>::new());
    assert_eq!(chars_of("abc"), vec!['a', 'b', 'c']);
    assert_eq!(chars_of("né ＄"), vec!['n', 'é', ' ', '＄']);
}

#[test]
fn join_puts_the_separator_between_the_parts() {
    let parts = |items: &[&str]| items.iter().map(|s| s.to_string()).collect::<Vec<String>>();
    assert_eq!(join(&parts(&[]), ", "), "");
    assert_eq!(join(&parts(&["a"]), ", "), "a");
    assert_eq!(join(&parts(&["a", "b"]), ", "), "a, b");
    assert_eq!(join(&parts(&["a", "b", "c"]), " AND "), "a AND b AND c");
    assert_eq!(join(&parts(&["", ""]), ","), ",");
    assert_eq!(join(&parts(&["", "x", ""]), "-"), "-x-");
    assert_eq!(join(&parts(&["a", "b"]), ""), "ab");
}

#[test]
fn join_agrees_with_std() {
    let samples: [&[&str]; 5] = [&[], &[""], &["x"], &["x", "", "y"], &["a", "b", "c", "d"]];
    for sample in samples {
        let parts: Vec<String> = sample.iter().map(|s| s.to_string()).collect();
        for separator in ["", ",", ", ", " AND "] {
            assert_eq!(join(&parts, separator), parts.join(separator));
        }
    }
}

use ferris_bot::text::{chars_of, less, lines};

#[test]
fn less_is_the_dictionary_order() {
    assert!(less("a", "b"));
    assert!(!less("b", "a"));
    assert!(!less("a", "a"));
    assert!(less("", "a"));
    assert!(!less("a", ""));
    assert!(!less("", ""));
    assert!(less("ab", "abc"));
    assert!(!less("abc", "ab"));
    assert!(less("abc", "abd"));
    assert!(less("abz", "ac"));
    assert!(less("fork", "pond"));
    assert!(less("pond", "respond"));
}

#[test]
fn less_orders_characters_by_code_point() {
    assert!(less("Z", "a"));
    assert!(less("Pong", "pong"));
    assert!(less("z", "\u{e4}"));
    assert!(less("\u{e4}", "\u{20ac}"));
    assert!(less("\u{ffff}", "\u{10000}"));
    assert!(!less("\u{10000}", "\u{ffff}"));
}

#[test]
fn less_agrees_with_the_order_of_str() {
    let samples = [
        "", "a", "A", "aa", "ab", "b", "z", "zz", "\u{e9}", "e\u{301}", "\u{ffff}", "\u{10000}",
        "\u{7f}", "\u{80}", "\u{7ff}", "\u{800}",
    ];
    for a in samples {
        for b in samples {
            assert_eq!(less(a, b), a < b);
        }
    }
}

#[test]
fn lines_are_the_pieces_between_line_feeds() {
    assert_eq!(lines(""), vec!["".to_string()]);
    assert_eq!(lines("one"), vec!["one".to_string()]);
    assert_eq!(
        lines("a\nb\n"),
        vec!["a".to_string(), "b".to_string(), "".to_string()]
    );
    assert_eq!(
        lines("\n\nx"),
        vec!["".to_string(), "".to_string(), "x".to_string()]
    );
    assert_eq!(lines("a\r\nb"), vec!["a\r".to_string(), "b".to_string()]);
    for text in ["", "one", "a\nb\n", "\n\nx", "\n", "a\n\nb"] {
        let expected: Vec<String> = text.split('\n').map(|line| line.to_owned()).collect();
        assert_eq!(lines(text), expected);
    }
}

#[test]
fn chars_of_gives_every_character() {
    assert_eq!(chars_of(""), Vec::<char>::new());
    assert_eq!(chars_of("a\u{f6}\u{20ac}"), vec!['a', '\u{f6}', '\u{20ac}']);
}

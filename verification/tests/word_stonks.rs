use ferris_bot::word_stonks::{vocabulary_words, GuessResult, WordInterval, WordStonksGame};

const WORDS: &str = "aardvark\nbanana\ncastle\ndolphin\nfork\ngarden\nhammer\nisland\njungle\nkettle\nlantern\nmarble\nnapkin\norchard\npond\nquiver\nrespond\nsaddle\nthimble\numbrella\nvelvet\nwindow\nyonder\nzyzzyva\n";

fn interval(lower_bound: &str, upper_bound: &str) -> WordInterval {
    WordInterval {
        lower_bound: lower_bound.to_owned(),
        upper_bound: upper_bound.to_owned(),
    }
}

#[test]
fn test_hamming_distance() {
    let forced_word = "Pong";
    let game = WordStonksGame::with_word(WORDS, forced_word);
    // Best test (and also different length of words).
    let w1 = String::from("Stonk");
    assert_eq!(game.hamming_distance(w1), 5);
    // When both words are the same.
    let w1 = String::from("Pong");
    assert_eq!(game.hamming_distance(w1), 0);
    // When both words are the same but different cases.
    let w1 = String::from("pong");
    assert_eq!(game.hamming_distance(w1), 1);
    // When one of the words is the empty string.
    let w1 = String::from("");
    assert_eq!(game.hamming_distance(w1), 4);
}

#[test]
fn test_game() {
    let forced_word = "pond";
    let mut game = WordStonksGame::with_word(WORDS, forced_word);
    let initial_word_interval = WordInterval {
        lower_bound: "aardvark".to_owned(),
        upper_bound: "zyzzyva".to_owned(),
    };
    assert_eq!(&initial_word_interval, game.current_word_interval());

    let invalid_word = "xyz";
    assert!(!game.in_vocabulary(invalid_word));
    assert!(matches!(game.guess(invalid_word), GuessResult::InvalidWord));

    let valid_word_lower = "fork";
    assert!(game.in_vocabulary(valid_word_lower));
    match game.guess(valid_word_lower) {
        GuessResult::Incorrect(word_interval) => {
            assert_eq!(word_interval.lower_bound, valid_word_lower);
            assert_eq!(word_interval.upper_bound, initial_word_interval.upper_bound);
        }
        other => panic!("unexpected answer: {:?}", other),
    }

    {
        let current_word_interval = game.current_word_interval();
        assert_eq!(current_word_interval.lower_bound, valid_word_lower);
        assert_eq!(
            current_word_interval.upper_bound,
            initial_word_interval.upper_bound
        );
    }

    let valid_word_upper = "respond";
    assert!(game.in_vocabulary(valid_word_upper));
    match game.guess(valid_word_upper) {
        GuessResult::Incorrect(word_interval) => {
            assert_eq!(word_interval.lower_bound, valid_word_lower);
            assert_eq!(word_interval.upper_bound, valid_word_upper);
        }
        other => panic!("unexpected answer: {:?}", other),
    }

    {
        let current_word_interval = game.current_word_interval();
        assert_eq!(current_word_interval.lower_bound, valid_word_lower);
        assert_eq!(current_word_interval.upper_bound, valid_word_upper);
    }

    assert!(matches!(game.guess(forced_word), GuessResult::Correct));

    for word in [forced_word, invalid_word, valid_word_lower, valid_word_upper] {
        match game.guess(word) {
            GuessResult::GameOver(s) => assert_eq!(s, forced_word),
            other => panic!("unexpected answer: {:?}", other),
        }
    }
}

#[test]
fn a_guess_outside_the_bounds_is_out_of_range() {
    let mut game = WordStonksGame::with_word(WORDS, "pond");
    assert!(matches!(game.guess("fork"), GuessResult::Incorrect(_)));
    assert!(matches!(game.guess("respond"), GuessResult::Incorrect(_)));
    // Words of the vocabulary at or beyond a bound.
    for word in ["banana", "fork", "respond", "velvet", "aardvark", "zyzzyva"] {
        assert!(matches!(game.guess(word), GuessResult::OutOfRange));
        assert_eq!(game.current_word_interval(), &interval("fork", "respond"));
    }
    // The first and the last word of the vocabulary are bounds from the start.
    let mut fresh = WordStonksGame::with_word(WORDS, "pond");
    assert!(matches!(fresh.guess("aardvark"), GuessResult::OutOfRange));
    assert!(matches!(fresh.guess("zyzzyva"), GuessResult::OutOfRange));
}

#[test]
fn the_vocabulary_is_read_in_lower_case_without_empty_lines() {
    assert_eq!(
        vocabulary_words("Apple\n\nBANANA\ncherry\n\n"),
        vec!["apple".to_string(), "banana".to_string(), "cherry".to_string()]
    );
    assert_eq!(vocabulary_words(""), Vec::<String>::new());
    assert_eq!(vocabulary_words("\n\n\n"), Vec::<String>::new());
    assert_eq!(vocabulary_words("one"), vec!["one".to_string()]);
    assert_eq!(
        vocabulary_words("b\na\nb"),
        vec!["b".to_string(), "a".to_string(), "b".to_string()]
    );
    let mut game = WordStonksGame::with_word("Mango\nKiwi\nPlum", "kiwi");
    assert_eq!(game.current_word_interval(), &interval("kiwi", "plum"));
    assert!(game.in_vocabulary("mango"));
    assert!(!game.in_vocabulary("Mango"));
    assert!(matches!(game.guess("Mango"), GuessResult::InvalidWord));
    assert!(matches!(game.guess("mango"), GuessResult::Incorrect(_)));
}

#[test]
fn the_bounds_of_a_small_vocabulary_start_from_the_fixed_words() {
    // Every word lies after `aaaaaa` and before `zzzzzz`.
    let game = WordStonksGame::with_word("mmm", "mmm");
    assert_eq!(game.current_word_interval(), &interval("mmm", "mmm"));
    // No word lies before `zzzzzz`: the lower bound stays.
    let game = WordStonksGame::with_word("zzzzzzz", "zzzzzzz");
    assert_eq!(game.current_word_interval(), &interval("zzzzzz", "zzzzzzz"));
    // No word lies after `aaaaaa`: the upper bound stays.
    let game = WordStonksGame::with_word("a\naa", "a");
    assert_eq!(game.current_word_interval(), &interval("a", "aaaaaa"));
    // No word at all.
    let game = WordStonksGame::with_word("", "a");
    assert_eq!(game.current_word_interval(), &interval("zzzzzz", "aaaaaa"));
}

#[test]
fn a_new_game_hides_a_word_of_the_vocabulary() {
    for _ in 0..20 {
        let mut game = WordStonksGame::new("alpha\nbeta\ngamma");
        assert_eq!(game.current_word_interval(), &interval("alpha", "gamma"));
        let mut correct = 0;
        for word in ["alpha", "beta", "gamma"] {
            let mut attempt = WordStonksGame::with_word("alpha\nbeta\ngamma", word);
            assert!(matches!(attempt.guess(word), GuessResult::Correct));
            if matches!(game.guess(word), GuessResult::Correct) {
                correct += 1;
                break;
            }
        }
        assert_eq!(correct, 1);
    }
    let mut game = WordStonksGame::new("only");
    assert!(matches!(game.guess("only"), GuessResult::Correct));
}

#[test]
fn from_words_hides_one_of_the_words() {
    let words = vec!["kiwi".to_string(), "apple".to_string()];
    for _ in 0..20 {
        let mut game = WordStonksGame::from_words(words.clone());
        assert_eq!(game.current_word_interval(), &interval("apple", "kiwi"));
        let first = game.guess("apple");
        let second = game.guess("kiwi");
        assert!(
            (matches!(first, GuessResult::Correct) && matches!(second, GuessResult::GameOver(_)))
                || (matches!(first, GuessResult::OutOfRange)
                    && matches!(second, GuessResult::Correct))
        );
    }
}

#[test]
fn try_new_wants_a_word() {
    assert!(WordStonksGame::try_new("").is_none());
    assert!(WordStonksGame::try_new("\n\n").is_none());
    let mut game = WordStonksGame::try_new("\nsolo\n").unwrap();
    assert_eq!(game.current_word_interval(), &interval("solo", "solo"));
    assert!(matches!(game.guess("solo"), GuessResult::Correct));
    assert!(matches!(game.guess("solo"), GuessResult::GameOver(_)));
}

#[test]
fn with_word_at_hides_the_word_at_the_index() {
    let words = vec!["kiwi".to_string(), "apple".to_string(), "plum".to_string()];
    let mut game = WordStonksGame::with_word_at(words, 1);
    assert_eq!(game.current_word_interval(), &interval("apple", "plum"));
    assert!(matches!(game.guess("plum"), GuessResult::OutOfRange));
    assert!(matches!(game.guess("kiwi"), GuessResult::Incorrect(_)));
    assert_eq!(game.current_word_interval(), &interval("apple", "kiwi"));
    assert!(matches!(game.guess("apple"), GuessResult::Correct));
}

#[test]
fn the_hidden_word_is_correct_even_outside_the_vocabulary() {
    let mut game = WordStonksGame::with_word(WORDS, "Pong");
    assert!(!game.in_vocabulary("Pong"));
    assert!(matches!(game.guess("Pong"), GuessResult::Correct));
}

#[test]
fn hamming_distance_counts_characters_and_pads_by_bytes() {
    let game = WordStonksGame::with_word(WORDS, "pond");
    assert_eq!(game.hamming_distance("pond".to_string()), 0);
    assert_eq!(game.hamming_distance("bond".to_string()), 1);
    assert_eq!(game.hamming_distance("ponds".to_string()), 1);
    assert_eq!(game.hamming_distance("po".to_string()), 2);
    // A space in the longer word equals the padding of the shorter one.
    assert_eq!(game.hamming_distance("pond ".to_string()), 0);
    // Two bytes for one character: the guess is the longer word in bytes,
    // the hidden word is padded by one space, and four positions are compared.
    assert_eq!(game.hamming_distance("p\u{f6}nd".to_string()), 1);
    // Three characters in six bytes against four in four: the hidden word
    // is padded, and only three positions are compared.
    let game = WordStonksGame::with_word(WORDS, "\u{e4}\u{f6}\u{fc}");
    assert_eq!(game.hamming_distance("\u{e4}\u{f6}\u{fc}".to_string()), 0);
    assert_eq!(game.hamming_distance("abcd".to_string()), 3);
    assert_eq!(game.hamming_distance("\u{e4}bcd".to_string()), 2);
}

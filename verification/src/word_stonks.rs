//! The word guessing game.
//!
//! A hidden word is drawn from a vocabulary. Each wrong guess from the
//! vocabulary narrows the interval of the dictionary in which the hidden
//! word lies. The contracts are stated over [`GameState`].

use crate::text::{chars_of, less, lex_less, lines, lines_of, lowercase, lowercase_of, names_of};
use rand::Rng;
use vstd::prelude::*;
use vstd::utf8::encode_utf8;

verus! {

/// Two words between which the hidden word lies.
#[derive(Clone, Debug, PartialEq)]
pub struct WordInterval {
    pub lower_bound: String,
    pub upper_bound: String,
}

/// A [`WordInterval`] as mathematical values.
pub struct IntervalView {
    pub lower_bound: Seq<char>,
    pub upper_bound: Seq<char>,
}

impl View for WordInterval {
    type V = IntervalView;

    open spec fn view(&self) -> IntervalView {
        IntervalView { lower_bound: self.lower_bound@, upper_bound: self.upper_bound@ }
    }
}

/// The answer to a guess.
#[derive(Debug)]
pub enum GuessResult {
    /// The guess is the hidden word; the game is over.
    Correct,
    /// The guess is a word between the bounds; it has become one of them.
    Incorrect(WordInterval),
    /// The guess is not in the vocabulary.
    InvalidWord,
    /// The guess is in the vocabulary, but not between the bounds.
    OutOfRange,
    /// The game was over already; this was the hidden word.
    GameOver(String),
}

/// A [`GuessResult`] as mathematical values.
pub enum GuessOutcome {
    Correct,
    Incorrect(IntervalView),
    InvalidWord,
    OutOfRange,
    GameOver(Seq<char>),
}

impl View for GuessResult {
    type V = GuessOutcome;

    open spec fn view(&self) -> GuessOutcome {
        match self {
            GuessResult::Correct => GuessOutcome::Correct,
            GuessResult::Incorrect(interval) => GuessOutcome::Incorrect(interval@),
            GuessResult::InvalidWord => GuessOutcome::InvalidWord,
            GuessResult::OutOfRange => GuessOutcome::OutOfRange,
            GuessResult::GameOver(word) => GuessOutcome::GameOver(word@),
        }
    }
}

/// The words of a vocabulary text: its lines in lower case, without the
/// empty ones, in the order of the text.
pub open spec fn words_of(vocabulary_txt: Seq<char>) -> Seq<Seq<char>> {
    words_in(lines_of(vocabulary_txt))
}

/// The words that `lines` hold: each line in lower case, without the empty
/// ones.
pub open spec fn words_in(lines: Seq<Seq<char>>) -> Seq<Seq<char>> {
    lines.map_values(|line: Seq<char>| lowercase_of(line)).filter(
        |word: Seq<char>| word.len() > 0,
    )
}

/// The first in dictionary order among `words` and the word `zzzzzz`.
pub open spec fn lowest(words: Seq<Seq<char>>) -> Seq<char>
    decreases words.len(),
{
    if words.len() == 0 {
        "zzzzzz"@
    } else {
        let rest = lowest(words.drop_last());
        if lex_less(words.last(), rest) {
            words.last()
        } else {
            rest
        }
    }
}

/// The last in dictionary order among `words` and the word `aaaaaa`.
pub open spec fn highest(words: Seq<Seq<char>>) -> Seq<char>
    decreases words.len(),
{
    if words.len() == 0 {
        "aaaaaa"@
    } else {
        let rest = highest(words.drop_last());
        if lex_less(rest, words.last()) {
            words.last()
        } else {
            rest
        }
    }
}

/// The length in bytes that `str::len` reports for a string with these
/// characters.
pub open spec fn utf8_len(s: Seq<char>) -> usize {
    encode_utf8(s).len() as usize
}

/// The number of positions below `n` at which `a` and `b` differ.
pub open spec fn mismatches(a: Seq<char>, b: Seq<char>, n: nat) -> nat
    decreases n,
{
    if n == 0 {
        0
    } else {
        mismatches(a, b, (n - 1) as nat) + if a[n - 1] != b[n - 1] {
            1nat
        } else {
            0nat
        }
    }
}

/// The Hamming distance of two words, the one that is shorter in bytes
/// filled up with spaces to the byte length of the other: the number of
/// positions, as far as both have a character there, at which they differ.
pub open spec fn hamming(word: Seq<char>, guess: Seq<char>) -> nat {
    let (long, short) = if utf8_len(word) > utf8_len(guess) {
        (word, guess)
    } else {
        (guess, word)
    };
    let padded = short + Seq::new((utf8_len(long) - utf8_len(short)) as nat, |i: int| ' ');
    mismatches(
        long,
        padded,
        if long.len() <= padded.len() {
            long.len()
        } else {
            padded.len()
        },
    )
}

/// What a game holds, as mathematical values.
pub struct GameState {
    /// The words that may be guessed.
    pub vocabulary: Set<Seq<char>>,
    /// The hidden word.
    pub word_to_guess: Seq<char>,
    /// The bounds that the guesses so far have left.
    pub interval: IntervalView,
    /// Whether the hidden word has been guessed.
    pub game_over: bool,
}

impl GameState {
    /// The game at its start, with `words` as vocabulary and `word` hidden:
    /// the bounds are the first and the last of the vocabulary.
    pub open spec fn with_word(words: Seq<Seq<char>>, word: Seq<char>) -> GameState {
        GameState {
            vocabulary: words.to_set(),
            word_to_guess: word,
            interval: IntervalView { lower_bound: lowest(words), upper_bound: highest(words) },
            game_over: false,
        }
    }

    /// The bounds after the wrong guess `word`: it replaces the bound on
    /// its side of the hidden word.
    pub open spec fn narrowed(self, word: Seq<char>) -> IntervalView {
        if lex_less(self.word_to_guess, word) {
            IntervalView { upper_bound: word, ..self.interval }
        } else {
            IntervalView { lower_bound: word, ..self.interval }
        }
    }

    /// Whether `word` lies strictly between the bounds.
    pub open spec fn in_range(self, word: Seq<char>) -> bool {
        lex_less(self.interval.lower_bound, word) && lex_less(word, self.interval.upper_bound)
    }

    /// The answer to the guess `word`.
    pub open spec fn guess_result(self, word: Seq<char>) -> GuessOutcome {
        if self.game_over {
            GuessOutcome::GameOver(self.word_to_guess)
        } else if word == self.word_to_guess {
            GuessOutcome::Correct
        } else if !self.vocabulary.contains(word) {
            GuessOutcome::InvalidWord
        } else if self.in_range(word) {
            GuessOutcome::Incorrect(self.narrowed(word))
        } else {
            GuessOutcome::OutOfRange
        }
    }

    /// The game after the guess `word`.
    pub open spec fn guess(self, word: Seq<char>) -> GameState {
        match self.guess_result(word) {
            GuessOutcome::Correct => GameState { game_over: true, ..self },
            GuessOutcome::Incorrect(interval) => GameState { interval, ..self },
            _ => self,
        }
    }
}

/// The game.
#[derive(Debug)]
pub struct WordStonksGame {
    vocabulary: Vec<String>,
    word_to_guess: String,
    current_word_interval: WordInterval,
    game_over: bool,
}

impl View for WordStonksGame {
    type V = GameState;

    closed spec fn view(&self) -> GameState {
        GameState {
            vocabulary: names_of(self.vocabulary@).to_set(),
            word_to_guess: self.word_to_guess@,
            interval: self.current_word_interval@,
            game_over: self.game_over,
        }
    }
}

/// Calls `rand::thread_rng` and, on the generator it returns,
/// `Rng::gen_range` with the range from 0 up to and without `len`. The
/// number drawn lies in that range; which one it is, is left open. An
/// empty range makes `gen_range` panic, so `len` is not 0. (Where the
/// system has no seed to give, `thread_rng` panics whatever is asked.)
#[verifier::external_body]
fn random_index(len: usize) -> (index: usize)
    requires
        len > 0,
    ensures
        index < len,
{
    rand::thread_rng().gen_range(0..len)
}

/// Whether `word` is one of `words`.
fn holds(words: &Vec<String>, word: &String) -> (found: bool)
    ensures
        found == names_of(words@).contains(word@),
{
    let mut i: usize = 0;
    while i < words.len()
        invariant
            i <= words@.len(),
            forall|j: int| 0 <= j < i ==> names_of(words@)[j] != word@,
        decreases words@.len() - i,
    {
        if words[i] == *word {
            assert(names_of(words@)[i as int] == word@);
            return true;
        }
        i += 1;
    }
    false
}

/// The first and the last of `words` in dictionary order.
fn bounds(words: &Vec<String>) -> (interval: WordInterval)
    ensures
        interval@.lower_bound == lowest(names_of(words@)),
        interval@.upper_bound == highest(names_of(words@)),
{
    let mut interval = WordInterval {
        lower_bound: "zzzzzz".to_owned(),
        upper_bound: "aaaaaa".to_owned(),
    };
    let mut i: usize = 0;
    assert(names_of(words@).take(0) =~= Seq::empty());
    while i < words.len()
        invariant
            i <= words@.len(),
            interval@.lower_bound == lowest(names_of(words@).take(i as int)),
            interval@.upper_bound == highest(names_of(words@).take(i as int)),
        decreases words@.len() - i,
    {
        let ghost seen = names_of(words@).take(i as int);
        let ghost grown = names_of(words@).take(i + 1);
        assert(grown.drop_last() =~= seen && grown.last() == words@[i as int]@);
        if less(words[i].as_str(), interval.lower_bound.as_str()) {
            interval.lower_bound = words[i].clone();
        }
        if less(interval.upper_bound.as_str(), words[i].as_str()) {
            interval.upper_bound = words[i].clone();
        }
        i += 1;
    }
    assert(names_of(words@).take(i as int) =~= names_of(words@));
    interval
}

/// The words of a vocabulary text, one from each line that is not empty
/// once it is in lower case.
pub fn vocabulary_words(vocabulary_txt: &str) -> (words: Vec<String>)
    ensures
        names_of(words@) == words_of(vocabulary_txt@),
{
    let lines = lines(vocabulary_txt);
    let mut words: Vec<String> = Vec::new();
    let mut i: usize = 0;
    assert(names_of(lines@).take(0) =~= Seq::empty());
    assert(names_of(words@) =~= words_in(Seq::empty()));
    while i < lines.len()
        invariant
            i <= lines@.len(),
            names_of(words@) == words_in(names_of(lines@).take(i as int)),
        decreases lines@.len() - i,
    {
        let ghost seen = names_of(lines@).take(i as int);
        let ghost grown = names_of(lines@).take(i + 1);
        let ghost lower = |line: Seq<char>| lowercase_of(line);
        let ghost full = |word: Seq<char>| word.len() > 0;
        let ghost before = names_of(words@);
        let word = lowercase(lines[i].as_str());
        proof {
            assert(grown =~= seen.push(lines@[i as int]@));
            assert(grown.map_values(lower) =~= seen.map_values(lower).push(word@));
            seen.map_values(lower).lemma_filter_push(word@, full);
        }
        if !word.as_str().is_empty() {
            words.push(word);
            assert(names_of(words@) =~= before.push(word@));
        }
        i += 1;
    }
    assert(names_of(lines@).take(i as int) =~= names_of(lines@));
    words
}

impl WordStonksGame {
    /// A game with the words of `vocabulary_txt` as vocabulary and one of
    /// them, drawn at random, as the hidden word. The text holds at least
    /// one word: there is nothing to draw from otherwise.
    pub fn new(vocabulary_txt: &str) -> (game: WordStonksGame)
        requires
            words_of(vocabulary_txt@).len() > 0,
        ensures
            words_of(vocabulary_txt@).contains(game@.word_to_guess),
            game@ == GameState::with_word(words_of(vocabulary_txt@), game@.word_to_guess),
    {
        WordStonksGame::from_words(vocabulary_words(vocabulary_txt))
    }

    /// A game with `words` as vocabulary and one of them, drawn at random,
    /// as the hidden word.
    pub fn from_words(words: Vec<String>) -> (game: WordStonksGame)
        requires
            words@.len() > 0,
        ensures
            names_of(words@).contains(game@.word_to_guess),
            game@ == GameState::with_word(names_of(words@), game@.word_to_guess),
    {
        let index = random_index(words.len());
        assert(names_of(words@)[index as int] == words@[index as int]@);
        WordStonksGame::with_word_at(words, index)
    }

    /// A game as [`WordStonksGame::new`] makes it, or nothing where the text
    /// holds no word.
    pub fn try_new(vocabulary_txt: &str) -> (game: Option<WordStonksGame>)
        ensures
            game is Some <==> words_of(vocabulary_txt@).len() > 0,
            game matches Some(game) ==> {
                &&& words_of(vocabulary_txt@).contains(game@.word_to_guess)
                &&& game@ == GameState::with_word(
                    words_of(vocabulary_txt@),
                    game@.word_to_guess,
                )
            },
    {
        if vocabulary_words(vocabulary_txt).len() > 0 {
            Some(WordStonksGame::new(vocabulary_txt))
        } else {
            None
        }
    }

    /// A game with `words` as vocabulary and the word at `index` hidden.
    pub fn with_word_at(words: Vec<String>, index: usize) -> (game: WordStonksGame)
        requires
            index < words.len(),
        ensures
            game@ == GameState::with_word(names_of(words@), names_of(words@)[index as int]),
    {
        let word_to_guess = words[index].clone();
        let current_word_interval = bounds(&words);
        WordStonksGame { vocabulary: words, word_to_guess, current_word_interval, game_over: false }
    }

    /// A game with the words of `vocabulary_txt` as vocabulary and
    /// `word_to_guess` hidden, whether or not it is one of them.
    pub fn with_word(vocabulary_txt: &str, word_to_guess: &str) -> (game: WordStonksGame)
        ensures
            game@ == GameState::with_word(words_of(vocabulary_txt@), word_to_guess@),
    {
        let words = vocabulary_words(vocabulary_txt);
        let current_word_interval = bounds(&words);
        WordStonksGame {
            vocabulary: words,
            word_to_guess: word_to_guess.to_owned(),
            current_word_interval,
            game_over: false,
        }
    }

    /// Answers a guess. The right word ends the game. A wrong word from
    /// the vocabulary that lies between the bounds becomes the bound on its
    /// side of the hidden word.
    pub fn guess(&mut self, word: &str) -> (result: GuessResult)
        ensures
            result@ == old(self)@.guess_result(word@),
            final(self)@ == old(self)@.guess(word@),
    {
        if self.game_over {
            return GuessResult::GameOver(self.word_to_guess.clone());
        }
        let word = word.to_owned();
        if word == self.word_to_guess {
            self.game_over = true;
            return GuessResult::Correct;
        }
        if !holds(&self.vocabulary, &word) {
            return GuessResult::InvalidWord;
        }
        if less(self.current_word_interval.lower_bound.as_str(), word.as_str()) && less(
            word.as_str(),
            self.current_word_interval.upper_bound.as_str(),
        ) {
            if less(self.word_to_guess.as_str(), word.as_str()) {
                self.current_word_interval.upper_bound = word;
            } else {
                self.current_word_interval.lower_bound = word;
            }
            return GuessResult::Incorrect(
                WordInterval {
                    lower_bound: self.current_word_interval.lower_bound.clone(),
                    upper_bound: self.current_word_interval.upper_bound.clone(),
                },
            );
        }
        GuessResult::OutOfRange
    }

    /// Whether `word` is in the vocabulary.
    pub fn in_vocabulary(&self, word: &str) -> (found: bool)
        ensures
            found == self@.vocabulary.contains(word@),
    {
        holds(&self.vocabulary, &word.to_owned())
    }

    /// The bounds that the guesses so far have left.
    pub fn current_word_interval(&self) -> (interval: &WordInterval)
        ensures
            interval@ == self@.interval,
    {
        &self.current_word_interval
    }

    /// The Hamming distance between the hidden word and `guess`, as
    /// [`hamming`] defines it, in 32 bits.
    pub fn hamming_distance(&self, guess: String) -> (distance: u32)
        ensures
            distance == hamming(self@.word_to_guess, guess@) % 0x1_0000_0000,
    {
        let word_bytes = self.word_to_guess.as_str().len();
        let guess_bytes = guess.as_str().len();
        let word = chars_of(self.word_to_guess.as_str());
        let guess = chars_of(guess.as_str());
        if word_bytes > guess_bytes {
            differences(&word, &guess, word_bytes - guess_bytes)
        } else {
            differences(&guess, &word, guess_bytes - word_bytes)
        }
    }
}

/// The number of positions at which `long` differs from `short` followed by
/// `padding` spaces, as far as both have a character there, in 32 bits.
fn differences(long: &Vec<char>, short: &Vec<char>, padding: usize) -> (count: u32)
    ensures
        count == mismatches(
            long@,
            short@ + Seq::new(padding as nat, |i: int| ' '),
            if long@.len() <= short@.len() + padding {
                long@.len()
            } else {
                (short@.len() + padding) as nat
            },
        ) % 0x1_0000_0000,
{
    let ghost padded = short@ + Seq::new(padding as nat, |i: int| ' ');
    let mut count: usize = 0;
    let mut i: usize = 0;
    while i < long.len() && (i < short.len() || i - short.len() < padding)
        invariant
            i <= long@.len(),
            i <= short@.len() + padding,
            count <= i,
            count == mismatches(long@, padded, i as nat),
            padded == short@ + Seq::new(padding as nat, |i: int| ' '),
        decreases long@.len() - i,
    {
        let other = if i < short.len() {
            short[i]
        } else {
            ' '
        };
        assert(other == padded[i as int]);
        if long[i] != other {
            count += 1;
        }
        i += 1;
    }
    let wide = count as u64;
    (wide % 0x1_0000_0000) as u32
}

} // verus!

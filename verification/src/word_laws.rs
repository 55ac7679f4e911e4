//! What holds of the dictionary order and of every game.

use crate::text::lex_less;
use crate::word_stonks::{highest, lowest, GameState, GuessOutcome};
use vstd::prelude::*;

verus! {

/// No word stands before itself.
pub proof fn lemma_lex_irreflexive(a: Seq<char>)
    ensures
        !lex_less(a, a),
    decreases a.len(),
{
    if a.len() > 0 {
        lemma_lex_irreflexive(a.drop_first());
    }
}

/// Of two words at most one stands before the other.
pub proof fn lemma_lex_asymmetric(a: Seq<char>, b: Seq<char>)
    requires
        lex_less(a, b),
    ensures
        !lex_less(b, a),
    decreases a.len(),
{
    if a.len() > 0 && b.len() > 0 && a[0] == b[0] {
        lemma_lex_asymmetric(a.drop_first(), b.drop_first());
    }
}

/// What stands before a word stands before everything behind that word.
pub proof fn lemma_lex_transitive(a: Seq<char>, b: Seq<char>, c: Seq<char>)
    requires
        lex_less(a, b),
        lex_less(b, c),
    ensures
        lex_less(a, c),
    decreases a.len(),
{
    if a.len() > 0 && b.len() > 0 && c.len() > 0 && a[0] == b[0] && b[0] == c[0] {
        lemma_lex_transitive(a.drop_first(), b.drop_first(), c.drop_first());
    }
}

/// Of two different words one stands before the other.
pub proof fn lemma_lex_total(a: Seq<char>, b: Seq<char>)
    ensures
        lex_less(a, b) || a == b || lex_less(b, a),
    decreases a.len(),
{
    if a.len() == 0 || b.len() == 0 {
        if a.len() == 0 && b.len() == 0 {
            assert(a =~= b);
        }
    } else if a[0] == b[0] {
        lemma_lex_total(a.drop_first(), b.drop_first());
        if a.drop_first() == b.drop_first() {
            assert(a =~= seq![a[0]] + a.drop_first());
            assert(b =~= seq![b[0]] + b.drop_first());
        }
    }
}

/// The lower bound of a vocabulary is one of its words or the word
/// `zzzzzz`, and neither that word nor any of the vocabulary stands before
/// it.
pub proof fn lemma_lowest_is_least(words: Seq<Seq<char>>)
    ensures
        lowest(words) == "zzzzzz"@ || words.contains(lowest(words)),
        !lex_less("zzzzzz"@, lowest(words)),
        forall|i: int| 0 <= i < words.len() ==> !lex_less(#[trigger] words[i], lowest(words)),
    decreases words.len(),
{
    if words.len() == 0 {
        lemma_lex_irreflexive("zzzzzz"@);
    } else {
        let front = words.drop_last();
        let rest = lowest(front);
        lemma_lowest_is_least(front);
        if lex_less(words.last(), rest) {
            assert(words[words.len() - 1] == words.last());
            lemma_lex_irreflexive(words.last());
            if lex_less("zzzzzz"@, words.last()) {
                lemma_lex_transitive("zzzzzz"@, words.last(), rest);
            }
            assert forall|i: int| 0 <= i < words.len() implies !lex_less(
                #[trigger] words[i],
                lowest(words),
            ) by {
                if i < front.len() {
                    assert(front[i] == words[i]);
                    if lex_less(words[i], words.last()) {
                        lemma_lex_transitive(words[i], words.last(), rest);
                    }
                }
            }
        } else {
            if front.contains(rest) {
                let i = choose|i: int| 0 <= i < front.len() && front[i] == rest;
                assert(words[i] == rest);
            }
            assert forall|i: int| 0 <= i < words.len() implies !lex_less(
                #[trigger] words[i],
                lowest(words),
            ) by {
                if i < front.len() {
                    assert(front[i] == words[i]);
                }
            }
        }
    }
}

/// The upper bound of a vocabulary is one of its words or the word
/// `aaaaaa`, and neither that word nor any of the vocabulary stands behind
/// it.
pub proof fn lemma_highest_is_greatest(words: Seq<Seq<char>>)
    ensures
        highest(words) == "aaaaaa"@ || words.contains(highest(words)),
        !lex_less(highest(words), "aaaaaa"@),
        forall|i: int| 0 <= i < words.len() ==> !lex_less(highest(words), #[trigger] words[i]),
    decreases words.len(),
{
    if words.len() == 0 {
        lemma_lex_irreflexive("aaaaaa"@);
    } else {
        let front = words.drop_last();
        let rest = highest(front);
        lemma_highest_is_greatest(front);
        if lex_less(rest, words.last()) {
            assert(words[words.len() - 1] == words.last());
            lemma_lex_irreflexive(words.last());
            if lex_less(words.last(), "aaaaaa"@) {
                lemma_lex_transitive(rest, words.last(), "aaaaaa"@);
            }
            assert forall|i: int| 0 <= i < words.len() implies !lex_less(
                highest(words),
                #[trigger] words[i],
            ) by {
                if i < front.len() {
                    assert(front[i] == words[i]);
                    if lex_less(words.last(), words[i]) {
                        lemma_lex_transitive(rest, words.last(), words[i]);
                    }
                }
            }
        } else {
            if front.contains(rest) {
                let i = choose|i: int| 0 <= i < front.len() && front[i] == rest;
                assert(words[i] == rest);
            }
            assert forall|i: int| 0 <= i < words.len() implies !lex_less(
                highest(words),
                #[trigger] words[i],
            ) by {
                if i < front.len() {
                    assert(front[i] == words[i]);
                }
            }
        }
    }
}

/// A game starts with bounds that no word of its vocabulary lies outside
/// of: the hidden word, if it is drawn from the vocabulary, stands neither
/// before the lower bound nor behind the upper one.
pub proof fn lemma_start_bounds_hold_vocabulary(words: Seq<Seq<char>>, word: Seq<char>)
    requires
        words.contains(word),
    ensures
        !lex_less(word, GameState::with_word(words, word).interval.lower_bound),
        !lex_less(GameState::with_word(words, word).interval.upper_bound, word),
{
    lemma_lowest_is_least(words);
    lemma_highest_is_greatest(words);
    let i = choose|i: int| 0 <= i < words.len() && words[i] == word;
    assert(words[i] == word);
}

/// A guess never widens the interval and never moves a bound past the
/// hidden word: a hidden word that lies between the bounds stays between
/// them.
pub proof fn lemma_guess_narrows(state: GameState, word: Seq<char>)
    ensures
        state.guess(word).interval.lower_bound == state.interval.lower_bound || (
        state.guess(word).interval.lower_bound == word && lex_less(
            state.interval.lower_bound,
            word,
        )),
        state.guess(word).interval.upper_bound == state.interval.upper_bound || (
        state.guess(word).interval.upper_bound == word && lex_less(
            word,
            state.interval.upper_bound,
        )),
        state.in_range(state.word_to_guess) ==> state.guess(word).in_range(state.word_to_guess),
        state.guess(word).word_to_guess == state.word_to_guess,
        state.guess(word).vocabulary == state.vocabulary,
{
    if state.guess_result(word) is Incorrect {
        lemma_lex_total(state.word_to_guess, word);
    }
}

/// Only the hidden word ends a game, and a game that is over stays as it
/// is and answers every guess with the hidden word.
pub proof fn lemma_game_over(state: GameState, word: Seq<char>)
    ensures
        state.game_over ==> state.guess(word) == state && state.guess_result(word)
            == GuessOutcome::GameOver(state.word_to_guess),
        !state.game_over ==> (state.guess(word).game_over <==> word == state.word_to_guess),
        !state.game_over ==> (state.guess_result(word) is Correct <==> word
            == state.word_to_guess),
{
}

} // verus!

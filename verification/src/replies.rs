//! The texts with which the bot answers.

use crate::queue_manager::{QueueManagerJoinError, QueueManagerLeaveError};
use crate::text::{decimal_of, joined_with, names_of, push_decimal};
use crate::word_stonks::{GuessOutcome, GuessResult, IntervalView, WordInterval};
use vstd::prelude::*;
use vstd::string::StringExecFns;

verus! {

/// `message`, addressed to `sender`.
pub open spec fn addressed_to(sender: Seq<char>, message: Seq<char>) -> Seq<char> {
    "@"@ + sender + ": "@ + message
}

/// What is said of an attempt to join.
pub open spec fn join_message(result: Result<(), QueueManagerJoinError>) -> Seq<char> {
    match result {
        Err(QueueManagerJoinError::QueueFull) => "The Queue is full"@,
        Err(QueueManagerJoinError::UserAlreadyInQueue) => "You have already joined the queue"@,
        Ok(()) => "Successfully joined the queue"@,
    }
}

/// What is said of an attempt to leave.
pub open spec fn leave_message(result: Result<(), QueueManagerLeaveError>) -> Seq<char> {
    match result {
        Err(QueueManagerLeaveError::UserNotInQueue) => "User is not in queue"@,
        Ok(()) => "Successfully left the Queue"@,
    }
}

/// What is said of an attempt to take `user` out of the queue.
pub open spec fn kick_message(user: Seq<char>, result: Result<(), QueueManagerLeaveError>) -> Seq<
    char,
> {
    match result {
        Err(QueueManagerLeaveError::UserNotInQueue) => "User "@ + user + " is not in queue"@,
        Ok(()) => "User "@ + user + " successfully left the Queue"@,
    }
}

/// What is said of who is served next.
pub open spec fn next_message(served: Option<Seq<char>>) -> Seq<char> {
    match served {
        Some(user) => "@"@ + user + " is the next user to play!"@,
        None => "There are no users in the queue"@,
    }
}

/// What is said of the queue: its names in serving order.
pub open spec fn queue_message(queue: Seq<Seq<char>>) -> Seq<char> {
    "Current queue: "@ + joined_with(queue, ", "@)
}

/// The announcement of a new game.
pub open spec fn game_started_message(sender: Seq<char>, interval: IntervalView) -> Seq<char> {
    "@"@ + sender
        + " wants to play WordStonks! Guess the hidden word with !wordguess <your_guess> . The hidden word is between "@
        + interval.lower_bound + " and "@ + interval.upper_bound
}

/// The reminder of a game that is going on.
pub open spec fn game_in_progress_message(sender: Seq<char>, interval: IntervalView) -> Seq<char> {
    "@"@ + sender
        + " WordStonks game is in progress! Guess the hidden word with !wordguess <your_guess> . The current hidden word is between "@
        + interval.lower_bound + " and "@ + interval.upper_bound
}

/// What is said of a guess where no game is going on.
pub open spec fn no_game_message(sender: Seq<char>) -> Seq<char> {
    "@"@ + sender
        + ": No WordStonks game currently active! Start a game by typing !wordstonks"@
}

/// What is said of the guess `word`: `outcome` is the game's answer,
/// `interval` holds the bounds after the guess, and `distance` is the
/// Hamming distance between the guess and the hidden word.
pub open spec fn guess_message(
    word: Seq<char>,
    outcome: GuessOutcome,
    interval: IntervalView,
    distance: u32,
) -> Seq<char> {
    match outcome {
        GuessOutcome::Correct => "Congratulations! The correct word was \""@ + word + "\""@,
        GuessOutcome::Incorrect(narrowed) => "Wrong guess! The hidden word is between \""@
            + narrowed.lower_bound + "\" and \""@ + narrowed.upper_bound
            + "\", the Hamming distance to your guess is: "@ + decimal_of(distance as nat),
        GuessOutcome::InvalidWord => "The word \""@ + word + "\" is not in my vocabulary"@,
        GuessOutcome::OutOfRange => "The word \""@ + word + "\" is not between \""@
            + interval.lower_bound + "\" and \""@ + interval.upper_bound + "\""@,
        GuessOutcome::GameOver(_) => "The game is over"@,
    }
}

/// Calls `itertools::join`, which puts the strings one after the other
/// with the separator between each two and returns the empty string for
/// no strings. It sizes its result by the separator's length times the
/// number of strings, so the separator is to be short.
#[verifier::external_body]
fn join_names(names: &Vec<String>, separator: &str) -> (joined: String)
    requires
        separator@.len() <= 2,
    ensures
        joined@ == joined_with(names_of(names@), separator@),
{
    itertools::join(names, separator)
}

/// `message`, addressed to `sender`.
pub fn addressed(sender: &str, message: &str) -> (reply: String)
    ensures
        reply@ == addressed_to(sender@, message@),
{
    let mut reply = String::from_str("@");
    reply.append(sender);
    reply.append(": ");
    reply.append(message);
    reply
}

/// What is said of an attempt to join.
pub fn join_reply(result: Result<(), QueueManagerJoinError>) -> (message: &'static str)
    ensures
        message@ == join_message(result),
{
    match result {
        Err(QueueManagerJoinError::QueueFull) => "The Queue is full",
        Err(QueueManagerJoinError::UserAlreadyInQueue) => "You have already joined the queue",
        Ok(()) => "Successfully joined the queue",
    }
}

/// What is said of an attempt to leave.
pub fn leave_reply(result: Result<(), QueueManagerLeaveError>) -> (message: &'static str)
    ensures
        message@ == leave_message(result),
{
    match result {
        Err(QueueManagerLeaveError::UserNotInQueue) => "User is not in queue",
        Ok(()) => "Successfully left the Queue",
    }
}

/// What is said of an attempt to take `user` out of the queue.
pub fn kick_reply(user: &str, result: Result<(), QueueManagerLeaveError>) -> (message: String)
    ensures
        message@ == kick_message(user@, result),
{
    let mut message = String::from_str("User ");
    message.append(user);
    match result {
        Err(QueueManagerLeaveError::UserNotInQueue) => message.append(" is not in queue"),
        Ok(()) => message.append(" successfully left the Queue"),
    }
    message
}

/// What is said of who is served next.
pub fn next_reply(served: &Option<String>) -> (message: String)
    ensures
        message@ == next_message(
            match served {
                Some(user) => Some(user@),
                None => None,
            },
        ),
{
    match served {
        Some(user) => {
            let mut message = String::from_str("@");
            message.append(user.as_str());
            message.append(" is the next user to play!");
            message
        },
        None => String::from_str("There are no users in the queue"),
    }
}

/// What is said of the queue with these names in serving order.
pub fn queue_reply(queue: &Vec<String>) -> (message: String)
    ensures
        message@ == queue_message(names_of(queue@)),
{
    proof {
        reveal_strlit(", ");
    }
    let mut message = String::from_str("Current queue: ");
    let names = join_names(queue, ", ");
    message.append(names.as_str());
    message
}

/// The announcement of a new game.
pub fn game_started_reply(sender: &str, interval: &WordInterval) -> (message: String)
    ensures
        message@ == game_started_message(sender@, interval@),
{
    let mut message = String::from_str("@");
    message.append(sender);
    message.append(
        " wants to play WordStonks! Guess the hidden word with !wordguess <your_guess> . The hidden word is between ",
    );
    message.append(interval.lower_bound.as_str());
    message.append(" and ");
    message.append(interval.upper_bound.as_str());
    message
}

/// The reminder of a game that is going on.
pub fn game_in_progress_reply(sender: &str, interval: &WordInterval) -> (message: String)
    ensures
        message@ == game_in_progress_message(sender@, interval@),
{
    let mut message = String::from_str("@");
    message.append(sender);
    message.append(
        " WordStonks game is in progress! Guess the hidden word with !wordguess <your_guess> . The current hidden word is between ",
    );
    message.append(interval.lower_bound.as_str());
    message.append(" and ");
    message.append(interval.upper_bound.as_str());
    message
}

/// What is said of a guess where no game is going on.
pub fn no_game_reply(sender: &str) -> (message: String)
    ensures
        message@ == no_game_message(sender@),
{
    let mut message = String::from_str("@");
    message.append(sender);
    message.append(": No WordStonks game currently active! Start a game by typing !wordstonks");
    message
}

/// What is said of the guess `word`.
pub fn guess_reply(word: &str, result: &GuessResult, interval: &WordInterval, distance: u32) -> (message:
    String)
    ensures
        message@ == guess_message(word@, result@, interval@, distance),
{
    match result {
        GuessResult::Correct => {
            let mut message = String::from_str("Congratulations! The correct word was \"");
            message.append(word);
            message.append("\"");
            message
        },
        GuessResult::Incorrect(narrowed) => {
            let mut message = String::from_str("Wrong guess! The hidden word is between \"");
            message.append(narrowed.lower_bound.as_str());
            message.append("\" and \"");
            message.append(narrowed.upper_bound.as_str());
            message.append("\", the Hamming distance to your guess is: ");
            push_decimal(&mut message, distance);
            message
        },
        GuessResult::InvalidWord => {
            let mut message = String::from_str("The word \"");
            message.append(word);
            message.append("\" is not in my vocabulary");
            message
        },
        GuessResult::OutOfRange => {
            let mut message = String::from_str("The word \"");
            message.append(word);
            message.append("\" is not between \"");
            message.append(interval.lower_bound.as_str());
            message.append("\" and \"");
            message.append(interval.upper_bound.as_str());
            message.append("\"");
            message
        },
        GuessResult::GameOver(_) => String::from_str("The game is over"),
    }
}

} // verus!

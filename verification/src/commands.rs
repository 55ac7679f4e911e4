//! Chat commands: which command a message gives, and what it names.
//!
//! A message is a command if it starts with an exclamation mark and its
//! first word, in lower case, is the name of a command. What follows the
//! name is the command's argument.

use crate::text::{
    before_first, chars_of, find_char, first_token, lowercase, lowercase_of, skip_char,
    skip_not_white, skip_white, skip_white_back, string_of, trimmed, without_leading,
};
use vstd::prelude::*;
use vstd::string::StringSliceAdditionalSpecFns;
use vstd::utf8::{decode_utf8, encode_utf8, encode_utf8_decode_utf8, is_char_boundary};

verus! {

/// What a chat message asks the bot to do.
#[derive(Debug, PartialEq)]
pub enum TwitchCommand {
    /// The sender wants to join the queue.
    Join,
    /// The sender wants to see the queue.
    Queue,
    /// The sender wants to leave the queue.
    Leave,
    /// The next participant is to be served.
    Next,
    /// A participant is to be taken out of the queue.
    Kick,
    /// The sender is answered with this text.
    ReplyWith(&'static str),
    /// This text is sent to the channel.
    Broadcast(&'static str),
    /// The text of this file, which ships with the program, is sent to the
    /// channel.
    BroadcastFile(&'static str),
    /// The sender guesses a word.
    WordGuess,
    /// The sender wants to play the word game.
    WordStonks,
    /// The light is to change its colour.
    Lights,
}

/// The command with the name `name`, where it is one.
pub open spec fn command_named(name: Seq<char>) -> Option<TwitchCommand> {
    if name == "!join"@ {
        Some(TwitchCommand::Join)
    } else if name == "!leave"@ {
        Some(TwitchCommand::Leave)
    } else if name == "!queue"@ {
        Some(TwitchCommand::Queue)
    } else if name == "!next"@ {
        Some(TwitchCommand::Next)
    } else if name == "!kick"@ {
        Some(TwitchCommand::Kick)
    } else if name == "!pythonsucks"@ {
        Some(TwitchCommand::ReplyWith("This must be Lord"))
    } else if name == "!stonk"@ {
        Some(TwitchCommand::ReplyWith("yOu shOULd Buy AMC sTOnKS"))
    } else if name == "!c++"@ {
        Some(TwitchCommand::ReplyWith("segmentation fault"))
    } else if name == "!dave"@ {
        Some(TwitchCommand::BroadcastFile("dave.txt"))
    } else if name == "!bazylia"@ {
        Some(TwitchCommand::BroadcastFile("bazylia.txt"))
    } else if name == "!zoya"@ {
        Some(TwitchCommand::BroadcastFile("zoya.txt"))
    } else if name == "!discord"@ {
        Some(TwitchCommand::Broadcast("https://discord.gg/UyrsFX7N"))
    } else if name == "!nothing"@ {
        Some(TwitchCommand::ReplyWith("this commands does nothing!"))
    } else if name == "!wordstonks"@ {
        Some(TwitchCommand::WordStonks)
    } else if name == "!wordguess"@ {
        Some(TwitchCommand::WordGuess)
    } else if name == "!lights"@ {
        Some(TwitchCommand::Lights)
    } else {
        None
    }
}

/// The command that a message gives: none unless the message starts with
/// an exclamation mark, else the one named by its first word in lower
/// case. What follows the first word plays no part.
pub open spec fn parsed(message_text: Seq<char>) -> Option<TwitchCommand> {
    if message_text.len() == 0 || message_text[0] != '!' {
        None
    } else {
        match first_token(message_text) {
            None => None,
            Some(word) => command_named(lowercase_of(word)),
        }
    }
}

/// What is left of `text` behind its first `offset` bytes in UTF-8.
pub open spec fn after_bytes(text: Seq<char>, offset: int) -> Seq<char> {
    decode_utf8(encode_utf8(text).skip(offset))
}

/// The argument of a command whose name takes the first `offset` bytes of
/// the message: of what follows the name, without the white space around
/// it, the part before the first space.
pub open spec fn argument_of(message_text: Seq<char>, offset: int) -> Seq<char> {
    before_first(trimmed(after_bytes(message_text, offset)), ' ')
}

/// The participant that a kick names: the argument without the at signs in
/// front of it, in lower case.
pub open spec fn kick_target_of(message_text: Seq<char>) -> Seq<char> {
    lowercase_of(without_leading(argument_of(message_text, 5), '@'))
}

/// Whether `c` is a digit of a hexadecimal number, in either case.
pub open spec fn is_hex_digit(c: char) -> bool {
    ('0' <= c && c <= '9') || ('a' <= c && c <= 'f') || ('A' <= c && c <= 'F')
}

/// Whether `word` writes a colour: a number sign and then three or six
/// hexadecimal digits, nothing before and nothing behind.
pub open spec fn is_hex_colour(word: Seq<char>) -> bool {
    &&& word.len() == 4 || word.len() == 7
    &&& word[0] == '#'
    &&& forall|i: int| 1 <= i < word.len() ==> is_hex_digit(#[trigger] word[i])
}

/// Whether the badge with this name marks a subscriber.
pub open spec fn is_subscriber_badge(name: Seq<char>) -> bool {
    name == "founder"@ || name == "subscriber"@
}

/// What the bot answers on Discord to a message with this content: a sound
/// check is answered, anything else is passed over.
pub open spec fn sound_check_of(content: Seq<char>) -> Option<&'static str> {
    if content == "?testingtesting"@ {
        Some("one two, one two")
    } else {
        None
    }
}

/// What the bot answers on Discord to a message with this content, if it
/// answers.
pub fn sound_check(content: &str) -> (reply: Option<&'static str>)
    ensures
        reply == sound_check_of(content@),
{
    if content.to_owned() == "?testingtesting".to_owned() {
        Some("one two, one two")
    } else {
        None
    }
}

/// Whether `name` is spelled `literal`.
fn is(name: &String, literal: &str) -> (same: bool)
    ensures
        same == (name@ == literal@),
{
    *name == literal.to_owned()
}

impl TwitchCommand {
    /// The command with the name `name`, where it is one.
    pub fn from_name(name: &str) -> (command: Option<TwitchCommand>)
        ensures
            command == command_named(name@),
    {
        let name = name.to_owned();
        if is(&name, "!join") {
            Some(TwitchCommand::Join)
        } else if is(&name, "!leave") {
            Some(TwitchCommand::Leave)
        } else if is(&name, "!queue") {
            Some(TwitchCommand::Queue)
        } else if is(&name, "!next") {
            Some(TwitchCommand::Next)
        } else if is(&name, "!kick") {
            Some(TwitchCommand::Kick)
        } else if is(&name, "!pythonsucks") {
            Some(TwitchCommand::ReplyWith("This must be Lord"))
        } else if is(&name, "!stonk") {
            Some(TwitchCommand::ReplyWith("yOu shOULd Buy AMC sTOnKS"))
        } else if is(&name, "!c++") {
            Some(TwitchCommand::ReplyWith("segmentation fault"))
        } else if is(&name, "!dave") {
            Some(TwitchCommand::BroadcastFile("dave.txt"))
        } else if is(&name, "!bazylia") {
            Some(TwitchCommand::BroadcastFile("bazylia.txt"))
        } else if is(&name, "!zoya") {
            Some(TwitchCommand::BroadcastFile("zoya.txt"))
        } else if is(&name, "!discord") {
            Some(TwitchCommand::Broadcast("https://discord.gg/UyrsFX7N"))
        } else if is(&name, "!nothing") {
            Some(TwitchCommand::ReplyWith("this commands does nothing!"))
        } else if is(&name, "!wordstonks") {
            Some(TwitchCommand::WordStonks)
        } else if is(&name, "!wordguess") {
            Some(TwitchCommand::WordGuess)
        } else if is(&name, "!lights") {
            Some(TwitchCommand::Lights)
        } else {
            None
        }
    }

    /// The command that a message gives, if it gives one.
    pub fn parse_msg(message_text: &str) -> (command: Option<TwitchCommand>)
        ensures
            command == parsed(message_text@),
    {
        let chars = chars_of(message_text);
        if chars.len() == 0 || chars[0] != '!' {
            return None;
        }
        let start = skip_white(&chars, 0, chars.len());
        assert(chars@.subrange(0, chars@.len() as int) =~= chars@);
        assert(chars@.subrange(start as int, chars@.len() as int) =~= chars@.skip(start as int));
        if start == chars.len() {
            return None;
        }
        let end = skip_not_white(&chars, start, chars.len());
        let word = string_of(&chars, start, end);
        assert(word@ =~= chars@.skip(start as int).take(end - start));
        let name = lowercase(word.as_str());
        TwitchCommand::from_name(name.as_str())
    }
}

/// The argument of a command whose name takes the first `offset` bytes of
/// the message. The message is not cut within a character.
pub fn argument(message_text: &str, offset: usize) -> (word: String)
    requires
        is_char_boundary(message_text.spec_bytes(), offset as int),
    ensures
        word@ == argument_of(message_text@, offset as int),
{
    let (_, rest) = message_text.split_at(offset);
    proof {
        encode_utf8_decode_utf8(rest@);
        assert(rest.spec_bytes() =~= message_text.spec_bytes().skip(offset as int));
    }
    let chars = chars_of(rest);
    let start = skip_white(&chars, 0, chars.len());
    let end = skip_white_back(&chars, start, chars.len());
    let stop = find_char(&chars, start, end, ' ');
    proof {
        let all = chars@;
        assert(all.subrange(0, all.len() as int) =~= all);
        assert(all.subrange(start as int, all.len() as int) =~= all.skip(start as int));
        assert(all.subrange(start as int, end as int) =~= trimmed(all));
        assert(all.subrange(start as int, stop as int) =~= trimmed(all).take(stop - start));
    }
    string_of(&chars, start, stop)
}

/// The participant that a kick names.
pub fn kick_target(message_text: &str) -> (user: String)
    requires
        is_char_boundary(message_text.spec_bytes(), 5),
    ensures
        user@ == kick_target_of(message_text@),
{
    let word = argument(message_text, 5);
    let chars = chars_of(word.as_str());
    let start = skip_char(&chars, 0, chars.len(), '@');
    assert(chars@.subrange(0, chars@.len() as int) =~= chars@);
    let name = string_of(&chars, start, chars.len());
    assert(name@ =~= chars@.skip(start as int));
    lowercase(name.as_str())
}

/// Whether `word` writes a colour.
pub fn hex_colour(word: &str) -> (colour: bool)
    ensures
        colour == is_hex_colour(word@),
{
    let chars = chars_of(word);
    if chars.len() != 4 && chars.len() != 7 {
        return false;
    }
    if chars[0] != '#' {
        return false;
    }
    let mut i: usize = 1;
    while i < chars.len()
        invariant
            1 <= i <= chars@.len(),
            chars@ == word@,
            forall|j: int| 1 <= j < i ==> is_hex_digit(#[trigger] chars@[j]),
        decreases chars@.len() - i,
    {
        let c = chars[i];
        if !(('0' <= c && c <= '9') || ('a' <= c && c <= 'f') || ('A' <= c && c <= 'F')) {
            return false;
        }
        i += 1;
    }
    true
}

/// Whether one of the badges with these names marks a subscriber.
pub fn has_subscriber_badge(badges: &Vec<String>) -> (found: bool)
    ensures
        found == exists|i: int| 0 <= i < badges@.len() && is_subscriber_badge(#[trigger] badges@[i]@),
{
    let mut i: usize = 0;
    while i < badges.len()
        invariant
            i <= badges@.len(),
            forall|j: int| 0 <= j < i ==> !is_subscriber_badge(#[trigger] badges@[j]@),
        decreases badges@.len() - i,
    {
        if is(&badges[i], "founder") || is(&badges[i], "subscriber") {
            return true;
        }
        i += 1;
    }
    false
}

} // verus!

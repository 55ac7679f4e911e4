//! The bot's decisions.
//!
//! [`Bot::handle`] takes a command with the message that gave it and
//! answers with what is to be done: a text to send, a light to set, a
//! state of the queue to store. Doing it is the caller's part. The
//! contracts are stated over [`BotState`].

use crate::commands::{
    argument, argument_of, hex_colour, is_hex_colour, kick_target, kick_target_of, TwitchCommand,
};
use crate::queue_manager::{QueueManager, QueueSnapshot, QueueState, UserType};
use crate::replies::{
    addressed, addressed_to, game_in_progress_message, game_in_progress_reply,
    game_started_message, game_started_reply, guess_message, guess_reply, join_message,
    join_reply, kick_message, kick_reply, leave_message, leave_reply, next_message, next_reply,
    no_game_message, no_game_reply, queue_message, queue_reply,
};
use crate::text::names_of;
use crate::word_stonks::{hamming, GameState, GuessResult, WordStonksGame};
use vstd::prelude::*;
use vstd::string::StringSliceAdditionalSpecFns;
use vstd::utf8::{encode_utf8, is_char_boundary};

verus! {

/// What the caller is to do.
#[derive(Debug)]
pub enum Action {
    /// Nothing.
    Nothing,
    /// Send this text to the channel.
    Say(String),
    /// Send the text of this file, which ships with the program, to the
    /// channel.
    SayFile(&'static str),
    /// Set the light with this number to this colour.
    SetLight { light_id: u32, colour: String },
}

/// An [`Action`] as mathematical values.
pub enum ActionView {
    Nothing,
    Say(Seq<char>),
    SayFile(Seq<char>),
    SetLight { light_id: u32, colour: Seq<char> },
}

impl View for Action {
    type V = ActionView;

    open spec fn view(&self) -> ActionView {
        match self {
            Action::Nothing => ActionView::Nothing,
            Action::Say(text) => ActionView::Say(text@),
            Action::SayFile(name) => ActionView::SayFile(name@),
            Action::SetLight { light_id, colour } => ActionView::SetLight {
                light_id: *light_id,
                colour: colour@,
            },
        }
    }
}

/// What a command led to: what is to be done, and, where the queue has
/// changed, its new state, to be stored before anything is sent.
pub struct Outcome {
    pub action: Action,
    pub store: Option<QueueSnapshot>,
}

/// An [`Outcome`] as mathematical values.
pub struct OutcomeView {
    pub action: ActionView,
    pub store: Option<QueueState>,
}

impl View for Outcome {
    type V = OutcomeView;

    open spec fn view(&self) -> OutcomeView {
        OutcomeView {
            action: self.action@,
            store: match self.store {
                Some(stored) => Some(stored@),
                None => None,
            },
        }
    }
}

/// What a bot holds, as mathematical values.
pub struct BotState {
    /// The channel, which bears the name of its owner.
    pub channel_name: Seq<char>,
    /// The number of the light, where there is one.
    pub light_id: Option<u32>,
    /// The queue, where one is kept.
    pub queue: Option<QueueState>,
    /// The word game, where one is going on.
    pub game: Option<GameState>,
}

impl OutcomeView {
    /// Nothing is to be done.
    pub open spec fn nothing() -> OutcomeView {
        OutcomeView { action: ActionView::Nothing, store: None }
    }

    /// `text` is to be sent.
    pub open spec fn say(text: Seq<char>) -> OutcomeView {
        OutcomeView { action: ActionView::Say(text), store: None }
    }

    /// `text` is to be sent; if `changed` holds, `queue` is to be stored
    /// first.
    pub open spec fn say_and_store(text: Seq<char>, changed: bool, queue: QueueState) -> OutcomeView {
        OutcomeView {
            action: ActionView::Say(text),
            store: if changed {
                Some(queue)
            } else {
                None
            },
        }
    }
}

impl BotState {
    /// The class in which a sender joins.
    pub open spec fn class_of(subscriber: bool) -> UserType {
        if subscriber {
            UserType::Subscriber
        } else {
            UserType::Default
        }
    }

    /// The hidden word of the game that is going on.
    pub open spec fn hidden_word(self) -> Seq<char> {
        match self.game {
            Some(game) => game.word_to_guess,
            None => Seq::empty(),
        }
    }

    /// Whether `command` starts a game, for which a word is drawn.
    pub open spec fn draws(self, command: TwitchCommand) -> bool {
        command is WordStonks && self.game is None
    }

    /// The sender joins the queue, as a subscriber or not, and is told how
    /// that went.
    pub open spec fn join(self, sender: Seq<char>, subscriber: bool) -> (BotState, OutcomeView) {
        match self.queue {
            None => (self, OutcomeView::nothing()),
            Some(queue) => {
                let result = queue.join_result(sender);
                let after = queue.join(sender, Self::class_of(subscriber));
                (
                    BotState { queue: Some(after), ..self },
                    OutcomeView::say_and_store(
                        addressed_to(sender, join_message(result)),
                        result is Ok,
                        after,
                    ),
                )
            },
        }
    }

    /// The sender is told who waits.
    pub open spec fn show_queue(self, sender: Seq<char>) -> (BotState, OutcomeView) {
        match self.queue {
            None => (self, OutcomeView::nothing()),
            Some(queue) => (
                self,
                OutcomeView::say(addressed_to(sender, queue_message(queue.queue()))),
            ),
        }
    }

    /// The sender leaves the queue and is told how that went.
    pub open spec fn leave(self, sender: Seq<char>) -> (BotState, OutcomeView) {
        match self.queue {
            None => (self, OutcomeView::nothing()),
            Some(queue) => {
                let result = queue.leave_result(sender);
                let after = queue.leave(sender);
                (
                    BotState { queue: Some(after), ..self },
                    OutcomeView::say_and_store(
                        addressed_to(sender, leave_message(result)),
                        result is Ok,
                        after,
                    ),
                )
            },
        }
    }

    /// The owner of the channel has the next participant served. From
    /// anyone else the command is passed over.
    pub open spec fn next(self, sender: Seq<char>) -> (BotState, OutcomeView) {
        match self.queue {
            None => (self, OutcomeView::nothing()),
            Some(queue) => if sender != self.channel_name {
                (self, OutcomeView::nothing())
            } else {
                let after = queue.next();
                (
                    BotState { queue: Some(after), ..self },
                    OutcomeView::say_and_store(
                        addressed_to(sender, next_message(queue.head())),
                        queue.head() is Some,
                        after,
                    ),
                )
            },
        }
    }

    /// The owner of the channel has the participant that the message names
    /// taken out of the queue. From anyone else the command is passed over.
    pub open spec fn kick(self, sender: Seq<char>, message_text: Seq<char>) -> (
        BotState,
        OutcomeView,
    ) {
        match self.queue {
            None => (self, OutcomeView::nothing()),
            Some(queue) => if sender != self.channel_name {
                (self, OutcomeView::nothing())
            } else {
                let user = kick_target_of(message_text);
                let result = queue.leave_result(user);
                let after = queue.leave(user);
                (
                    BotState { queue: Some(after), ..self },
                    OutcomeView::say_and_store(
                        addressed_to(sender, kick_message(user, result)),
                        result is Ok,
                        after,
                    ),
                )
            },
        }
    }

    /// A game starts with `words` as vocabulary and `drawn` as hidden
    /// word, unless one is going on; either way the bounds are announced.
    pub open spec fn word_stonks(self, sender: Seq<char>, words: Seq<Seq<char>>, drawn: Seq<char>) -> (
        BotState,
        OutcomeView,
    ) {
        match self.game {
            None => {
                let game = GameState::with_word(words, drawn);
                (
                    BotState { game: Some(game), ..self },
                    OutcomeView::say(game_started_message(sender, game.interval)),
                )
            },
            Some(game) => (
                self,
                OutcomeView::say(game_in_progress_message(sender, game.interval)),
            ),
        }
    }

    /// The sender guesses the word that the message names and is told the
    /// game's answer. The right guess ends the game.
    pub open spec fn word_guess(self, sender: Seq<char>, message_text: Seq<char>) -> (
        BotState,
        OutcomeView,
    ) {
        match self.game {
            None => (self, OutcomeView::say(no_game_message(sender))),
            Some(game) => {
                let word = argument_of(message_text, 10);
                let result = game.guess_result(word);
                let after = game.guess(word);
                let distance = (hamming(game.word_to_guess, word) % 0x1_0000_0000) as u32;
                (
                    BotState {
                        game: if result is Correct {
                            None
                        } else {
                            Some(after)
                        },
                        ..self
                    },
                    OutcomeView::say(
                        addressed_to(sender, guess_message(word, result, after.interval, distance)),
                    ),
                )
            },
        }
    }

    /// The light is set to the colour that the message names, if there is
    /// a light and the message names a colour.
    pub open spec fn lights(self, message_text: Seq<char>) -> (BotState, OutcomeView) {
        match self.light_id {
            None => (self, OutcomeView::nothing()),
            Some(light_id) => {
                let colour = argument_of(message_text, 7);
                if is_hex_colour(colour) {
                    (
                        self,
                        OutcomeView {
                            action: ActionView::SetLight { light_id, colour },
                            store: None,
                        },
                    )
                } else {
                    (self, OutcomeView::nothing())
                }
            },
        }
    }

    /// The state after `command` and what it led to, where `drawn` is the
    /// word that was drawn if a game started.
    pub open spec fn respond(
        self,
        command: TwitchCommand,
        sender: Seq<char>,
        message_text: Seq<char>,
        subscriber: bool,
        words: Seq<Seq<char>>,
        drawn: Seq<char>,
    ) -> (BotState, OutcomeView) {
        match command {
            TwitchCommand::Join => self.join(sender, subscriber),
            TwitchCommand::Queue => self.show_queue(sender),
            TwitchCommand::Leave => self.leave(sender),
            TwitchCommand::Next => self.next(sender),
            TwitchCommand::Kick => self.kick(sender, message_text),
            TwitchCommand::ReplyWith(reply) => (
                self,
                OutcomeView::say(addressed_to(sender, reply@)),
            ),
            TwitchCommand::Broadcast(text) => (self, OutcomeView::say(text@)),
            TwitchCommand::BroadcastFile(name) => (
                self,
                OutcomeView { action: ActionView::SayFile(name@), store: None },
            ),
            TwitchCommand::WordGuess => self.word_guess(sender, message_text),
            TwitchCommand::WordStonks => self.word_stonks(sender, words, drawn),
            TwitchCommand::Lights => self.lights(message_text),
        }
    }

    /// Whether `command` can be carried out on this message: a command
    /// that reads its argument needs a message that can be cut behind the
    /// command's name, and a game that starts needs a word to hide.
    pub open spec fn accepts(
        self,
        command: TwitchCommand,
        sender: Seq<char>,
        message_text: Seq<char>,
        words: Seq<Seq<char>>,
    ) -> bool {
        match command {
            TwitchCommand::Kick => self.queue is Some && sender == self.channel_name
                ==> is_char_boundary(encode_utf8(message_text), 5),
            TwitchCommand::WordGuess => self.game is Some ==> is_char_boundary(
                encode_utf8(message_text),
                10,
            ),
            TwitchCommand::Lights => self.light_id is Some ==> is_char_boundary(
                encode_utf8(message_text),
                7,
            ),
            TwitchCommand::WordStonks => self.game is None ==> words.len() > 0,
            _ => true,
        }
    }
}

impl Outcome {
    fn nothing() -> (outcome: Outcome)
        ensures
            outcome@ == OutcomeView::nothing(),
    {
        Outcome { action: Action::Nothing, store: None }
    }

    fn say(text: String) -> (outcome: Outcome)
        ensures
            outcome@ == OutcomeView::say(text@),
    {
        Outcome { action: Action::Say(text), store: None }
    }

    fn say_and_store(text: String, changed: bool, queue: &QueueManager) -> (outcome: Outcome)
        ensures
            outcome@ == OutcomeView::say_and_store(text@, changed, queue@),
    {
        Outcome {
            action: Action::Say(text),
            store: if changed {
                Some(queue.snapshot())
            } else {
                None
            },
        }
    }
}

/// The bot: the channel it serves, and what it keeps for that channel.
pub struct Bot {
    channel_name: String,
    light_id: Option<u32>,
    queue_manager: Option<QueueManager>,
    word_stonks_game: Option<WordStonksGame>,
}

impl View for Bot {
    type V = BotState;

    closed spec fn view(&self) -> BotState {
        BotState {
            channel_name: self.channel_name@,
            light_id: self.light_id,
            queue: match self.queue_manager {
                Some(queue) => Some(queue@),
                None => None,
            },
            game: match self.word_stonks_game {
                Some(game) => Some(game@),
                None => None,
            },
        }
    }
}

impl Bot {
    /// A bot for the channel `channel_name`, with a queue and a light
    /// where they are given, and no game going on.
    pub fn new(channel_name: &str, queue_manager: Option<QueueManager>, light_id: Option<u32>) -> (bot:
        Bot)
        ensures
            bot@ == (BotState {
                channel_name: channel_name@,
                light_id,
                queue: match queue_manager {
                    Some(queue) => Some(queue@),
                    None => None,
                },
                game: None,
            }),
    {
        Bot {
            channel_name: channel_name.to_owned(),
            light_id,
            queue_manager,
            word_stonks_game: None,
        }
    }

    /// Whether a queue is kept.
    pub fn has_queue(&self) -> (kept: bool)
        ensures
            kept == self@.queue is Some,
    {
        self.queue_manager.is_some()
    }

    /// Whether a game is going on.
    pub fn has_game(&self) -> (going: bool)
        ensures
            going == self@.game is Some,
    {
        self.word_stonks_game.is_some()
    }

    /// Whether `sender` owns the channel.
    fn is_owner(&self, sender: &str) -> (owner: bool)
        ensures
            owner == (sender@ == self@.channel_name),
    {
        sender.to_owned() == self.channel_name
    }

    fn join(&mut self, sender: &str, subscriber: bool) -> (outcome: Outcome)
        ensures
            (final(self)@, outcome@) == old(self)@.join(sender@, subscriber),
    {
        match self.queue_manager.take() {
            None => Outcome::nothing(),
            Some(mut queue) => {
                let user_type = if subscriber {
                    UserType::Subscriber
                } else {
                    UserType::Default
                };
                let result = queue.join(sender, user_type);
                let outcome = Outcome::say_and_store(
                    addressed(sender, join_reply(result)),
                    result.is_ok(),
                    &queue,
                );
                self.queue_manager = Some(queue);
                outcome
            },
        }
    }

    fn show_queue(&self, sender: &str) -> (outcome: Outcome)
        ensures
            (self@, outcome@) == self@.show_queue(sender@),
    {
        match &self.queue_manager {
            None => Outcome::nothing(),
            Some(queue) => {
                let names = queue.queue();
                Outcome::say(addressed(sender, queue_reply(&names).as_str()))
            },
        }
    }

    fn leave(&mut self, sender: &str) -> (outcome: Outcome)
        ensures
            (final(self)@, outcome@) == old(self)@.leave(sender@),
    {
        match self.queue_manager.take() {
            None => Outcome::nothing(),
            Some(mut queue) => {
                let result = queue.leave(sender);
                let outcome = Outcome::say_and_store(
                    addressed(sender, leave_reply(result)),
                    result.is_ok(),
                    &queue,
                );
                self.queue_manager = Some(queue);
                outcome
            },
        }
    }

    fn next(&mut self, sender: &str) -> (outcome: Outcome)
        ensures
            (final(self)@, outcome@) == old(self)@.next(sender@),
    {
        if !self.is_owner(sender) {
            return Outcome::nothing();
        }
        match self.queue_manager.take() {
            None => Outcome::nothing(),
            Some(mut queue) => {
                let served = queue.next();
                let outcome = Outcome::say_and_store(
                    addressed(sender, next_reply(&served).as_str()),
                    served.is_some(),
                    &queue,
                );
                self.queue_manager = Some(queue);
                outcome
            },
        }
    }

    fn kick(&mut self, sender: &str, message_text: &str) -> (outcome: Outcome)
        requires
            old(self)@.queue is Some && sender@ == old(self)@.channel_name ==> is_char_boundary(
                message_text.spec_bytes(),
                5,
            ),
        ensures
            (final(self)@, outcome@) == old(self)@.kick(sender@, message_text@),
    {
        if !self.is_owner(sender) {
            return Outcome::nothing();
        }
        match self.queue_manager.take() {
            None => Outcome::nothing(),
            Some(mut queue) => {
                let user = kick_target(message_text);
                let result = queue.kick(user.as_str());
                let outcome = Outcome::say_and_store(
                    addressed(sender, kick_reply(user.as_str(), result).as_str()),
                    result.is_ok(),
                    &queue,
                );
                self.queue_manager = Some(queue);
                outcome
            },
        }
    }

    fn word_stonks(&mut self, sender: &str, vocabulary: &Vec<String>) -> (outcome: Outcome)
        requires
            old(self)@.game is None ==> vocabulary@.len() > 0,
        ensures
            (final(self)@, outcome@) == old(self)@.word_stonks(
                sender@,
                names_of(vocabulary@),
                final(self)@.hidden_word(),
            ),
            old(self)@.game is None ==> names_of(vocabulary@).contains(
                final(self)@.hidden_word(),
            ),
    {
        match &self.word_stonks_game {
            None => {
                let game = WordStonksGame::from_words(copy_of(vocabulary));
                let message = game_started_reply(sender, game.current_word_interval());
                self.word_stonks_game = Some(game);
                Outcome::say(message)
            },
            Some(game) => Outcome::say(game_in_progress_reply(sender, game.current_word_interval())),
        }
    }

    fn word_guess(&mut self, sender: &str, message_text: &str) -> (outcome: Outcome)
        requires
            old(self)@.game is Some ==> is_char_boundary(message_text.spec_bytes(), 10),
        ensures
            (final(self)@, outcome@) == old(self)@.word_guess(sender@, message_text@),
    {
        match self.word_stonks_game.take() {
            None => Outcome::say(no_game_reply(sender)),
            Some(mut game) => {
                let word = argument(message_text, 10);
                let result = game.guess(word.as_str());
                let distance = match result {
                    GuessResult::Incorrect(_) => game.hamming_distance(word.clone()),
                    _ => 0,
                };
                let message = guess_reply(
                    word.as_str(),
                    &result,
                    game.current_word_interval(),
                    distance,
                );
                match result {
                    GuessResult::Correct => {},
                    _ => {
                        self.word_stonks_game = Some(game);
                    },
                }
                Outcome::say(addressed(sender, message.as_str()))
            },
        }
    }

    fn lights(&self, message_text: &str) -> (outcome: Outcome)
        requires
            self@.light_id is Some ==> is_char_boundary(message_text.spec_bytes(), 7),
        ensures
            (self@, outcome@) == self@.lights(message_text@),
    {
        match self.light_id {
            None => Outcome::nothing(),
            Some(light_id) => {
                let colour = argument(message_text, 7);
                if hex_colour(colour.as_str()) {
                    Outcome { action: Action::SetLight { light_id, colour }, store: None }
                } else {
                    Outcome::nothing()
                }
            },
        }
    }

    /// Carries out `command`, which the message `message_text` of `sender`
    /// gave: changes the state and answers with what is to be done.
    /// `subscriber` says whether the sender is a subscriber of the channel,
    /// and `vocabulary` holds the words of which a new game hides one.
    pub fn handle(
        &mut self,
        command: TwitchCommand,
        sender: &str,
        message_text: &str,
        subscriber: bool,
        vocabulary: &Vec<String>,
    ) -> (outcome: Outcome)
        requires
            old(self)@.accepts(command, sender@, message_text@, names_of(vocabulary@)),
        ensures
            (final(self)@, outcome@) == old(self)@.respond(
                command,
                sender@,
                message_text@,
                subscriber,
                names_of(vocabulary@),
                final(self)@.hidden_word(),
            ),
            old(self)@.draws(command) ==> names_of(vocabulary@).contains(
                final(self)@.hidden_word(),
            ),
    {
        match command {
            TwitchCommand::Join => self.join(sender, subscriber),
            TwitchCommand::Queue => self.show_queue(sender),
            TwitchCommand::Leave => self.leave(sender),
            TwitchCommand::Next => self.next(sender),
            TwitchCommand::Kick => self.kick(sender, message_text),
            TwitchCommand::ReplyWith(reply) => Outcome::say(addressed(sender, reply)),
            TwitchCommand::Broadcast(text) => Outcome::say(text.to_owned()),
            TwitchCommand::BroadcastFile(name) => Outcome {
                action: Action::SayFile(name),
                store: None,
            },
            TwitchCommand::WordGuess => self.word_guess(sender, message_text),
            TwitchCommand::WordStonks => self.word_stonks(sender, vocabulary),
            TwitchCommand::Lights => self.lights(message_text),
        }
    }

    /// Carries out `command` as [`Bot::handle`] does, where it can be
    /// carried out on this message; else answers with nothing and leaves
    /// the state as it is.
    pub fn try_handle(
        &mut self,
        command: TwitchCommand,
        sender: &str,
        message_text: &str,
        subscriber: bool,
        vocabulary: &Vec<String>,
    ) -> (outcome: Option<Outcome>)
        ensures
            outcome is Some <==> old(self)@.accepts(
                command,
                sender@,
                message_text@,
                names_of(vocabulary@),
            ),
            outcome is None ==> final(self)@ == old(self)@,
            outcome matches Some(outcome) ==> {
                &&& (final(self)@, outcome@) == old(self)@.respond(
                    command,
                    sender@,
                    message_text@,
                    subscriber,
                    names_of(vocabulary@),
                    final(self)@.hidden_word(),
                )
                &&& old(self)@.draws(command) ==> names_of(vocabulary@).contains(
                    final(self)@.hidden_word(),
                )
            },
    {
        let accepted = match command {
            TwitchCommand::Kick => !(self.has_queue() && self.is_owner(sender))
                || message_text.is_char_boundary(5),
            TwitchCommand::WordGuess => !self.has_game() || message_text.is_char_boundary(10),
            TwitchCommand::Lights => self.light_id.is_none() || message_text.is_char_boundary(7),
            TwitchCommand::WordStonks => self.has_game() || vocabulary.len() > 0,
            _ => true,
        };
        if accepted {
            Some(self.handle(command, sender, message_text, subscriber, vocabulary))
        } else {
            None
        }
    }
}

/// Copies of `words`, in the same order.
fn copy_of(words: &Vec<String>) -> (copy: Vec<String>)
    ensures
        copy@ == words@,
{
    let mut copy: Vec<String> = Vec::new();
    let mut i: usize = 0;
    while i < words.len()
        invariant
            i <= words@.len(),
            copy@ == words@.take(i as int),
        decreases words@.len() - i,
    {
        copy.push(words[i].clone());
        assert(copy@ =~= words@.take(i + 1));
        i += 1;
    }
    assert(words@.take(i as int) =~= words@);
    copy
}

} // verus!

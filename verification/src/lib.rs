//! A chat bot's waiting list, word game and commands, with machine-checked
//! contracts.
//!
//! * [`queue_manager`] holds the participant queue: two priority classes
//!   served subscribers first, a fixed capacity, and snapshots of the state.
//!   [`queue_laws`] states what holds of every queue, as proof functions.
//! * [`word_stonks`] is the word guessing game, and [`word_laws`] states
//!   what holds of every game.
//! * [`commands`] tells which command a chat message gives, [`replies`]
//!   words the answers, and [`bot`] decides what each command leads to.
//! * [`text`] holds what they need of strings: order, lines, words and
//!   case. [`token`] holds the times of a login token.
//!
//! Nothing here reads a file, a clock or a network: the program around the
//! library does, and hands over plain values.

pub mod bot;
pub mod commands;
pub mod queue_laws;
pub mod queue_manager;
pub mod replies;
pub mod text;
pub mod token;
pub mod word_laws;
pub mod word_stonks;

//! Wordler: a verified core for a word-guessing game.
//!
//! The library holds the guess comparator, the session state machine,
//! command parsing and the word selector; a thin unverified shell does
//! the terminal I/O around it.

pub mod command;
pub mod error;
pub mod game;
pub mod guess;
pub mod text;
pub mod words;

pub use command::Command;
pub use error::Error;
pub use error::ErrorKind;
pub use game::Game;
pub use game::Reply;
pub use game::State;
pub use guess::Guess;
pub use guess::GuessChar;
pub use guess::compare;

//! Parsing of one trimmed input line into a meta-command or a guess.

use vstd::prelude::*;
use vstd::string::StrSliceExecFns;

use crate::error::Error;
use crate::error::ErrorKind;
use crate::text::str_eq;

verus! {

/// One parsed input line: a `/`-prefixed meta-command, or a guess.
#[derive(PartialEq, Eq, Debug)]
pub enum Command {
    /// Any line not starting with `/`, taken verbatim as a guess.
    Guess(String),
    /// `/help`: print the usage text.
    Help,
    /// `/letters`: print the letters not yet tried.
    Letters,
    /// `/exit`: end the session.
    Exit,
}

impl Command {
    /// Parse one trimmed input line. The three known meta-commands map
    /// to their variants; any other line starting with `/` is an
    /// invalid command; everything else is a guess, kept verbatim.
    pub fn from_str(com: &str) -> (r: Result<Command, Error>)
        ensures
            com@ == "/help"@ ==> r == Ok::<Command, Error>(Command::Help),
            com@ == "/letters"@ ==> r == Ok::<Command, Error>(Command::Letters),
            com@ == "/exit"@ ==> r == Ok::<Command, Error>(Command::Exit),
            com@ != "/help"@ && com@ != "/letters"@ && com@ != "/exit"@ && com@.len() > 0
                && com@[0] == '/' ==> (r matches Err(e) && e.kind is InvalidCommand),
            com@.len() == 0 || com@[0] != '/' ==> (r matches Ok(c) && c matches Command::Guess(g)
                && g@ == com@),
    {
        proof {
            reveal_strlit("/help");
            reveal_strlit("/letters");
            reveal_strlit("/exit");
            assert("/help"@ != "/exit"@) by {
                assert("/help"@[1] == 'h');
                assert("/exit"@[1] == 'e');
            }
            assert("/help"@.len() == 5 && "/letters"@.len() == 8 && "/exit"@.len() == 5);
        }
        if str_eq(com, "/help") {
            Ok(Command::Help)
        } else if str_eq(com, "/letters") {
            Ok(Command::Letters)
        } else if str_eq(com, "/exit") {
            Ok(Command::Exit)
        } else if com.unicode_len() > 0 && com.get_char(0) == '/' {
            Err(Error::from(ErrorKind::InvalidCommand))
        } else {
            Ok(Command::Guess(com.to_owned()))
        }
    }
}

} // verus!

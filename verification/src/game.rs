//! The session state machine: the secret word, used-letter tracking,
//! and the evaluation of one parsed command per turn.

use vstd::prelude::*;
use vstd::string::StringExecFns;

use crate::command::Command;
use crate::error::Error;
use crate::error::ErrorKind;
use crate::guess::Guess;
use crate::guess::all_correct;
use crate::guess::all_correct_vec;
use crate::guess::compare;
use crate::guess::compare_spec;
use crate::guess::lemma_winning_iff_equal;
use crate::text::chars_of;
use crate::words::lines_of;
use crate::words::pick_word;

verus! {

/// The session's lifecycle: it starts `Playing`; a winning guess moves
/// it to `Won`; the exit command moves it to `Terminated`; both are
/// terminal.
#[derive(PartialEq, Eq, Structural, Clone, Copy, Debug)]
pub enum State {
    Playing,
    Won,
    Terminated,
}

/// What one evaluation step asks the shell to show.
#[derive(PartialEq, Eq, Debug)]
pub enum Reply {
    /// Print the usage text.
    Help,
    /// Print the given letters, space-separated.
    Letters(Vec<char>),
    /// Print the rendered guess result.
    Report(Guess),
    /// Print the rendered guess result and the celebration line.
    Winning(Guess),
    /// Print the error's message; the session continues.
    Rejected(Error),
    /// Nothing to print; the session ends.
    Exit,
}

/// The lowercase letter at alphabet position `i` (position 0 is 'a').
pub open spec fn letter_at(i: int) -> char {
    (97 + i) as char
}

/// Whether `c` is a lowercase letter.
pub open spec fn is_lower(c: char) -> bool {
    'a' <= c && c <= 'z'
}

/// The alphabet position of a lowercase letter.
pub open spec fn letter_index(c: char) -> int {
    c as int - 97
}

/// The used-letter flags after marking every letter of the guess.
pub open spec fn mark_used(u: Seq<bool>, g: Seq<char>) -> Seq<bool> {
    Seq::new(u.len(), |i: int| u[i] || g.contains(letter_at(i)))
}

/// Law: a letter contained in a marked guess is flagged used, so the
/// untried-letter hint excludes every letter of any guess that passed
/// length validation.
pub proof fn lemma_guessed_letter_marked(u: Seq<bool>, g: Seq<char>, c: char)
    requires
        u.len() == 26,
        g.contains(c),
        is_lower(c),
    ensures
        mark_used(u, g)[letter_index(c)],
{
    assert(letter_at(letter_index(c)) == c);
}

/// One game session: the secret word, the lifecycle state, and one
/// used flag per letter of the alphabet.
pub struct Game {
    /// The secret word the player needs to guess.
    pub word: Vec<char>,
    /// The session lifecycle state.
    pub state: State,
    /// For each alphabet position, whether that letter appeared in a
    /// guess that passed length validation.
    pub used_letters: Vec<bool>,
}

impl Game {
    /// The session carries one used flag per letter of the alphabet.
    pub open spec fn wf(self) -> bool {
        self.used_letters@.len() == 26
    }

    /// Form a new game from a newline-delimited dictionary: one line,
    /// picked at random, becomes the secret word ("fudge" when the
    /// dictionary has no lines); no letter is used yet; the session is
    /// playing.
    pub fn from(dict: String) -> (r: Game)
        ensures
            r.wf(),
            r.state == State::Playing,
            forall|j: int| 0 <= j < 26 ==> !r.used_letters@[j],
            lines_of(dict@).len() == 0 ==> r.word@ == "fudge"@,
            lines_of(dict@).len() > 0 ==> exists|i: int|
                0 <= i < lines_of(dict@).len() && r.word@ == lines_of(dict@)[i],
    {
        let word = pick_word(dict.as_str());
        let mut used: Vec<bool> = Vec::new();
        let mut i: usize = 0;
        while i < 26
            invariant
                0 <= i <= 26,
                used@.len() == i,
                forall|j: int| 0 <= j < i ==> !used@[j],
            decreases 26 - i,
        {
            used.push(false);
            i += 1;
        }
        Game { word, state: State::Playing, used_letters: used }
    }

    /// The static usage text for the `/help` command.
    pub fn help(&self) -> (r: String)
        ensures
            r@ == "Welcome to Wordler!\nA Wordle REPL thingy. Can you guess the five letter word?\n\nCOMMANDS:\n\t/help\tPrints this help text.\n\t/letters\tShows the letters that have not been tried yet.\n\t/exit\tExits the game."@,
    {
        String::from_str(
            "Welcome to Wordler!\nA Wordle REPL thingy. Can you guess the five letter word?\n\nCOMMANDS:\n\t/help\tPrints this help text.\n\t/letters\tShows the letters that have not been tried yet.\n\t/exit\tExits the game.",
        )
    }

    /// The letters not yet tried, in ascending order: exactly those
    /// lowercase letters whose used flag is unset.
    pub fn letters(&self) -> (r: Vec<char>)
        requires
            self.wf(),
        ensures
            forall|k1: int, k2: int| 0 <= k1 < k2 < r@.len() ==> r@[k1] < r@[k2],
            forall|c: char|
                #[trigger] r@.contains(c) <==> (is_lower(c)
                    && !self.used_letters@[letter_index(c)]),
    {
        let mut r: Vec<char> = Vec::new();
        let mut i: usize = 0;
        while i < 26
            invariant
                self.wf(),
                0 <= i <= 26,
                forall|k: int| 0 <= k < r@.len() ==> is_lower(#[trigger] r@[k]) && letter_index(
                    r@[k],
                ) < i,
                forall|k1: int, k2: int| 0 <= k1 < k2 < r@.len() ==> r@[k1] < r@[k2],
                forall|j: int| 0 <= j < i ==> (#[trigger] r@.contains(letter_at(j))
                    <==> !self.used_letters@[j]),
            decreases 26 - i,
        {
            let ghost r0 = r@;
            if !self.used_letters[i] {
                r.push((97 + i as u8) as char);
                proof {
                    assert(r@[r0.len() as int] == letter_at(i as int));
                    assert forall|j: int| 0 <= j < i + 1 implies (#[trigger] r@.contains(
                        letter_at(j),
                    ) <==> !self.used_letters@[j]) by {
                        if j < i {
                            if r0.contains(letter_at(j)) {
                                let k = choose|k: int|
                                    0 <= k < r0.len() && r0[k] == letter_at(j);
                                assert(r@[k] == letter_at(j));
                            }
                            if r@.contains(letter_at(j)) {
                                let k = choose|k: int|
                                    0 <= k < r@.len() && r@[k] == letter_at(j);
                                if k < r0.len() {
                                    assert(r0[k] == letter_at(j));
                                }
                            }
                        }
                    }
                }
            } else {
                proof {
                    assert forall|j: int| 0 <= j < i + 1 implies (#[trigger] r@.contains(
                        letter_at(j),
                    ) <==> !self.used_letters@[j]) by {
                        if j == i && r@.contains(letter_at(j)) {
                            let k = choose|k: int| 0 <= k < r@.len() && r@[k] == letter_at(j);
                        }
                    }
                }
            }
            i += 1;
        }
        proof {
            assert forall|c: char| #[trigger] r@.contains(c) implies (is_lower(c)
                && !self.used_letters@[letter_index(c)]) by {
                let k = choose|k: int| 0 <= k < r@.len() && r@[k] == c;
                assert(is_lower(r@[k]));
                assert(r@.contains(letter_at(letter_index(c))));
            }
            assert forall|c: char|
                is_lower(c) && !self.used_letters@[letter_index(c)] implies #[trigger] r@.contains(
                c,
            ) by {
                assert(letter_at(letter_index(c)) == c);
            }
        }
        r
    }

    /// Mark every lowercase letter of the guess as used.
    fn mark_letters(&mut self, g: &Vec<char>)
        requires
            old(self).wf(),
        ensures
            final(self).wf(),
            final(self).word == old(self).word,
            final(self).state == old(self).state,
            final(self).used_letters@ == mark_used(old(self).used_letters@, g@),
    {
        let mut i: usize = 0;
        while i < g.len()
            invariant
                self.wf(),
                self.word == old(self).word,
                self.state == old(self).state,
                0 <= i <= g@.len(),
                self.used_letters@ =~= mark_used(old(self).used_letters@, g@.take(i as int)),
            decreases g@.len() - i,
        {
            let ghost u0 = self.used_letters@;
            let ghost t0 = g@.take(i as int);
            let ghost t1 = g@.take(i + 1 as int);
            let c = g[i];
            proof {
                assert(t1 =~= t0.push(c));
            }
            if c >= 'a' && c <= 'z' {
                let idx = ((c as u32) - 97) as usize;
                self.used_letters[idx] = true;
            }
            proof {
                let u = old(self).used_letters@;
                assert forall|j: int| 0 <= j < 26 implies #[trigger] self.used_letters@[j] == (
                u[j] || t1.contains(letter_at(j))) by {
                    let lc = letter_at(j);
                    assert(is_lower(lc) && letter_index(lc) == j);
                    if t0.contains(lc) {
                        let k = choose|k: int| 0 <= k < t0.len() && t0[k] == lc;
                        assert(t1[k] == lc);
                    }
                    if t1.contains(lc) && !t0.contains(lc) {
                        let k = choose|k: int| 0 <= k < t1.len() && t1[k] == lc;
                        if k < t0.len() {
                            assert(t0[k] == lc);
                        } else {
                            assert(lc == c);
                        }
                    }
                    if is_lower(c) && j == letter_index(c) {
                        assert(lc == c);
                        assert(t1[t0.len() as int] == c);
                    }
                }
                assert(self.used_letters@ =~= mark_used(u, t1));
            }
            i += 1;
        }
        proof {
            assert(g@.take(g@.len() as int) =~= g@);
        }
    }

    /// Evaluate a guess against the secret word, under the strict
    /// length policy: a guess of other than five characters is
    /// rejected and nothing is compared or marked. An accepted guess
    /// first marks every one of its letters as used, then classifies
    /// each position against the secret word.
    pub fn guess(&mut self, guess: String) -> (r: Result<Guess, Error>)
        requires
            old(self).wf(),
        ensures
            final(self).wf(),
            final(self).word == old(self).word,
            final(self).state == old(self).state,
            guess@.len() != 5 ==> final(self).used_letters == old(self).used_letters,
            guess@.len() < 5 ==> (r matches Err(e) && e.kind is GuessTooShort),
            guess@.len() > 5 ==> (r matches Err(e) && e.kind is GuessTooLong),
            guess@.len() == 5 ==> final(self).used_letters@ == mark_used(
                old(self).used_letters@,
                guess@,
            ),
            guess@.len() == 5 && old(self).word@.len() >= 5 ==> (r matches Ok(g) && g.inner@
                == compare_spec(old(self).word@, guess@)),
            guess@.len() == 5 && old(self).word@.len() < 5 ==> (r matches Err(e)
                && e.kind is GuessTooLong),
    {
        let g = chars_of(guess.as_str());
        if g.len() < 5 {
            return Err(Error::from(ErrorKind::GuessTooShort));
        }
        if g.len() > 5 {
            return Err(Error::from(ErrorKind::GuessTooLong));
        }
        self.mark_letters(&g);
        if self.word.len() < g.len() {
            return Err(Error::from(ErrorKind::GuessTooLong));
        }
        Ok(compare(&self.word, &g))
    }

    /// Evaluate one parsed command in the playing state: a winning
    /// guess moves the session to `Won`, the exit command to
    /// `Terminated`, and everything else leaves it playing; the reply
    /// says what the shell should show.
    pub fn eval(&mut self, cmd: Command) -> (r: Reply)
        requires
            old(self).wf(),
            old(self).state == State::Playing,
        ensures
            final(self).wf(),
            final(self).word == old(self).word,
            cmd == Command::Help ==> *final(self) == *old(self) && r == Reply::Help,
            cmd == Command::Letters ==> *final(self) == *old(self) && (r matches Reply::Letters(l)
                && (forall|k1: int, k2: int| 0 <= k1 < k2 < l@.len() ==> l@[k1] < l@[k2]) && (
            forall|c: char|
                #[trigger] l@.contains(c) <==> (is_lower(c)
                    && !old(self).used_letters@[letter_index(c)]))),
            cmd == Command::Exit ==> r == Reply::Exit && final(self).state == State::Terminated
                && final(self).used_letters == old(self).used_letters,
            cmd matches Command::Guess(g) ==> {
                &&& g@.len() != 5 ==> final(self).used_letters == old(self).used_letters
                &&& g@.len() == 5 ==> final(self).used_letters@ == mark_used(
                    old(self).used_letters@,
                    g@,
                )
                &&& g@.len() < 5 ==> (r matches Reply::Rejected(e) && e.kind is GuessTooShort
                    && final(self).state == State::Playing)
                &&& g@.len() > 5 ==> (r matches Reply::Rejected(e) && e.kind is GuessTooLong
                    && final(self).state == State::Playing)
                &&& g@.len() == 5 && old(self).word@.len() < 5 ==> (r matches Reply::Rejected(e)
                    && e.kind is GuessTooLong && final(self).state == State::Playing)
                &&& g@.len() == 5 && old(self).word@.len() >= 5 && !all_correct(
                    compare_spec(old(self).word@, g@),
                ) ==> (r matches Reply::Report(gu) && gu.inner@ == compare_spec(
                    old(self).word@,
                    g@,
                ) && final(self).state == State::Playing)
                &&& g@.len() == 5 && old(self).word@.len() >= 5 && all_correct(
                    compare_spec(old(self).word@, g@),
                ) ==> (r matches Reply::Winning(gu) && gu.inner@ == compare_spec(
                    old(self).word@,
                    g@,
                ) && final(self).state == State::Won)
                &&& g@ == old(self).word@ && g@.len() == 5 ==> final(self).state == State::Won
            },
    {
        match cmd {
            Command::Help => Reply::Help,
            Command::Letters => Reply::Letters(self.letters()),
            Command::Exit => {
                self.state = State::Terminated;
                Reply::Exit
            },
            Command::Guess(g) => {
                proof {
                    if g@ == old(self).word@ {
                        lemma_winning_iff_equal(old(self).word@, g@);
                    }
                }
                match self.guess(g) {
                    Ok(gu) => {
                        if all_correct_vec(&gu.inner) {
                            self.state = State::Won;
                            Reply::Winning(gu)
                        } else {
                            Reply::Report(gu)
                        }
                    },
                    Err(e) => Reply::Rejected(e),
                }
            },
        }
    }
}

} // verus!

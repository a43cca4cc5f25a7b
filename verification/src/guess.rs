//! The guess comparator: classifies each character of a guess against
//! the secret word and renders the classification as a row of glyphs.

use vstd::prelude::*;
use vstd::string::StringExecFns;

verus! {

/// Per-character classification of a guess against the secret word.
#[derive(PartialEq, Eq, Structural, Clone, Copy, Debug)]
pub enum GuessChar {
    /// The character does not appear in the secret word at all.
    Absent,
    /// The character appears in the secret word, but not at this position.
    OutOfPlace,
    /// The character equals the secret word's character at this position.
    Correct,
    /// The guess is longer than the secret word and this position lies
    /// beyond the secret word's end.
    OutOfBounds,
}

/// The classification of position `i` of `guess` against `secret`:
/// beyond the secret's end it is `OutOfBounds`; a positional match is
/// `Correct`; a character the secret contains elsewhere is `OutOfPlace`;
/// anything else is `Absent`. Each position is classified independently:
/// a repeated guess character is not reconciled against a single
/// occurrence in the secret.
pub open spec fn outcome_at(secret: Seq<char>, guess: Seq<char>, i: int) -> GuessChar {
    if i >= secret.len() {
        GuessChar::OutOfBounds
    } else if guess[i] == secret[i] {
        GuessChar::Correct
    } else if secret.contains(guess[i]) {
        GuessChar::OutOfPlace
    } else {
        GuessChar::Absent
    }
}

/// The full classification sequence: one outcome per guess character,
/// in guess order.
pub open spec fn compare_spec(secret: Seq<char>, guess: Seq<char>) -> Seq<GuessChar> {
    Seq::new(guess.len(), |i: int| outcome_at(secret, guess, i))
}

/// Every element of the result is `Correct`.
pub open spec fn all_correct(s: Seq<GuessChar>) -> bool {
    forall|i: int| 0 <= i < s.len() ==> s[i] == GuessChar::Correct
}

/// The glyph that renders one classification.
pub open spec fn glyph(gc: GuessChar) -> char {
    match gc {
        GuessChar::Absent => '⬛',
        GuessChar::OutOfPlace => '🟨',
        GuessChar::Correct => '🟩',
        GuessChar::OutOfBounds => '❌',
    }
}

/// The rendering of a classification sequence: one glyph per outcome,
/// in order.
pub open spec fn rendered(s: Seq<GuessChar>) -> Seq<char> {
    s.map_values(|gc: GuessChar| glyph(gc))
}

/// A complete guessed word: one `GuessChar` per character of the guess.
#[derive(PartialEq, Eq, Debug)]
pub struct Guess {
    pub inner: Vec<GuessChar>,
}

/// Whether every element of `v` is `Correct`.
pub fn all_correct_vec(v: &Vec<GuessChar>) -> (r: bool)
    ensures
        r == all_correct(v@),
{
    let mut i: usize = 0;
    while i < v.len()
        invariant
            0 <= i <= v@.len(),
            forall|j: int| 0 <= j < i ==> v@[j] == GuessChar::Correct,
        decreases v@.len() - i,
    {
        if v[i] != GuessChar::Correct {
            return false;
        }
        i += 1;
    }
    true
}

impl From<Vec<GuessChar>> for Guess {
    /// Wrap a classification sequence into a `Guess`.
    fn from(guess: Vec<GuessChar>) -> (r: Self)
        ensures
            r == (Guess { inner: guess }),
    {
        Self { inner: guess }
    }
}

impl vstd::std_specs::convert::FromSpecImpl<Vec<GuessChar>> for Guess {
    open spec fn obeys_from_spec() -> bool {
        true
    }

    open spec fn from_spec(guess: Vec<GuessChar>) -> Self {
        Guess { inner: guess }
    }
}

impl Guess {
    /// A guess is winning exactly when every character is `Correct`.
    pub fn correct(self) -> (r: bool)
        ensures
            r == all_correct(self.inner@),
    {
        all_correct_vec(&self.inner)
    }

    /// Render the guess as a row of glyphs, one per classified character.
    pub fn render(&self) -> (r: String)
        ensures
            r@ == rendered(self.inner@),
    {
        let mut s = String::new();
        let mut i: usize = 0;
        while i < self.inner.len()
            invariant
                0 <= i <= self.inner@.len(),
                s@ == rendered(self.inner@.take(i as int)),
            decreases self.inner@.len() - i,
        {
            proof {
                reveal_strlit("⬛");
                reveal_strlit("🟨");
                reveal_strlit("🟩");
                reveal_strlit("❌");
            }
            match self.inner[i] {
                GuessChar::Absent => s.append("⬛"),
                GuessChar::OutOfPlace => s.append("🟨"),
                GuessChar::Correct => s.append("🟩"),
                GuessChar::OutOfBounds => s.append("❌"),
            }
            proof {
                assert(s@ =~= rendered(self.inner@.take(i + 1 as int)));
            }
            i += 1;
        }
        proof {
            assert(self.inner@.take(self.inner@.len() as int) =~= self.inner@);
        }
        s
    }
}

/// Whether `w` contains the character `c`.
fn contains_char(w: &Vec<char>, c: char) -> (r: bool)
    ensures
        r == w@.contains(c),
{
    let mut i: usize = 0;
    while i < w.len()
        invariant
            0 <= i <= w@.len(),
            forall|j: int| 0 <= j < i ==> w@[j] != c,
        decreases w@.len() - i,
    {
        if w[i] == c {
            return true;
        }
        i += 1;
    }
    false
}

/// Compare a guess, character by character, against the secret word.
///
/// Permissive about lengths: positions up to the shorter length are
/// classified, guess positions beyond the secret's end are marked
/// `OutOfBounds`, and the result always has one outcome per guess
/// character.
pub fn compare(secret: &Vec<char>, guess: &Vec<char>) -> (r: Guess)
    ensures
        r.inner@ == compare_spec(secret@, guess@),
{
    let mut out: Vec<GuessChar> = Vec::new();
    let mut i: usize = 0;
    while i < guess.len()
        invariant
            0 <= i <= guess@.len(),
            out@.len() == i,
            forall|j: int| 0 <= j < i ==> out@[j] == outcome_at(secret@, guess@, j),
        decreases guess@.len() - i,
    {
        let c = guess[i];
        let gc = if i >= secret.len() {
            GuessChar::OutOfBounds
        } else if c == secret[i] {
            GuessChar::Correct
        } else if contains_char(secret, c) {
            GuessChar::OutOfPlace
        } else {
            GuessChar::Absent
        };
        out.push(gc);
        i += 1;
    }
    proof {
        assert(out@ =~= compare_spec(secret@, guess@));
    }
    Guess { inner: out }
}

/// Law: a position is classified `Correct` exactly when the guess
/// character equals the secret character at that position.
pub proof fn lemma_correct_iff_match(secret: Seq<char>, guess: Seq<char>, i: int)
    requires
        0 <= i < guess.len(),
        i < secret.len(),
    ensures
        compare_spec(secret, guess)[i] == GuessChar::Correct <==> guess[i] == secret[i],
{
}

/// Law: at a position where the guess character differs from the secret
/// character, the classification is `OutOfPlace` exactly when the secret
/// contains the guess character anywhere, and `Absent` otherwise.
pub proof fn lemma_mismatch_classification(secret: Seq<char>, guess: Seq<char>, i: int)
    requires
        0 <= i < guess.len(),
        i < secret.len(),
        guess[i] != secret[i],
    ensures
        compare_spec(secret, guess)[i] == GuessChar::OutOfPlace <==> secret.contains(guess[i]),
        compare_spec(secret, guess)[i] == GuessChar::Absent <==> !secret.contains(guess[i]),
{
}

/// Law: every guess position beyond the secret's length is classified
/// `OutOfBounds`.
pub proof fn lemma_beyond_secret_out_of_bounds(secret: Seq<char>, guess: Seq<char>, i: int)
    requires
        secret.len() <= i < guess.len(),
    ensures
        compare_spec(secret, guess)[i] == GuessChar::OutOfBounds,
{
}

/// Law: for a guess of the secret's length, the comparison is winning
/// (all `Correct`) exactly when the guess equals the secret; in
/// particular, comparing the secret against itself is all `Correct`.
pub proof fn lemma_winning_iff_equal(secret: Seq<char>, guess: Seq<char>)
    requires
        secret.len() == guess.len(),
    ensures
        all_correct(compare_spec(secret, guess)) <==> guess == secret,
{
    if all_correct(compare_spec(secret, guess)) {
        assert forall|i: int| 0 <= i < guess.len() implies guess[i] == secret[i] by {
            assert(compare_spec(secret, guess)[i] == GuessChar::Correct);
        }
        assert(guess =~= secret);
    }
    if guess == secret {
        assert forall|i: int|
            0 <= i < guess.len() implies compare_spec(secret, guess)[i]
            == GuessChar::Correct by {}
    }
}

} // verus!

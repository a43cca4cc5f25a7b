//! The word selector: splits the dictionary text into lines and picks
//! one at random, with a fixed fallback for an empty dictionary.

use vstd::prelude::*;

use rand::Rng;

use crate::text::chars_of;

verus! {

/// The pieces of `s` split at every newline: one more piece than there
/// are newline characters, in order, the newlines themselves dropped.
pub open spec fn split_nl(s: Seq<char>) -> Seq<Seq<char>>
    decreases s.len(),
{
    if s.len() == 0 {
        seq![Seq::<char>::empty()]
    } else {
        let p = split_nl(s.drop_last());
        if s.last() == '\n' {
            p.push(Seq::<char>::empty())
        } else {
            p.update(p.len() - 1, p.last().push(s.last()))
        }
    }
}

/// `l` with one trailing carriage return removed, if it ends in one.
pub open spec fn strip_cr(l: Seq<char>) -> Seq<char> {
    if l.len() > 0 && l.last() == '\r' {
        l.drop_last()
    } else {
        l
    }
}

/// The lines of `s`: split at newlines, the final piece dropped when it
/// is empty (a trailing newline opens no extra line), and a carriage
/// return stripped from each line's end.
pub open spec fn lines_of(s: Seq<char>) -> Seq<Seq<char>> {
    let p = split_nl(s);
    let q = if p.last().len() == 0 {
        p.drop_last()
    } else {
        p
    };
    q.map_values(|l: Seq<char>| strip_cr(l))
}

/// The split always has at least one piece.
proof fn lemma_split_nl_nonempty(s: Seq<char>)
    ensures
        split_nl(s).len() >= 1,
    decreases s.len(),
{
    if s.len() != 0 {
        lemma_split_nl_nonempty(s.drop_last());
    }
}

/// `l` with one trailing carriage return removed, if it ends in one.
fn strip_trailing_cr(l: Vec<char>) -> (r: Vec<char>)
    ensures
        r@ == strip_cr(l@),
{
    let mut m = l;
    if m.len() > 0 && m[m.len() - 1] == '\r' {
        m.pop();
        proof {
            assert(m@ =~= strip_cr(l@));
        }
    }
    m
}

/// Split a character sequence into its lines, as `str::lines` does:
/// line terminators are newlines or carriage-return-newline pairs, the
/// terminators are not part of the lines, and a final terminator opens
/// no extra line.
pub fn split_lines(text: &Vec<char>) -> (r: Vec<Vec<char>>)
    ensures
        r@.map_values(|l: Vec<char>| l@) == lines_of(text@),
{
    let mut out: Vec<Vec<char>> = Vec::new();
    let mut cur: Vec<char> = Vec::new();
    let mut i: usize = 0;
    while i < text.len()
        invariant
            0 <= i <= text@.len(),
            cur@ == split_nl(text@.take(i as int)).last(),
            out@.map_values(|l: Vec<char>| l@) =~= split_nl(text@.take(i as int)).drop_last()
                .map_values(|l: Seq<char>| strip_cr(l)),
        decreases text@.len() - i,
    {
        proof {
            lemma_split_nl_nonempty(text@.take(i as int));
            assert(text@.take(i + 1 as int).drop_last() =~= text@.take(i as int));
            assert(text@.take(i + 1 as int).last() == text@[i as int]);
            assert(out@.map_values(|l: Vec<char>| l@).len() == out@.len());
            assert(split_nl(text@.take(i as int)).drop_last().map_values(
                |l: Seq<char>| strip_cr(l),
            ).len() == split_nl(text@.take(i as int)).len() - 1);
        }
        let ghost p = split_nl(text@.take(i as int));
        let ghost out0 = out@;
        let c = text[i];
        if c == '\n' {
            let closed = strip_trailing_cr(cur);
            out.push(closed);
            cur = Vec::new();
            proof {
                assert(split_nl(text@.take(i + 1 as int)) =~= p.push(Seq::<char>::empty()));
                assert(p.push(Seq::<char>::empty()).drop_last() =~= p);
                assert(closed@ == strip_cr(p.last()));
                assert(out@ == out0.push(closed));
                let lhs = out@.map_values(|l: Vec<char>| l@);
                let rhs = p.map_values(|l: Seq<char>| strip_cr(l));
                assert forall|k: int| 0 <= k < p.len() implies #[trigger] lhs[k] == rhs[k] by {
                    if k < p.len() - 1 {
                        assert(out0.map_values(|l: Vec<char>| l@)[k] == p.drop_last().map_values(
                            |l: Seq<char>| strip_cr(l),
                        )[k]);
                    }
                }
                assert(lhs =~= rhs);
            }
        } else {
            cur.push(c);
            proof {
                let p1 = p.update(p.len() - 1, p.last().push(text@[i as int]));
                assert(split_nl(text@.take(i + 1 as int)) =~= p1);
                assert(p1.drop_last() =~= p.drop_last());
                assert(p1.last() == cur@);
            }
        }
        i += 1;
    }
    proof {
        assert(text@.take(text@.len() as int) =~= text@);
        lemma_split_nl_nonempty(text@);
        assert(out@.map_values(|l: Vec<char>| l@).len() == out@.len());
        assert(split_nl(text@).drop_last().map_values(|l: Seq<char>| strip_cr(l)).len()
            == split_nl(text@).len() - 1);
    }
    let ghost p = split_nl(text@);
    let ghost out0 = out@;
    if cur.len() > 0 {
        let closed = strip_trailing_cr(cur);
        out.push(closed);
        proof {
            assert(closed@ == strip_cr(p.last()));
            assert(out@ == out0.push(closed));
            let lhs = out@.map_values(|l: Vec<char>| l@);
            let rhs = p.map_values(|l: Seq<char>| strip_cr(l));
            assert forall|k: int| 0 <= k < p.len() implies #[trigger] lhs[k] == rhs[k] by {
                if k < p.len() - 1 {
                    assert(out0.map_values(|l: Vec<char>| l@)[k] == p.drop_last().map_values(
                        |l: Seq<char>| strip_cr(l),
                    )[k]);
                }
            }
            assert(lhs =~= rhs);
            assert(p.last().len() != 0);
            assert(out@.map_values(|l: Vec<char>| l@) =~= lines_of(text@));
        }
    } else {
        proof {
            assert(p.last().len() == 0);
            assert(out@.map_values(|l: Vec<char>| l@) =~= lines_of(text@));
        }
    }
    out
}

/// Relies on `rand::thread_rng` and `rand::Rng::gen_range`: a draw
/// from `0..n` lies below `n`; `gen_range` panics on an empty range,
/// so the bound must be positive.
#[verifier::external_body]
fn random_below(n: usize) -> (r: usize)
    requires
        n > 0,
    ensures
        r < n,
{
    rand::thread_rng().gen_range(0..n)
}

/// Pick the secret word: one line of the dictionary, chosen uniformly
/// at random, or the fixed fallback word when the dictionary has no
/// lines. The selected line is returned unaltered.
pub fn pick_word(dict: &str) -> (r: Vec<char>)
    ensures
        lines_of(dict@).len() == 0 ==> r@ == "fudge"@,
        lines_of(dict@).len() > 0 ==> exists|i: int|
            0 <= i < lines_of(dict@).len() && r@ == lines_of(dict@)[i],
{
    let text = chars_of(dict);
    let mut lines = split_lines(&text);
    if lines.len() == 0 {
        chars_of("fudge")
    } else {
        let idx = random_below(lines.len());
        let w = lines.swap_remove(idx);
        proof {
            assert(w@ == lines_of(dict@)[idx as int]);
        }
        w
    }
}

} // verus!

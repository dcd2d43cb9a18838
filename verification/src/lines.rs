//! Splitting byte sequences into text lines, as the cache files and the
//! HTTP wire format use them: pieces between line feeds, each shorn of one
//! trailing carriage return.

use vstd::prelude::*;

verus! {

/// Index of the first line feed in `s`, or `s.len()` when there is none.
pub open spec fn first_nl(s: Seq<u8>) -> int
    decreases s.len(),
{
    if s.len() == 0 {
        0
    } else if s[0] == 10 {
        0
    } else {
        1 + first_nl(s.skip(1))
    }
}

/// Remove one trailing carriage return, as `str::lines` does.
pub open spec fn strip_cr(l: Seq<u8>) -> Seq<u8> {
    if l.len() > 0 && l[l.len() - 1] == 13 {
        l.take(l.len() - 1)
    } else {
        l
    }
}

/// Split a byte sequence into lines: pieces between line feeds, each with a
/// trailing carriage return removed, and with no empty piece after a final
/// line feed.
pub open spec fn split_lines(s: Seq<u8>) -> Seq<Seq<u8>>
    decreases s.len(),
{
    if s.len() == 0 {
        seq![]
    } else {
        let i = first_nl(s);
        if 0 <= i && i < s.len() {
            seq![strip_cr(s.take(i))] + split_lines(s.skip(i + 1))
        } else {
            seq![strip_cr(s)]
        }
    }
}

pub proof fn lemma_first_nl_at(s: Seq<u8>, m: int)
    requires
        0 <= m <= s.len(),
        forall|k: int| 0 <= k < m ==> s[k] != 10,
        m == s.len() || s[m] == 10,
    ensures
        first_nl(s) == m,
    decreases s.len(),
{
    if s.len() != 0 && s[0] != 10 {
        assert(forall|k: int| 0 <= k < m - 1 ==> s.skip(1)[k] == s[k + 1]);
        lemma_first_nl_at(s.skip(1), m - 1);
    }
}

} // verus!

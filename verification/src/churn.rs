//! Parsing of the churn delta: a newline-separated list of hex-encoded
//! 20-byte relay identities that have left the network since the cached
//! consensus was signed.

use vstd::prelude::*;

use crate::errors::Error;
use crate::hexcode::{decode_hex, hex_decoded, valid_hex};
use crate::lines::{first_nl, lemma_first_nl_at, split_lines, strip_cr};

verus! {

/// Length in bytes of a relay's RSA identity digest.
pub const RSA_ID_LEN: usize = 20;

/// The churn that a sequence of lines denotes: empty lines are skipped, every
/// other line must be exactly `2 * RSA_ID_LEN` valid hex digits.  `None` when
/// some line is malformed.
pub open spec fn churn_of_lines(lines: Seq<Seq<u8>>) -> Option<Seq<Seq<u8>>>
    decreases lines.len(),
{
    if lines.len() == 0 {
        Some(seq![])
    } else if lines[0].len() == 0 {
        churn_of_lines(lines.skip(1))
    } else if valid_hex(lines[0]) && lines[0].len() == 2 * RSA_ID_LEN {
        match churn_of_lines(lines.skip(1)) {
            Some(r) => Some(seq![hex_decoded(lines[0])] + r),
            None => None,
        }
    } else {
        None
    }
}

/// The churn denoted by the raw bytes of the churn file.
pub open spec fn churn_of(s: Seq<u8>) -> Option<Seq<Seq<u8>>> {
    churn_of_lines(split_lines(s))
}

/// Extract the lines of `s`, exactly as `split_lines` describes them.
fn lines_of(s: &[u8]) -> (r: Vec<Vec<u8>>)
    ensures
        r.deep_view() == split_lines(s@),
{
    let mut out: Vec<Vec<u8>> = Vec::new();
    let mut pos: usize = 0;
    proof {
        assert(s@.skip(0) =~= s@);
        assert(out.deep_view() + split_lines(s@) =~~= split_lines(s@));
    }
    while pos < s.len()
        invariant
            pos <= s@.len(),
            split_lines(s@) == out.deep_view() + split_lines(s@.skip(pos as int)),
        decreases s@.len() - pos,
    {
        let ghost rest = s@.skip(pos as int);
        let ghost pos0 = pos;
        let ghost old_lines = out.deep_view();
        // find the next line feed, starting at pos
        let mut j: usize = pos;
        while j < s.len() && s[j] != 10
            invariant
                pos <= j <= s@.len(),
                forall|k: int| pos <= k < j ==> s@[k] != 10,
            decreases s@.len() - j,
        {
            j = j + 1;
        }
        proof {
            assert(forall|k: int| 0 <= k < j - pos ==> rest[k] == s@[pos + k]);
            lemma_first_nl_at(rest, j - pos);
        }
        // copy the line, dropping one trailing carriage return
        let line_end: usize = if j > pos && s[j - 1] == 13 {
            j - 1
        } else {
            j
        };
        let mut line: Vec<u8> = Vec::new();
        let mut k: usize = pos;
        while k < line_end
            invariant
                pos <= k <= line_end <= s@.len(),
                line@ == s@.subrange(pos as int, k as int),
            decreases line_end - k,
        {
            line.push(s[k]);
            k = k + 1;
        }
        proof {
            let body = if j < s@.len() {
                rest.take(j - pos)
            } else {
                rest
            };
            if j < s@.len() {
                assert(body =~= s@.subrange(pos as int, j as int));
                assert(rest.skip(j - pos + 1) =~= s@.skip(j + 1));
            } else {
                assert(body =~= s@.subrange(pos as int, j as int));
            }
            assert(strip_cr(body) =~= s@.subrange(pos as int, line_end as int));
        }
        out.push(line);
        if j < s.len() {
            pos = j + 1;
        } else {
            pos = j;
        }
        proof {
            assert(out.deep_view() =~~= old_lines.push(s@.subrange(pos0 as int, line_end as int)));
            assert(out.deep_view() + split_lines(s@.skip(pos as int)) =~~= old_lines + split_lines(
                rest,
            ));
        }
    }
    proof {
        assert(s@.skip(pos as int) =~= Seq::<u8>::empty());
        assert(out.deep_view() + split_lines(Seq::<u8>::empty()) =~~= out.deep_view());
    }
    out
}

/// Parse the churn file.
///
/// Empty lines are ignored; every other line must hex-decode to exactly
/// `RSA_ID_LEN` bytes.  A malformed line is reported as cache corruption.
pub fn parse_churn(s: &[u8]) -> (r: Result<Vec<Vec<u8>>, Error>)
    ensures
        r is Ok <==> churn_of(s@) is Some,
        r matches Ok(v) ==> Some(v.deep_view()) == churn_of(s@),
        r matches Err(e) ==> e matches Error::CacheCorruption(m) && m@
            == "invalid RSA identity"@,
{
    let lines = lines_of(s);
    let mut out: Vec<Vec<u8>> = Vec::new();
    let mut i: usize = 0;
    proof {
        assert(lines.deep_view().skip(0) =~= lines.deep_view());
        if let Some(r) = churn_of_lines(lines.deep_view()) {
            assert(out.deep_view() + r =~~= r);
        }
    }
    while i < lines.len()
        invariant
            i <= lines@.len(),
            lines.deep_view() == split_lines(s@),
            churn_of(s@) == (match churn_of_lines(lines.deep_view().skip(i as int)) {
                Some(r) => Some(out.deep_view() + r),
                None => None::<Seq<Seq<u8>>>,
            }),
        decreases lines@.len() - i,
    {
        let ghost rest = lines.deep_view().skip(i as int);
        let line = &lines[i];
        proof {
            assert(rest.skip(1) =~= lines.deep_view().skip(i + 1));
            assert(rest[0] =~= line@);
        }
        if line.len() > 0 {
            match decode_hex(line.as_slice()) {
                Some(id) => {
                    if id.len() != RSA_ID_LEN {
                        return Err(Error::CacheCorruption(String::from_str(
                            "invalid RSA identity",
                        )));
                    }
                    let ghost out0 = out.deep_view();
                    proof {
                        assert(line@.len() == 2 * RSA_ID_LEN);
                        if let Some(r1) = churn_of_lines(rest.skip(1)) {
                            assert((out0 + seq![id@]) + r1 =~~= out0 + (seq![id@] + r1));
                        }
                    }
                    out.push(id);
                    proof {
                        assert(out.deep_view() =~~= out0 + seq![hex_decoded(line@)]);
                    }
                },
                None => {
                    return Err(Error::CacheCorruption(String::from_str("invalid RSA identity")));
                },
            }
        }
        i = i + 1;
    }
    proof {
        assert(lines.deep_view().skip(i as int) =~= Seq::<Seq<u8>>::empty());
        if let Some(r) = churn_of_lines(Seq::<Seq<u8>>::empty()) {
            assert(out.deep_view() + r =~~= out.deep_view());
        }
    }
    Ok(out)
}

} // verus!

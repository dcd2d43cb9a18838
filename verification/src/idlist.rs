//! Membership tests on lists of byte strings, used for relay identities and
//! microdescriptor digests.

use vstd::prelude::*;

verus! {

/// `l` holds `x` as an element.
pub open spec fn seq_contains(l: Seq<Seq<u8>>, x: Seq<u8>) -> bool {
    exists|i: int| 0 <= i < l.len() && l[i] == x
}

/// Compare two byte slices for equality.
pub fn bytes_eq(a: &[u8], b: &[u8]) -> (r: bool)
    ensures
        r <==> a@ == b@,
{
    if a.len() != b.len() {
        return false;
    }
    let mut i: usize = 0;
    while i < a.len()
        invariant
            i <= a@.len(),
            a@.len() == b@.len(),
            forall|j: int| 0 <= j < i ==> a@[j] == b@[j],
        decreases a@.len() - i,
    {
        if a[i] != b[i] {
            return false;
        }
        i = i + 1;
    }
    proof {
        assert(a@ =~= b@);
    }
    true
}

/// Copy a byte vector.
pub fn copy_bytes(v: &Vec<u8>) -> (r: Vec<u8>)
    ensures
        r@ == v@,
{
    let mut out: Vec<u8> = Vec::new();
    let mut i: usize = 0;
    while i < v.len()
        invariant
            i <= v@.len(),
            out@ == v@.take(i as int),
        decreases v@.len() - i,
    {
        out.push(v[i]);
        i = i + 1;
    }
    proof {
        assert(v@.take(v@.len() as int) =~= v@);
    }
    out
}

/// Copy a range of a byte slice.
pub fn copy_range(s: &[u8], from: usize, to: usize) -> (r: Vec<u8>)
    requires
        from <= to <= s@.len(),
    ensures
        r@ == s@.subrange(from as int, to as int),
{
    let mut out: Vec<u8> = Vec::new();
    let mut i: usize = from;
    while i < to
        invariant
            from <= i <= to <= s@.len(),
            out@ == s@.subrange(from as int, i as int),
        decreases to - i,
    {
        out.push(s[i]);
        i = i + 1;
    }
    out
}

/// Does the list hold the given byte string?
pub fn ids_contain(l: &Vec<Vec<u8>>, x: &[u8]) -> (r: bool)
    ensures
        r <==> seq_contains(l.deep_view(), x@),
{
    let mut i: usize = 0;
    while i < l.len()
        invariant
            i <= l@.len(),
            forall|j: int| 0 <= j < i ==> l.deep_view()[j] != x@,
        decreases l@.len() - i,
    {
        if bytes_eq(l[i].as_slice(), x) {
            proof {
                assert(l.deep_view()[i as int] =~= l@[i as int]@);
            }
            return true;
        }
        proof {
            assert(l.deep_view()[i as int] =~= l@[i as int]@);
        }
        i = i + 1;
    }
    false
}

} // verus!

//! Verified decoding of hexadecimal text into bytes.
//!
//! The churn file and the authority file carry relay identities as hex
//! strings; this module gives the decoder an exact specification.

use vstd::prelude::*;

verus! {

/// True if `c` is an ASCII hex digit (either case).
pub open spec fn is_hex_digit(c: u8) -> bool {
    (48 <= c <= 57) || (97 <= c <= 102) || (65 <= c <= 70)
}

/// Numeric value of a hex digit; unspecified digits map to 0.
pub open spec fn hex_val(c: u8) -> u8 {
    if 48 <= c <= 57 {
        (c - 48) as u8
    } else if 97 <= c <= 102 {
        (c - 87) as u8
    } else if 65 <= c <= 70 {
        (c - 55) as u8
    } else {
        0
    }
}

/// A sequence of bytes is valid hex when its length is even and every byte
/// is a hex digit.
pub open spec fn valid_hex(s: Seq<u8>) -> bool {
    s.len() % 2 == 0 && (forall|i: int| 0 <= i < s.len() ==> is_hex_digit(#[trigger] s[i]))
}

/// The bytes that a valid hex sequence denotes: one byte per digit pair.
pub open spec fn hex_decoded(s: Seq<u8>) -> Seq<u8> {
    Seq::new(s.len() / 2, |i: int| (hex_val(s[2 * i]) * 16 + hex_val(s[2 * i + 1])) as u8)
}

/// Decode one ASCII hex digit.
fn hex_val_of(c: u8) -> (r: Option<u8>)
    ensures
        r is Some <==> is_hex_digit(c),
        r matches Some(v) ==> v == hex_val(c) && v < 16,
{
    if 48 <= c && c <= 57 {
        Some(c - 48)
    } else if 97 <= c && c <= 102 {
        Some(c - 87)
    } else if 65 <= c && c <= 70 {
        Some(c - 55)
    } else {
        None
    }
}

/// Decode a hex string into bytes, or report that it is not valid hex.
pub fn decode_hex(s: &[u8]) -> (r: Option<Vec<u8>>)
    ensures
        r is Some <==> valid_hex(s@),
        r matches Some(v) ==> v@ == hex_decoded(s@),
{
    if s.len() % 2 != 0 {
        return None;
    }
    let mut out: Vec<u8> = Vec::new();
    let mut i: usize = 0;
    while i < s.len()
        invariant
            i % 2 == 0,
            i <= s@.len(),
            s@.len() % 2 == 0,
            forall|j: int| 0 <= j < i ==> is_hex_digit(#[trigger] s@[j]),
            out@.len() == i / 2,
            forall|k: int|
                0 <= k < i / 2 ==> #[trigger] out@[k] == (hex_val(s@[2 * k]) * 16 + hex_val(
                    s@[2 * k + 1],
                )) as u8,
        decreases s@.len() - i,
    {
        let hi = match hex_val_of(s[i]) {
            Some(v) => v,
            None => {
                return None;
            },
        };
        let lo = match hex_val_of(s[i + 1]) {
            Some(v) => v,
            None => {
                return None;
            },
        };
        out.push(hi * 16 + lo);
        i = i + 2;
    }
    proof {
        assert(out@ =~= hex_decoded(s@));
    }
    Some(out)
}

} // verus!

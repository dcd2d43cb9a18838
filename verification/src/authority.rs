//! The trusted directory authorities: loaded from a side-loaded JSON file,
//! each one a nickname and a 20-byte v3 identity digest.

use vstd::prelude::*;

use crate::churn::RSA_ID_LEN;
use crate::docs::CertMeta;
use crate::errors::Error;
use crate::hexcode::{decode_hex, hex_decoded, valid_hex};

verus! {

/// A single authority trusted to sign consensuses.  Equality of interest is
/// by digest alone; the nickname is informational.
#[derive(Debug, Clone)]
pub struct Authority {
    /// A memorable nickname for this authority.
    pub name: String,
    /// The SHA-1 digest of the DER-encoded long-term v3 RSA identity key,
    /// exactly 20 bytes.
    pub v3ident: Vec<u8>,
}

impl Authority {
    /// The invariant every loaded authority satisfies.
    pub open spec fn wf(&self) -> bool {
        self.v3ident@.len() == RSA_ID_LEN
    }

    /// The ghost value of this authority: nickname and digest.
    pub open spec fn model(&self) -> (Seq<char>, Seq<u8>) {
        (self.name@, self.v3ident@)
    }

    /// Construct an authority from its parts.
    pub fn new(name: String, v3ident: Vec<u8>) -> (r: Authority)
        ensures
            r.name == name,
            r.v3ident == v3ident,
    {
        Authority { name, v3ident }
    }

    /// The authority's v3 identity digest.
    pub fn v3ident(&self) -> (r: &Vec<u8>)
        ensures
            r == &self.v3ident,
    {
        &self.v3ident
    }

    /// Does this authority match the identity a certificate binds?
    pub fn matches_cert(&self, cert: &CertMeta) -> (r: bool)
        ensures
            r <==> self.v3ident@ == cert.id_fingerprint@,
    {
        crate::idlist::bytes_eq(self.v3ident.as_slice(), cert.id_fingerprint.as_slice())
    }

    /// Does this authority match the identity fingerprint of a key pair?
    pub fn matches_keyid(&self, id_fingerprint: &Vec<u8>) -> (r: bool)
        ensures
            r <==> self.v3ident@ == id_fingerprint@,
    {
        crate::idlist::bytes_eq(self.v3ident.as_slice(), id_fingerprint.as_slice())
    }
}

/// The ghost list of a list of authorities.
pub open spec fn auths_model(v: Seq<Authority>) -> Seq<(Seq<char>, Seq<u8>)> {
    Seq::new(v.len(), |i: int| v[i].model())
}

/// The nickname/identity pairs that the authority file's JSON denotes, or
/// `None` when the text is not well-formed.  The identity component holds
/// the raw bytes of the hex string.
pub uninterp spec fn authority_json_doc(s: Seq<char>) -> Option<Seq<(Seq<char>, Seq<u8>)>>;

/// Relies on `serde_json::from_str` and the accessors of
/// `serde_json::Value`: reads the authority file, either one JSON object or
/// an array of objects, each with a `name` and a hex `v3ident` field,
/// deterministically in the text.
#[verifier::external_body]
fn authority_pairs(text: &str) -> (r: Option<Vec<(String, Vec<u8>)>>)
    ensures
        r is Some <==> authority_json_doc(text@) is Some,
        r matches Some(v) ==> Some(v.deep_view()) == authority_json_doc(text@),
{
    let v: serde_json::Value = serde_json::from_str(text).ok()?;
    let one = |o: &serde_json::Value| {
        Some((o.get("name")?.as_str()?.to_owned(), o.get("v3ident")?.as_str()?.as_bytes().to_vec()))
    };
    if let Some(arr) = v.as_array() {
        arr.iter().map(one).collect::<Option<Vec<(String, Vec<u8>)>>>()
    } else {
        Some(vec![one(&v)?])
    }
}

/// Is an identity digest already in the accumulated list?
pub open spec fn model_has_id(acc: Seq<(Seq<char>, Seq<u8>)>, id: Seq<u8>) -> bool {
    exists|i: int| 0 <= i < acc.len() && acc[i].1 == id
}

/// Fold the raw pairs into the authority set: hex-decode each identity,
/// reject a malformed or wrongly sized one, and keep the first entry for
/// each digest.
pub open spec fn auth_accum(
    pairs: Seq<(Seq<char>, Seq<u8>)>,
    acc: Seq<(Seq<char>, Seq<u8>)>,
) -> Option<Seq<(Seq<char>, Seq<u8>)>>
    decreases pairs.len(),
{
    if pairs.len() == 0 {
        Some(acc)
    } else if valid_hex(pairs[0].1) && pairs[0].1.len() == 2 * RSA_ID_LEN {
        let id = hex_decoded(pairs[0].1);
        auth_accum(
            pairs.skip(1),
            if model_has_id(acc, id) {
                acc
            } else {
                acc.push((pairs[0].0, id))
            },
        )
    } else {
        None
    }
}

/// The authority set the file denotes: `None` when the JSON is malformed or
/// some identity is not 20 bytes of valid hex.
pub open spec fn authorities_of(s: Seq<char>) -> Option<Seq<(Seq<char>, Seq<u8>)>> {
    match authority_json_doc(s) {
        Option::None => Option::None,
        Option::Some(ps) => auth_accum(ps, Seq::empty()),
    }
}

proof fn lemma_auth_accum_distinct(
    pairs: Seq<(Seq<char>, Seq<u8>)>,
    acc: Seq<(Seq<char>, Seq<u8>)>,
)
    requires
        forall|i: int, j: int| 0 <= i < j < acc.len() ==> acc[i].1 != acc[j].1,
    ensures
        auth_accum(pairs, acc) matches Some(r) ==> forall|i: int, j: int|
            0 <= i < j < r.len() ==> r[i].1 != r[j].1,
    decreases pairs.len(),
{
    if pairs.len() != 0 && valid_hex(pairs[0].1) && pairs[0].1.len() == 2 * RSA_ID_LEN {
        let id = hex_decoded(pairs[0].1);
        if model_has_id(acc, id) {
            lemma_auth_accum_distinct(pairs.skip(1), acc);
        } else {
            let acc2 = acc.push((pairs[0].0, id));
            assert(forall|i: int, j: int| 0 <= i < j < acc2.len() ==> acc2[i].1 != acc2[j].1);
            lemma_auth_accum_distinct(pairs.skip(1), acc2);
        }
    }
}

/// The loaded authority set is a set indeed: no two entries share a digest.
pub proof fn lemma_authorities_distinct(s: Seq<char>)
    ensures
        authorities_of(s) matches Some(r) ==> forall|i: int, j: int|
            0 <= i < j < r.len() ==> r[i].1 != r[j].1,
{
    if let Some(ps) = authority_json_doc(s) {
        lemma_auth_accum_distinct(ps, Seq::empty());
    }
}

/// Is an identity digest carried by some authority in the list?
fn have_id(auths: &Vec<Authority>, id: &[u8]) -> (r: bool)
    ensures
        r <==> model_has_id(auths_model(auths@), id@),
{
    let mut i: usize = 0;
    while i < auths.len()
        invariant
            i <= auths@.len(),
            forall|j: int| 0 <= j < i ==> auths_model(auths@)[j].1 != id@,
        decreases auths@.len() - i,
    {
        if crate::idlist::bytes_eq(auths[i].v3ident.as_slice(), id) {
            proof {
                assert(auths_model(auths@)[i as int].1 == id@);
            }
            return true;
        }
        proof {
            assert(auths_model(auths@)[i as int].1 == auths@[i as int].v3ident@);
        }
        i = i + 1;
    }
    false
}

/// Load the trusted authority set from the text of the authority file.
///
/// Fails with the configuration error if the JSON is malformed or any
/// identity digest is not exactly 20 bytes of hex; the result is
/// deduplicated by digest, keeping first occurrences.
pub fn load_authorities(text: &str) -> (r: Result<Vec<Authority>, Error>)
    ensures
        r is Ok <==> authorities_of(text@) is Some,
        r matches Ok(v) ==> Some(auths_model(v@)) == authorities_of(text@) && forall|i: int|
            0 <= i < v@.len() ==> (#[trigger] v@[i]).wf(),
        r matches Err(e) ==> e is Config,
{
    let pairs = match authority_pairs(text) {
        Some(p) => p,
        None => {
            return Err(Error::Config);
        },
    };
    let ghost all = pairs.deep_view();
    let mut out: Vec<Authority> = Vec::new();
    let mut i: usize = 0;
    proof {
        assert(all.skip(0) =~= all);
        assert(auths_model(out@) =~= Seq::<(Seq<char>, Seq<u8>)>::empty());
    }
    while i < pairs.len()
        invariant
            i <= pairs@.len(),
            pairs.deep_view() == all,
            authorities_of(text@) == auth_accum(all.skip(i as int), auths_model(out@)),
            forall|j: int| 0 <= j < out@.len() ==> (#[trigger] out@[j]).wf(),
        decreases pairs@.len() - i,
    {
        let ghost rest = all.skip(i as int);
        proof {
            assert(rest.skip(1) =~= all.skip(i + 1));
            assert(rest[0].0 =~= pairs@[i as int].0@);
            assert(rest[0].1 =~= pairs@[i as int].1@);
        }
        let ident = match decode_hex(pairs[i].1.as_slice()) {
            Some(d) => d,
            None => {
                return Err(Error::Config);
            },
        };
        if ident.len() != RSA_ID_LEN {
            return Err(Error::Config);
        }
        let ghost before = auths_model(out@);
        if !have_id(&out, ident.as_slice()) {
            let nick = pairs[i].0.clone();
            out.push(Authority { name: nick, v3ident: ident });
            proof {
                assert(auths_model(out@) =~= before.push((rest[0].0, hex_decoded(rest[0].1))));
            }
        }
        i = i + 1;
    }
    proof {
        assert(all.skip(i as int) =~= Seq::<(Seq<char>, Seq<u8>)>::empty());
    }
    Ok(out)
}

} // verus!

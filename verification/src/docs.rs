//! Trusted boundary to the Tor network-document crates.
//!
//! Everything in this module either declares an outside type so that it can
//! be carried through verified code, or wraps one outside call in a function
//! whose contract states what the call's source and documentation promise.
//! Parsed documents are deterministic functions of the file texts, so their
//! contents are named by uninterpreted spec functions over those texts.

use vstd::prelude::*;

use std::time::{SystemTime, UNIX_EPOCH};
use tor_checkable::{ExternallySigned, SelfSigned, TimeBound};
use tor_netdoc::doc::netstatus::MdConsensus;

verus! {

#[verifier::external_type_specification]
#[verifier::external_body]
pub struct ExMdConsensus(tor_netdoc::doc::netstatus::MdConsensus);

#[verifier::external_type_specification]
#[verifier::external_body]
pub struct ExMicrodescAndHash(tor_netdoc::doc::microdesc::MicrodescAndHash);

/// What parsing a consensus document yields: its lifetime and, in document
/// order, each relay's RSA identity and microdescriptor digest, and the
/// identities claimed in the signature block.  A function of the text
/// alone.
pub struct ConsensusMeta {
    /// `valid-after`, unix seconds.
    pub valid_after: u64,
    /// `fresh-until`, unix seconds.
    pub fresh_until: u64,
    /// `valid-until`, unix seconds.
    pub valid_until: u64,
    /// The 20-byte RSA identity of each listed relay, in document order.
    pub relay_ids: Vec<Vec<u8>>,
    /// The 32-byte microdescriptor digest of each listed relay, same order.
    pub md_digests: Vec<Vec<u8>>,
    /// The 20-byte identity fingerprint of each signature on the document.
    pub signer_ids: Vec<Vec<u8>>,
}

/// The ghost counterpart of [`ConsensusMeta`]: what the parser returns for a
/// given text.
pub struct ConsensusMetaSpec {
    /// `valid-after`, unix seconds.
    pub valid_after: int,
    /// `fresh-until`, unix seconds.
    pub fresh_until: int,
    /// `valid-until`, unix seconds.
    pub valid_until: int,
    /// Relay RSA identities, in document order.
    pub relay_ids: Seq<Seq<u8>>,
    /// Relay microdescriptor digests, same order.
    pub md_digests: Seq<Seq<u8>>,
    /// Signature-block identity fingerprints.
    pub signer_ids: Seq<Seq<u8>>,
}

impl ConsensusMeta {
    /// The ghost value of this metadata.
    pub open spec fn meta(&self) -> ConsensusMetaSpec {
        ConsensusMetaSpec {
            valid_after: self.valid_after as int,
            fresh_until: self.fresh_until as int,
            valid_until: self.valid_until as int,
            relay_ids: self.relay_ids.deep_view(),
            md_digests: self.md_digests.deep_view(),
            signer_ids: self.signer_ids.deep_view(),
        }
    }
}

/// What the consensus parser returns on a given text, or `None` when the
/// text is not a well-formed microdescriptor consensus.
pub uninterp spec fn consensus_doc(s: Seq<char>) -> Option<ConsensusMetaSpec>;

/// Relies on `MdConsensus::parse` of tor-netdoc and on its lifetime,
/// relay and signature accessors: reads out the
/// document's lifetime (unix seconds), relay identities, relay
/// microdescriptor digests and signer identities, deterministically in the
/// text.
#[verifier::external_body]
fn parse_consensus_fields(text: &str) -> (r: Option<
    (u64, u64, u64, Vec<Vec<u8>>, Vec<Vec<u8>>, Vec<Vec<u8>>),
>)
    ensures
        r is Some <==> consensus_doc(text@) is Some,
        r matches Some(t) ==> {
            let m = consensus_doc(text@).unwrap();
            &&& t.0 as int == m.valid_after
            &&& t.1 as int == m.fresh_until
            &&& t.2 as int == m.valid_until
            &&& t.3.deep_view() == m.relay_ids
            &&& t.4.deep_view() == m.md_digests
            &&& t.5.deep_view() == m.signer_ids
            &&& t.3@.len() == t.4@.len()
        },
{
    let (_, _, bound) = MdConsensus::parse(text).ok()?;
    let u = bound.dangerously_assume_timely();
    let s = |t: SystemTime| t.duration_since(UNIX_EPOCH).map_or(0, |d| d.as_secs());
    let l = u.peek_lifetime();
    let (ids, mds) = u.consensus.relays().iter()
        .map(|r| (r.rsa_identity().as_bytes().to_vec(), r.md_digest().to_vec())).unzip();
    let sg = u.siggroup.signatures.iter()
        .map(|g| g.key_ids.id_fingerprint.as_bytes().to_vec()).collect();
    Some((s(l.valid_after()), s(l.fresh_until()), s(l.valid_until()), ids, mds, sg))
}

/// Read out a consensus document's metadata: its lifetime, relays and
/// signers, packaged as [`ConsensusMeta`].
pub fn consensus_meta(text: &str) -> (r: Option<ConsensusMeta>)
    ensures
        r is Some <==> consensus_doc(text@) is Some,
        r matches Some(m) ==> Some(m.meta()) == consensus_doc(text@),
        r matches Some(m) ==> m.relay_ids@.len() == m.md_digests@.len(),
{
    match parse_consensus_fields(text) {
        Some(t) => {
            let m = ConsensusMeta {
                valid_after: t.0,
                fresh_until: t.1,
                valid_until: t.2,
                relay_ids: t.3,
                md_digests: t.4,
                signer_ids: t.5,
            };
            proof {
                assert(m.meta() == consensus_doc(text@).unwrap());
            }
            Some(m)
        },
        None => None,
    }
}

/// What loading a certificate yields beside the certificate itself: its
/// validity window and key fingerprints.  A function of the text alone.
pub struct CertMeta {
    /// `dir-key-published`, unix seconds.
    pub published: u64,
    /// `dir-key-expires`, unix seconds.
    pub expires: u64,
    /// The authority's long-term identity fingerprint, 20 bytes.
    pub id_fingerprint: Vec<u8>,
    /// The signing-key fingerprint, 20 bytes.
    pub sk_fingerprint: Vec<u8>,
}

/// The ghost counterpart of [`CertMeta`].
pub struct CertMetaSpec {
    /// `dir-key-published`, unix seconds.
    pub published: int,
    /// `dir-key-expires`, unix seconds.
    pub expires: int,
    /// Identity fingerprint.
    pub id_fingerprint: Seq<u8>,
    /// Signing-key fingerprint.
    pub sk_fingerprint: Seq<u8>,
}

impl CertMeta {
    /// The ghost value of this metadata.
    pub open spec fn meta(&self) -> CertMetaSpec {
        CertMetaSpec {
            published: self.published as int,
            expires: self.expires as int,
            id_fingerprint: self.id_fingerprint@,
            sk_fingerprint: self.sk_fingerprint@,
        }
    }
}

/// What parsing and self-signature-checking an authority certificate yields
/// on a given text: `None` when the text does not parse or its self-signature
/// does not verify.
pub uninterp spec fn authcert_doc(s: Seq<char>) -> Option<CertMetaSpec>;

/// Relies on `AuthCert::parse` of tor-netdoc and on
/// `tor_checkable::SelfSigned::check_signature`: parses one authority
/// certificate and verifies its self-signature, deterministically in the
/// text.  Its validity window is for the caller to check.
#[verifier::external_body]
pub fn load_certificate(text: &str) -> (r: Option<CertMeta>)
    ensures
        r is Some <==> authcert_doc(text@) is Some,
        r matches Some(m) ==> Some(m.meta()) == authcert_doc(text@),
{
    let gated = tor_netdoc::doc::authcert::AuthCert::parse(text).ok()?;
    let cert = gated.check_signature().ok()?.dangerously_assume_timely();
    let s = |t: SystemTime| t.duration_since(UNIX_EPOCH).map_or(0, |d| d.as_secs());
    let ids = cert.key_ids();
    Some(CertMeta {
        published: s(cert.published()),
        expires: s(cert.expires()),
        id_fingerprint: ids.id_fingerprint.as_bytes().to_vec(),
        sk_fingerprint: ids.sk_fingerprint.as_bytes().to_vec(),
    })
}

/// Whether the consensus in the first text carries, among signatures by
/// `n_authorities` declared authorities, a strict majority of signatures
/// that verify against the certificate in the second text.  The signature
/// hashes are fixed when the document is parsed, so this is a function of
/// the two texts and the count alone.
pub uninterp spec fn consensus_signature_ok(
    consensus: Seq<char>,
    certificate: Seq<char>,
    n_authorities: int,
) -> bool;

/// Relies on `MdConsensus::parse`, `AuthCert::parse`,
/// `UnvalidatedConsensus::set_n_authorities`, `modify_relays` and
/// `tor_checkable`'s two `check_signature`s: rebuilds the documents from
/// their texts, removes the excluded relays, and verifies the consensus
/// signature against the certificate under a strict-majority quorum of
/// `n` authorities.  Removing relays does not touch the signature hashes,
/// so the outcome does not depend on `excluded`.
#[verifier::external_body]
pub fn verify_consensus(
    consensus_text: &str,
    certificate_text: &str,
    n: usize,
    excluded: &Vec<Vec<u8>>,
) -> (r: Option<tor_netdoc::doc::netstatus::MdConsensus>)
    ensures
        r is Some <==> (consensus_doc(consensus_text@) is Some && authcert_doc(
            certificate_text@,
        ) is Some && consensus_signature_ok(consensus_text@, certificate_text@, n as int)),
{
    let (_, _, bound) = MdConsensus::parse(consensus_text).ok()?;
    let mut u = bound.dangerously_assume_timely().set_n_authorities(n);
    u.modify_relays(|rs| {
        rs.retain(|r| !crate::idlist::ids_contain(excluded, r.rsa_identity().as_bytes()))
    });
    let gated = tor_netdoc::doc::authcert::AuthCert::parse(certificate_text).ok()?;
    let cert = gated.check_signature().ok()?.dangerously_assume_timely();
    u.check_signature(std::slice::from_ref(&cert)).ok()
}

/// The SHA-256 digests of the microdescriptors that parse out of a given
/// text, in order; malformed entries leave no digest.
pub uninterp spec fn microdesc_digests(s: Seq<char>) -> Seq<Seq<u8>>;

/// Relies on `MicrodescReader` of tor-netdoc, with annotations not allowed:
/// parses the concatenated microdescriptors, silently skipping malformed
/// entries, deterministically in the text.  The second component lists the
/// 32-byte digest of each returned microdescriptor, in the same order.
#[verifier::external_body]
pub fn parse_microdescs(text: &str) -> (r: (
    Vec<tor_netdoc::doc::microdesc::MicrodescAndHash>,
    Vec<Vec<u8>>,
))
    ensures
        r.1.deep_view() == microdesc_digests(text@),
        r.0.len() == r.1.len(),
{
    let reader = tor_netdoc::doc::microdesc::MicrodescReader::new(
        text,
        &tor_netdoc::AllowAnnotations::AnnotationsNotAllowed,
    );
    let mds: Vec<tor_netdoc::doc::microdesc::MicrodescAndHash> = match reader {
        Ok(r) => r.flatten().map(|a| a.into_microdesc()).collect(),
        Err(_) => Vec::new(),
    };
    let digests = mds.iter().map(|m| m.sha256.to_vec()).collect();
    (mds, digests)
}

/// Relies on `rand::seq::index::sample`: draws `k` distinct indices below
/// `n`, uniformly and without replacement, from a cryptographically seeded
/// generator.  Nothing more is promised of which indices come back.
#[verifier::external_body]
pub fn sample_indices(n: usize, k: usize) -> (r: Vec<usize>)
    requires
        k <= n,
    ensures
        r@.len() == k,
        forall|i: int| 0 <= i < r@.len() ==> r@[i] < n,
        forall|i: int, j: int| 0 <= i < j < r@.len() ==> r@[i] != r@[j],
{
    rand::seq::index::sample(&mut rand::rng(), n, k).into_vec()
}

} // verus!

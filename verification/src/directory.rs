//! Loading and assembling the network directory from the cache files:
//! parse, time-check and signature-check the consensus, prune churned
//! relays, join the surviving rows with their microdescriptors, and publish
//! the result through the directory provider.

use vstd::prelude::*;

use crate::authority::{auths_model, model_has_id, Authority};
use crate::churn::{churn_of, parse_churn};
use crate::docs::{
    authcert_doc, consensus_doc, consensus_meta, consensus_signature_ok, load_certificate,
    microdesc_digests, parse_microdescs, sample_indices, verify_consensus,
};
use crate::errors::Error;
use crate::idlist::{copy_bytes, ids_contain, seq_contains};

verus! {

/// One sixth of the consensus relays is the most the churn may remove.
pub const CHURN_FRACTION: usize = 6;

/// A relay row of the pruned consensus: identity and expected
/// microdescriptor digest.
pub struct RelayRow {
    /// The relay's 20-byte RSA identity.
    pub rsa_id: Vec<u8>,
    /// The SHA-256 digest of the relay's microdescriptor.
    pub md_digest: Vec<u8>,
}

/// A relay of the assembled directory: a pruned consensus row together with
/// the position of its microdescriptor.
pub struct Relay {
    /// The relay's 20-byte RSA identity.
    pub rsa_id: Vec<u8>,
    /// The SHA-256 digest of the relay's microdescriptor.
    pub md_digest: Vec<u8>,
    /// Where that microdescriptor stands in the directory's list.
    pub md_idx: usize,
}

/// The events a directory provider broadcasts.
#[derive(Debug, Clone, Copy, PartialEq, Eq, Structural)]
pub enum DirEvent {
    /// A new consensus was installed.
    NewConsensus,
    /// New microdescriptors were installed.
    NewDescriptors,
}

/// The ghost value of a row list: (identity, digest) pairs.
pub open spec fn rows_model(v: Seq<RelayRow>) -> Seq<(Seq<u8>, Seq<u8>)> {
    Seq::new(v.len(), |i: int| (v[i].rsa_id@, v[i].md_digest@))
}

/// The ghost value of a relay list: (identity, digest) pairs.
pub open spec fn relays_model(v: Seq<Relay>) -> Seq<(Seq<u8>, Seq<u8>)> {
    Seq::new(v.len(), |i: int| (v[i].rsa_id@, v[i].md_digest@))
}

/// The consensus rows that survive pruning: those whose identity is not in
/// the excluded set, in order, as (identity, digest) pairs.
pub open spec fn retained(ids: Seq<Seq<u8>>, mds: Seq<Seq<u8>>, ex: Seq<Seq<u8>>) -> Seq<
    (Seq<u8>, Seq<u8>),
>
    decreases ids.len(),
{
    if ids.len() == 0 {
        seq![]
    } else {
        let rest = retained(ids.skip(1), mds.skip(1), ex);
        if seq_contains(ex, ids[0]) {
            rest
        } else {
            seq![(ids[0], mds[0])] + rest
        }
    }
}

/// The rows that the directory keeps: those whose digest has a parsed
/// microdescriptor.
pub open spec fn joined(rows: Seq<(Seq<u8>, Seq<u8>)>, mdd: Seq<Seq<u8>>) -> Seq<
    (Seq<u8>, Seq<u8>),
>
    decreases rows.len(),
{
    if rows.len() == 0 {
        seq![]
    } else {
        let rest = joined(rows.skip(1), mdd);
        if seq_contains(mdd, rows[0].1) {
            seq![rows[0]] + rest
        } else {
            rest
        }
    }
}

/// The assembled network directory: the verified consensus, the parsed
/// microdescriptors, and the joined relay list, with the churn subset that
/// was pruned away.
pub struct NetworkDirectory {
    /// The relays usable for circuit building.
    pub relays: Vec<Relay>,
    /// The signature-checked consensus document.
    pub consensus: tor_netdoc::doc::netstatus::MdConsensus,
    /// The parsed microdescriptors.
    pub microdescs: Vec<tor_netdoc::doc::microdesc::MicrodescAndHash>,
    /// The digest of each parsed microdescriptor, same order.
    pub md_digests: Vec<Vec<u8>>,
    /// The effective churn subset whose relays were removed.
    pub effective_churn: Vec<Vec<u8>>,
}

impl NetworkDirectory {
    /// The invariant of a loaded directory: every advertised relay points at
    /// a microdescriptor whose digest matches its row, and no advertised
    /// relay's identity stands in the effective churn subset.
    pub open spec fn wf(&self) -> bool {
        &&& self.md_digests@.len() == self.microdescs@.len()
        &&& forall|i: int|
            0 <= i < self.relays@.len() ==> (#[trigger] self.relays@[i]).md_idx
                < self.md_digests@.len()
        &&& forall|i: int|
            0 <= i < self.relays@.len() ==> self.md_digests@[(
            #[trigger] self.relays@[i]).md_idx as int]@ == self.relays@[i].md_digest@
        &&& forall|i: int|
            0 <= i < self.relays@.len() ==> !seq_contains(
                self.effective_churn.deep_view(),
                (#[trigger] self.relays@[i]).rsa_id@,
            )
    }

    /// A directory is sufficient for circuit building when at least one
    /// relay survived the join.  This stands in for the circuit manager's
    /// own sufficiency predicate, which is an external collaborator and is
    /// not modeled here.
    pub fn is_sufficient(&self) -> (r: bool)
        ensures
            r <==> self.relays@.len() > 0,
    {
        self.relays.len() > 0
    }
}

/// Every advertised relay of a loaded directory has a microdescriptor, and
/// its identity is not in the effective churn subset.
pub proof fn lemma_directory_relays(d: NetworkDirectory)
    requires
        d.wf(),
    ensures
        forall|i: int|
            0 <= i < d.relays@.len() ==> (#[trigger] d.relays@[i]).md_idx < d.microdescs@.len()
                && d.md_digests@[d.relays@[i].md_idx as int]@ == d.relays@[i].md_digest@,
        forall|i: int|
            0 <= i < d.relays@.len() ==> !seq_contains(
                d.effective_churn.deep_view(),
                (#[trigger] d.relays@[i]).rsa_id@,
            ),
{
}

/// Elements drawn from `src` at distinct in-range positions form a
/// sub-multiset of `src`: sampling without replacement never repeats an
/// occurrence.
proof fn lemma_distinct_picks_submultiset(src: Seq<Seq<u8>>, picks: Seq<int>, out: Seq<Seq<u8>>)
    requires
        out.len() == picks.len(),
        forall|j: int| 0 <= j < picks.len() ==> 0 <= #[trigger] picks[j] < src.len(),
        forall|i: int, j: int| 0 <= i < j < picks.len() ==> picks[i] != picks[j],
        forall|j: int| 0 <= j < out.len() ==> #[trigger] out[j] == src[picks[j]],
    ensures
        out.to_multiset().subset_of(src.to_multiset()),
    decreases picks.len(),
{
    broadcast use vstd::seq_lib::group_to_multiset_ensures;

    if picks.len() == 0 {
        assert(forall|x: Seq<u8>|
            #[trigger] out.to_multiset().count(x) <= src.to_multiset().count(x));
    } else {
        let p = picks.last();
        let out1 = out.drop_last();
        let src1 = src.remove(p);
        let picks1 = picks.drop_last().map_values(
            |q: int|
                if q < p {
                    q
                } else {
                    q - 1
                },
        );
        assert(forall|j: int|
            0 <= j < picks1.len() ==> #[trigger] picks1[j] == (if picks[j] < p {
                picks[j]
            } else {
                picks[j] - 1
            }));
        assert forall|j: int| 0 <= j < out1.len() implies #[trigger] out1[j]
            == src1[picks1[j]] by {
            assert(picks[j] != p);
            assert(src1 =~= src.take(p) + src.skip(p + 1));
        }
        lemma_distinct_picks_submultiset(src1, picks1, out1);
        assert(src1.to_multiset() =~= src.to_multiset().remove(src[p]));
        assert(out =~= out1.push(out.last()));
        assert(out.to_multiset() =~= out1.to_multiset().insert(src[p]));
        assert forall|x: Seq<u8>| #[trigger] out.to_multiset().count(x) <= src.to_multiset().count(
            x,
        ) by {
            assert(out1.to_multiset().count(x) <= src1.to_multiset().count(x));
        }
    }
}

/// Bound the churn: when the churn list is no larger than a sixth of the
/// consensus relays it is taken whole, otherwise a uniform sample of that
/// sixth is taken without replacement.  The result's size is exactly the
/// smaller of the churn size and the threshold (each churn line counted as
/// listed), and, as a multiset, the result is contained in the churn: no
/// occurrence is drawn twice.
pub fn effective_churn(churn: Vec<Vec<u8>>, n_relays: usize) -> (r: Vec<Vec<u8>>)
    ensures
        churn@.len() <= n_relays as int / CHURN_FRACTION as int ==> r == churn,
        churn@.len() > n_relays as int / CHURN_FRACTION as int ==> r@.len() == n_relays as int
            / CHURN_FRACTION as int,
        r@.len() == vstd::math::min(
            churn@.len() as int,
            n_relays as int / CHURN_FRACTION as int,
        ),
        forall|i: int|
            0 <= i < r@.len() ==> seq_contains(churn.deep_view(), r.deep_view()[i]),
        r.deep_view().to_multiset().subset_of(churn.deep_view().to_multiset()),
{
    let threshold = n_relays / CHURN_FRACTION;
    if churn.len() <= threshold {
        proof {
            assert(forall|i: int|
                0 <= i < churn@.len() ==> seq_contains(
                    churn.deep_view(),
                    #[trigger] churn.deep_view()[i],
                ));
            assert(forall|x: Seq<u8>|
                #[trigger] churn.deep_view().to_multiset().count(x)
                    <= churn.deep_view().to_multiset().count(x));
        }
        churn
    } else {
        let picks = sample_indices(churn.len(), threshold);
        let mut out: Vec<Vec<u8>> = Vec::new();
        let mut i: usize = 0;
        while i < picks.len()
            invariant
                i <= picks@.len(),
                picks@.len() <= churn@.len(),
                forall|j: int| 0 <= j < picks@.len() ==> picks@[j] < churn@.len(),
                out@.len() == i,
                forall|j: int|
                    0 <= j < i ==> #[trigger] out.deep_view()[j] == churn.deep_view()[picks@[j] as int],
            decreases picks@.len() - i,
        {
            let idx = picks[i];
            let ghost dv0 = out.deep_view();
            out.push(copy_bytes(&churn[idx]));
            proof {
                assert(out.deep_view() =~~= dv0.push(churn.deep_view()[idx as int]));
            }
            i = i + 1;
        }
        proof {
            let pk = Seq::new(picks@.len() as nat, |j: int| picks@[j] as int);
            assert forall|a: int, b: int| 0 <= a < b < pk.len() implies #[trigger] pk[a]
                != #[trigger] pk[b] by {
                assert(picks@[a] != picks@[b]);
            }
            lemma_distinct_picks_submultiset(churn.deep_view(), pk, out.deep_view());
        }
        out
    }
}

/// Accept a validity window exactly when `valid_after <= now <= valid_until`.
pub fn check_timeliness(valid_after: u64, valid_until: u64, now: u64) -> (r: Result<(), Error>)
    ensures
        r is Ok <==> valid_after <= now <= valid_until,
        r matches Err(e) ==> e is UntimelyObject,
{
    if valid_after <= now && now <= valid_until {
        Ok(())
    } else {
        Err(Error::UntimelyObject)
    }
}

/// Is every signer of the consensus one of the trusted authorities?
pub fn signers_recognized(signers: &Vec<Vec<u8>>, authorities: &Vec<Authority>) -> (r: bool)
    ensures
        r <==> (forall|i: int|
            0 <= i < signers.deep_view().len() ==> model_has_id(
                auths_model(authorities@),
                #[trigger] signers.deep_view()[i],
            )),
{
    let mut i: usize = 0;
    while i < signers.len()
        invariant
            i <= signers@.len(),
            forall|j: int|
                0 <= j < i ==> model_has_id(
                    auths_model(authorities@),
                    #[trigger] signers.deep_view()[j],
                ),
        decreases signers@.len() - i,
    {
        let mut found = false;
        let mut k: usize = 0;
        while k < authorities.len()
            invariant
                k <= authorities@.len(),
                i < signers@.len(),
                found ==> model_has_id(auths_model(authorities@), signers.deep_view()[i as int]),
                !found ==> forall|m: int|
                    0 <= m < k ==> auths_model(authorities@)[m].1 != signers.deep_view()[i as int],
            decreases authorities@.len() - k,
        {
            proof {
                assert(signers.deep_view()[i as int] =~= signers@[i as int]@);
                assert(auths_model(authorities@)[k as int].1 == authorities@[k as int].v3ident@);
            }
            if crate::idlist::bytes_eq(authorities[k].v3ident.as_slice(), signers[i].as_slice()) {
                proof {
                    assert(auths_model(authorities@)[k as int].1 == signers.deep_view()[i as int]);
                }
                found = true;
            }
            k = k + 1;
        }
        if !found {
            proof {
                assert(!model_has_id(auths_model(authorities@), signers.deep_view()[i as int]));
            }
            return false;
        }
        i = i + 1;
    }
    true
}

/// Keep the consensus rows whose identity is not excluded.
fn retained_rows(ids: &Vec<Vec<u8>>, mds: &Vec<Vec<u8>>, ex: &Vec<Vec<u8>>) -> (r: Vec<RelayRow>)
    requires
        ids@.len() == mds@.len(),
    ensures
        rows_model(r@) == retained(ids.deep_view(), mds.deep_view(), ex.deep_view()),
{
    let mut out: Vec<RelayRow> = Vec::new();
    let mut i: usize = 0;
    proof {
        assert(ids.deep_view().skip(0) =~= ids.deep_view());
        assert(mds.deep_view().skip(0) =~= mds.deep_view());
        assert(rows_model(out@) =~= Seq::<(Seq<u8>, Seq<u8>)>::empty());
    }
    while i < ids.len()
        invariant
            i <= ids@.len(),
            ids@.len() == mds@.len(),
            retained(ids.deep_view(), mds.deep_view(), ex.deep_view()) == rows_model(out@)
                + retained(
                ids.deep_view().skip(i as int),
                mds.deep_view().skip(i as int),
                ex.deep_view(),
            ),
        decreases ids@.len() - i,
    {
        let ghost rids = ids.deep_view().skip(i as int);
        let ghost rmds = mds.deep_view().skip(i as int);
        let ghost before = rows_model(out@);
        proof {
            assert(rids.skip(1) =~= ids.deep_view().skip(i + 1));
            assert(rmds.skip(1) =~= mds.deep_view().skip(i + 1));
            assert(rids[0] == ids.deep_view()[i as int]);
            assert(ids.deep_view()[i as int] =~= ids@[i as int]@);
            assert(rmds[0] =~= mds@[i as int]@);
        }
        if !ids_contain(ex, ids[i].as_slice()) {
            out.push(RelayRow { rsa_id: copy_bytes(&ids[i]), md_digest: copy_bytes(&mds[i]) });
            proof {
                assert(rows_model(out@) =~= before.push((rids[0], rmds[0])));
                assert(before + (seq![(rids[0], rmds[0])] + retained(
                    rids.skip(1),
                    rmds.skip(1),
                    ex.deep_view(),
                )) =~= rows_model(out@) + retained(rids.skip(1), rmds.skip(1), ex.deep_view()));
            }
        }
        i = i + 1;
    }
    proof {
        assert(ids.deep_view().skip(i as int) =~= Seq::<Seq<u8>>::empty());
        assert(mds.deep_view().skip(i as int) =~= Seq::<Seq<u8>>::empty());
        assert(rows_model(out@) + Seq::<(Seq<u8>, Seq<u8>)>::empty() =~= rows_model(out@));
    }
    out
}

/// Find the first microdescriptor with the given digest.
fn find_md(mdd: &Vec<Vec<u8>>, d: &[u8]) -> (r: Option<usize>)
    ensures
        r matches Some(i) ==> i < mdd@.len() && mdd.deep_view()[i as int] == d@,
        r is None ==> !seq_contains(mdd.deep_view(), d@),
{
    let mut i: usize = 0;
    while i < mdd.len()
        invariant
            i <= mdd@.len(),
            forall|j: int| 0 <= j < i ==> mdd.deep_view()[j] != d@,
        decreases mdd@.len() - i,
    {
        if crate::idlist::bytes_eq(mdd[i].as_slice(), d) {
            proof {
                assert(mdd.deep_view()[i as int] =~= mdd@[i as int]@);
            }
            return Some(i);
        }
        proof {
            assert(mdd.deep_view()[i as int] =~= mdd@[i as int]@);
        }
        i = i + 1;
    }
    None
}

/// Join the pruned rows with the parsed microdescriptors: a row without a
/// microdescriptor is discarded.
fn join_rows(rows: Vec<RelayRow>, mdd: &Vec<Vec<u8>>) -> (r: Vec<Relay>)
    ensures
        relays_model(r@) == joined(rows_model(rows@), mdd.deep_view()),
        forall|i: int|
            0 <= i < r@.len() ==> (#[trigger] r@[i]).md_idx < mdd@.len() && mdd@[r@[i].md_idx as int]@
                == r@[i].md_digest@,
{
    let mut out: Vec<Relay> = Vec::new();
    let mut i: usize = 0;
    proof {
        assert(rows_model(rows@).skip(0) =~= rows_model(rows@));
        assert(relays_model(out@) =~= Seq::<(Seq<u8>, Seq<u8>)>::empty());
    }
    while i < rows.len()
        invariant
            i <= rows@.len(),
            joined(rows_model(rows@), mdd.deep_view()) == relays_model(out@) + joined(
                rows_model(rows@).skip(i as int),
                mdd.deep_view(),
            ),
            forall|j: int|
                0 <= j < out@.len() ==> (#[trigger] out@[j]).md_idx < mdd@.len()
                    && mdd@[out@[j].md_idx as int]@ == out@[j].md_digest@,
        decreases rows@.len() - i,
    {
        let ghost rrows = rows_model(rows@).skip(i as int);
        let ghost before = relays_model(out@);
        proof {
            assert(rrows.skip(1) =~= rows_model(rows@).skip(i + 1));
            assert(rrows[0] == rows_model(rows@)[i as int]);
        }
        match find_md(mdd, rows[i].md_digest.as_slice()) {
            Some(idx) => {
                proof {
                    assert(seq_contains(mdd.deep_view(), rrows[0].1));
                    assert(mdd.deep_view()[idx as int] =~= mdd@[idx as int]@);
                }
                out.push(
                    Relay {
                        rsa_id: copy_bytes(&rows[i].rsa_id),
                        md_digest: copy_bytes(&rows[i].md_digest),
                        md_idx: idx,
                    },
                );
                proof {
                    assert(relays_model(out@) =~= before.push(rrows[0]));
                    assert(before + (seq![rrows[0]] + joined(rrows.skip(1), mdd.deep_view()))
                        =~= relays_model(out@) + joined(rrows.skip(1), mdd.deep_view()));
                }
            },
            None => {
            },
        }
        i = i + 1;
    }
    proof {
        assert(rows_model(rows@).skip(i as int) =~= Seq::<(Seq<u8>, Seq<u8>)>::empty());
        assert(relays_model(out@) + Seq::<(Seq<u8>, Seq<u8>)>::empty() =~= relays_model(out@));
    }
    out
}

proof fn lemma_retained_excludes(ids: Seq<Seq<u8>>, mds: Seq<Seq<u8>>, ex: Seq<Seq<u8>>)
    ensures
        forall|i: int|
            0 <= i < retained(ids, mds, ex).len() ==> !seq_contains(
                ex,
                (#[trigger] retained(ids, mds, ex)[i]).0,
            ),
    decreases ids.len(),
{
    if ids.len() != 0 {
        lemma_retained_excludes(ids.skip(1), mds.skip(1), ex);
        let rest = retained(ids.skip(1), mds.skip(1), ex);
        let whole = retained(ids, mds, ex);
        if !seq_contains(ex, ids[0]) {
            assert forall|i: int| 0 <= i < whole.len() implies !seq_contains(
                ex,
                (#[trigger] whole[i]).0,
            ) by {
                if i == 0 {
                    assert(whole[0] == (ids[0], mds[0]));
                } else {
                    assert(whole[i] == rest[i - 1]);
                }
            }
        }
    }
}

proof fn lemma_joined_excludes(rows: Seq<(Seq<u8>, Seq<u8>)>, mdd: Seq<Seq<u8>>, ex: Seq<Seq<u8>>)
    requires
        forall|i: int| 0 <= i < rows.len() ==> !seq_contains(ex, (#[trigger] rows[i]).0),
    ensures
        forall|i: int|
            0 <= i < joined(rows, mdd).len() ==> !seq_contains(
                ex,
                (#[trigger] joined(rows, mdd)[i]).0,
            ),
    decreases rows.len(),
{
    if rows.len() != 0 {
        assert(forall|i: int|
            0 <= i < rows.skip(1).len() ==> !seq_contains(ex, (#[trigger] rows.skip(1)[i]).0));
        lemma_joined_excludes(rows.skip(1), mdd, ex);
        let rest = joined(rows.skip(1), mdd);
        let whole = joined(rows, mdd);
        if seq_contains(mdd, rows[0].1) {
            assert forall|i: int| 0 <= i < whole.len() implies !seq_contains(
                ex,
                (#[trigger] whole[i]).0,
            ) by {
                if i == 0 {
                    assert(whole[0] == rows[0]);
                } else {
                    assert(whole[i] == rest[i - 1]);
                }
            }
        }
    }
}

/// Does some row reference the digest?
pub open spec fn row_references(rows: Seq<(Seq<u8>, Seq<u8>)>, d: Seq<u8>) -> bool {
    exists|i: int| 0 <= i < rows.len() && rows[i].1 == d
}

/// The microdescriptor digests that some retained consensus row references,
/// in their original order; the others are discarded.
pub open spec fn keep_referenced(mdd: Seq<Seq<u8>>, rows: Seq<(Seq<u8>, Seq<u8>)>) -> Seq<Seq<u8>>
    decreases mdd.len(),
{
    if mdd.len() == 0 {
        seq![]
    } else {
        let rest = keep_referenced(mdd.skip(1), rows);
        if row_references(rows, mdd[0]) {
            seq![mdd[0]] + rest
        } else {
            rest
        }
    }
}

/// Does some retained row expect this digest?
fn rows_reference(rows: &Vec<RelayRow>, d: &[u8]) -> (r: bool)
    ensures
        r <==> row_references(rows_model(rows@), d@),
{
    let mut i: usize = 0;
    while i < rows.len()
        invariant
            i <= rows@.len(),
            forall|j: int| 0 <= j < i ==> rows_model(rows@)[j].1 != d@,
        decreases rows@.len() - i,
    {
        proof {
            assert(rows_model(rows@)[i as int].1 == rows@[i as int].md_digest@);
        }
        if crate::idlist::bytes_eq(rows[i].md_digest.as_slice(), d) {
            return true;
        }
        i = i + 1;
    }
    false
}

/// Drop the microdescriptors no retained row references, keeping documents
/// and digests in lockstep.
fn discard_unreferenced(
    mds: Vec<tor_netdoc::doc::microdesc::MicrodescAndHash>,
    mdd: Vec<Vec<u8>>,
    rows: &Vec<RelayRow>,
) -> (r: (Vec<tor_netdoc::doc::microdesc::MicrodescAndHash>, Vec<Vec<u8>>))
    requires
        mds@.len() == mdd@.len(),
    ensures
        r.1.deep_view() == keep_referenced(mdd.deep_view(), rows_model(rows@)),
        r.0@.len() == r.1@.len(),
{
    let mut mds = mds;
    let mut mdd = mdd;
    let ghost all = mdd.deep_view();
    let mut out_mds: Vec<tor_netdoc::doc::microdesc::MicrodescAndHash> = Vec::new();
    let mut out_mdd: Vec<Vec<u8>> = Vec::new();
    proof {
        assert(all.skip(0) =~= all);
        assert(out_mdd.deep_view() =~= Seq::<Seq<u8>>::empty());
        assert(out_mdd.deep_view() + keep_referenced(all, rows_model(rows@)) =~= keep_referenced(
            all,
            rows_model(rows@),
        ));
    }
    let ghost mut done: int = 0int;
    while mdd.len() > 0
        invariant
            mds@.len() == mdd@.len(),
            0 <= done <= all.len(),
            mdd.deep_view() == all.skip(done),
            keep_referenced(all, rows_model(rows@)) == out_mdd.deep_view() + keep_referenced(
                all.skip(done),
                rows_model(rows@),
            ),
            out_mds@.len() == out_mdd@.len(),
        decreases mdd@.len(),
    {
        let ghost rest = all.skip(done);
        let ghost before = out_mdd.deep_view();
        proof {
            assert(rest.len() == mdd.deep_view().len());
            assert(rest[0] =~= mdd@[0]@);
            assert(rest.skip(1) =~= all.skip(done + 1));
        }
        let md = mds.remove(0);
        let d = mdd.remove(0);
        proof {
            assert(mdd.deep_view() =~~= rest.skip(1));
        }
        if rows_reference(rows, d.as_slice()) {
            out_mds.push(md);
            out_mdd.push(d);
            proof {
                assert(out_mdd.deep_view() =~~= before.push(rest[0]));
                assert(before + (seq![rest[0]] + keep_referenced(rest.skip(1), rows_model(rows@)))
                    =~~= out_mdd.deep_view() + keep_referenced(rest.skip(1), rows_model(rows@)));
            }
        }
        proof {
            done = done + 1;
        }
    }
    proof {
        assert(all.skip(done) =~= Seq::<Seq<u8>>::empty());
        assert(out_mdd.deep_view() + Seq::<Seq<u8>>::empty() =~= out_mdd.deep_view());
    }
    (out_mds, out_mdd)
}

/// The consensus lifetime covers `now`, both ends included.
pub open spec fn consensus_timely(m: crate::docs::ConsensusMetaSpec, now: int) -> bool {
    m.valid_after <= now <= m.valid_until
}

/// The certificate validity window covers `now`, both ends included.
pub open spec fn cert_timely(c: crate::docs::CertMetaSpec, now: int) -> bool {
    c.published <= now <= c.expires
}

/// Every identity in the consensus's signature block is a trusted authority.
pub open spec fn signers_ok(
    m: crate::docs::ConsensusMetaSpec,
    auths: Seq<(Seq<char>, Seq<u8>)>,
) -> bool {
    forall|i: int|
        0 <= i < m.signer_ids.len() ==> model_has_id(auths, #[trigger] m.signer_ids[i])
}

/// Every check of the load pipeline short of the cryptographic signature
/// verification passes on the given inputs.
pub open spec fn checks_pass(
    consensus_text: Seq<char>,
    certificate_text: Seq<char>,
    churn_bytes: Seq<u8>,
    auths: Seq<(Seq<char>, Seq<u8>)>,
    now: int,
) -> bool {
    &&& churn_of(churn_bytes) is Some
    &&& consensus_doc(consensus_text) is Some
    &&& consensus_timely(consensus_doc(consensus_text).unwrap(), now)
    &&& signers_ok(consensus_doc(consensus_text).unwrap(), auths)
    &&& authcert_doc(certificate_text) is Some
    &&& cert_timely(authcert_doc(certificate_text).unwrap(), now)
}

/// Load and verify the directory from the contents of the cache files.
///
/// The steps, each with its error: parse the churn file; parse the
/// consensus; check its lifetime against `now`; check that its signers are
/// all trusted; load and time-check the certificate; prune the bounded
/// churn subset; verify the consensus signature; parse the
/// microdescriptors; and join rows with microdescriptors.
pub fn build_directory(
    consensus_text: &str,
    certificate_text: &str,
    microdesc_text: &str,
    churn_text: &[u8],
    authorities: &Vec<Authority>,
    now: u64,
) -> (r: Result<NetworkDirectory, Error>)
    ensures
        churn_of(churn_text@) is None ==> (r matches Err(e) && e matches Error::CacheCorruption(m)
            && m@ == "invalid RSA identity"@),
        churn_of(churn_text@) is Some && consensus_doc(consensus_text@) is None ==> (r matches Err(
            e,
        ) && e matches Error::CacheCorruption(m) && m@ == "Failed to parse consensus"@),
        churn_of(churn_text@) is Some && consensus_doc(consensus_text@) is Some
            && !consensus_timely(consensus_doc(consensus_text@).unwrap(), now as int) ==> (
        r matches Err(e) && e is UntimelyObject),
        churn_of(churn_text@) is Some && consensus_doc(consensus_text@) is Some
            && consensus_timely(consensus_doc(consensus_text@).unwrap(), now as int)
            && !signers_ok(consensus_doc(consensus_text@).unwrap(), auths_model(authorities@))
            ==> (r matches Err(e) && e is UnrecognizedAuthorities),
        churn_of(churn_text@) is Some && consensus_doc(consensus_text@) is Some
            && consensus_timely(consensus_doc(consensus_text@).unwrap(), now as int)
            && signers_ok(consensus_doc(consensus_text@).unwrap(), auths_model(authorities@))
            && authcert_doc(certificate_text@) is None ==> (r matches Err(e) && e matches
            Error::CacheCorruption(m) && m@ == "Failed to parse certificate"@),
        churn_of(churn_text@) is Some && consensus_doc(consensus_text@) is Some
            && consensus_timely(consensus_doc(consensus_text@).unwrap(), now as int)
            && signers_ok(consensus_doc(consensus_text@).unwrap(), auths_model(authorities@))
            && authcert_doc(certificate_text@) is Some && !cert_timely(
            authcert_doc(certificate_text@).unwrap(),
            now as int,
        ) ==> (r matches Err(e) && e is UntimelyObject),
        checks_pass(
            consensus_text@,
            certificate_text@,
            churn_text@,
            auths_model(authorities@),
            now as int,
        ) && consensus_signature_ok(consensus_text@, certificate_text@, authorities@.len() as int)
            ==> r is Ok,
        checks_pass(
            consensus_text@,
            certificate_text@,
            churn_text@,
            auths_model(authorities@),
            now as int,
        ) && !consensus_signature_ok(
            consensus_text@,
            certificate_text@,
            authorities@.len() as int,
        ) ==> (r matches Err(e) && e matches Error::CacheCorruption(m) && m@
            == "Failed to validate consensus signature"@),
        r is Ok ==> checks_pass(
            consensus_text@,
            certificate_text@,
            churn_text@,
            auths_model(authorities@),
            now as int,
        ) && consensus_signature_ok(consensus_text@, certificate_text@, authorities@.len() as int),
        r matches Ok(d) ==> d.wf(),
        r matches Ok(d) ==> {
            let cm = consensus_doc(consensus_text@).unwrap();
            let churn = churn_of(churn_text@).unwrap();
            let rows = retained(cm.relay_ids, cm.md_digests, d.effective_churn.deep_view());
            &&& d.md_digests.deep_view() == keep_referenced(
                microdesc_digests(microdesc_text@),
                rows,
            )
            &&& relays_model(d.relays@) == joined(rows, d.md_digests.deep_view())
            &&& d.effective_churn.deep_view().len() == vstd::math::min(
                churn.len() as int,
                cm.relay_ids.len() as int / CHURN_FRACTION as int,
            )
            &&& (churn.len() as int <= cm.relay_ids.len() as int / CHURN_FRACTION as int
                ==> d.effective_churn.deep_view() == churn)
            &&& forall|i: int|
                0 <= i < d.effective_churn.deep_view().len() ==> seq_contains(
                    churn,
                    #[trigger] d.effective_churn.deep_view()[i],
                )
        },
{
    // Churn delta
    let churn = match parse_churn(churn_text) {
        Ok(c) => c,
        Err(e) => {
            return Err(e);
        },
    };
    // Consensus metadata
    let meta = match consensus_meta(consensus_text) {
        Some(m) => m,
        None => {
            return Err(Error::CacheCorruption(String::from_str("Failed to parse consensus")));
        },
    };
    let ghost cm = consensus_doc(consensus_text@).unwrap();
    proof {
        assert(cm == meta.meta());
        assert(cm.signer_ids == meta.signer_ids.deep_view());
        assert(cm.relay_ids == meta.relay_ids.deep_view());
        assert(cm.md_digests == meta.md_digests.deep_view());
    }
    // Lifetime check
    match check_timeliness(meta.valid_after, meta.valid_until, now) {
        Ok(u) => u,
        Err(e) => {
            return Err(e);
        },
    };
    // Authority check
    if !signers_recognized(&meta.signer_ids, authorities) {
        proof {
            assert(!signers_ok(cm, auths_model(authorities@)));
        }
        return Err(Error::UnrecognizedAuthorities);
    }
    proof {
        assert(signers_ok(cm, auths_model(authorities@)));
    }
    // Certificate
    let cert_meta = match load_certificate(certificate_text) {
        Some(m) => m,
        None => {
            return Err(Error::CacheCorruption(String::from_str("Failed to parse certificate")));
        },
    };
    match check_timeliness(cert_meta.published, cert_meta.expires, now) {
        Ok(u) => u,
        Err(e) => {
            return Err(e);
        },
    };
    // Bounded churn pruning
    let effective = effective_churn(churn, meta.relay_ids.len());
    // Signature verification over the pruned document
    let validated = match verify_consensus(
        consensus_text,
        certificate_text,
        authorities.len(),
        &effective,
    ) {
        Some(v) => v,
        None => {
            return Err(
                Error::CacheCorruption(
                    String::from_str("Failed to validate consensus signature"),
                ),
            );
        },
    };
    // Microdescriptors and join
    let (mds_all, mdd_all) = parse_microdescs(microdesc_text);
    let rows = retained_rows(&meta.relay_ids, &meta.md_digests, &effective);
    let (mds, md_digests) = discard_unreferenced(mds_all, mdd_all, &rows);
    let relays = join_rows(rows, &md_digests);
    proof {
        let cm = consensus_doc(consensus_text@).unwrap();
        lemma_retained_excludes(cm.relay_ids, cm.md_digests, effective.deep_view());
        lemma_joined_excludes(
            retained(cm.relay_ids, cm.md_digests, effective.deep_view()),
            md_digests.deep_view(),
            effective.deep_view(),
        );
        assert forall|i: int| 0 <= i < relays@.len() implies !seq_contains(
            effective.deep_view(),
            (#[trigger] relays@[i]).rsa_id@,
        ) by {
            assert(relays_model(relays@)[i].0 == relays@[i].rsa_id@);
        }
    }
    Ok(
        NetworkDirectory {
            relays,
            consensus: validated,
            microdescs: mds,
            md_digests,
            effective_churn: effective,
        },
    )
}

/// The flat-file directory provider: it loads the directory from the cache
/// file contents once, publishes it, and broadcasts the update events.
pub struct FlatFileDirMgr {
    /// The latest assembled directory, if a sufficient one was loaded.
    pub netdir: Option<NetworkDirectory>,
    /// Every event broadcast so far, in order.
    pub events: Vec<DirEvent>,
}

impl FlatFileDirMgr {
    /// The provider's invariant: whatever directory it publishes satisfies
    /// the directory invariant.
    pub open spec fn wf(&self) -> bool {
        self.netdir matches Some(d) ==> d.wf()
    }

    /// Create a provider with no directory and no events.
    pub fn from_config() -> (r: FlatFileDirMgr)
        ensures
            r.netdir is None,
            r.events@ == Seq::<DirEvent>::empty(),
            r.wf(),
    {
        FlatFileDirMgr { netdir: Option::None, events: Vec::new() }
    }

    /// Try to load the directory from the cache file contents.
    ///
    /// A sufficient build is published, and exactly one `NewConsensus`
    /// followed by exactly one `NewDescriptors` is emitted for it; a build
    /// that is insufficient, or a load that fails a check, publishes and
    /// emits nothing.  The result says whether a directory is published.
    /// Success is owed whenever every check passes and the consensus
    /// signature verifies.
    pub fn load_directory(
        &mut self,
        consensus_text: &str,
        certificate_text: &str,
        microdesc_text: &str,
        churn_text: &[u8],
        authorities: &Vec<Authority>,
        now: u64,
    ) -> (r: Result<bool, Error>)
        requires
            old(self).wf(),
        ensures
            final(self).wf(),
            r is Err ==> *final(self) == *old(self),
            r matches Ok(b) ==> (b <==> final(self).netdir is Some),
            r is Ok ==> checks_pass(
                consensus_text@,
                certificate_text@,
                churn_text@,
                auths_model(authorities@),
                now as int,
            ) && consensus_signature_ok(
                consensus_text@,
                certificate_text@,
                authorities@.len() as int,
            ),
            checks_pass(
                consensus_text@,
                certificate_text@,
                churn_text@,
                auths_model(authorities@),
                now as int,
            ) && consensus_signature_ok(
                consensus_text@,
                certificate_text@,
                authorities@.len() as int,
            ) ==> r is Ok,
            old(self).netdir is Some ==> final(self).netdir is Some,
            // either nothing is published and nothing changes, or a fresh
            // sufficient directory is published with exactly the ordered
            // event pair
            (*final(self) == *old(self) && (r is Ok ==> final(self).netdir == old(self).netdir))
                || (final(self).netdir matches Some(d) && r is Ok && d.wf() && d.relays@.len() > 0
                && final(self).events@ == old(self).events@ + seq![
                DirEvent::NewConsensus,
                DirEvent::NewDescriptors,
            ]),
    {
        let dir = match build_directory(
            consensus_text,
            certificate_text,
            microdesc_text,
            churn_text,
            authorities,
            now,
        ) {
            Ok(d) => d,
            Err(e) => {
                return Err(e);
            },
        };
        if dir.is_sufficient() {
            self.netdir = Some(dir);
            self.events.push(DirEvent::NewConsensus);
            self.events.push(DirEvent::NewDescriptors);
            proof {
                assert(self.events@ =~= old(self).events@ + seq![
                    DirEvent::NewConsensus,
                    DirEvent::NewDescriptors,
                ]);
            }
        }
        match &self.netdir {
            Some(_) => Ok(true),
            None => Ok(false),
        }
    }

    /// Run one bootstrap: load the directory and report any failure; an
    /// insufficient directory is not an error, the provider merely stays
    /// unbootstrapped.  As for the load itself, success is owed whenever
    /// every check passes and the consensus signature verifies, and a
    /// publication comes with exactly the ordered event pair.
    pub fn bootstrap(
        &mut self,
        consensus_text: &str,
        certificate_text: &str,
        microdesc_text: &str,
        churn_text: &[u8],
        authorities: &Vec<Authority>,
        now: u64,
    ) -> (r: Result<(), Error>)
        requires
            old(self).wf(),
        ensures
            final(self).wf(),
            r is Err ==> *final(self) == *old(self),
            r is Ok ==> checks_pass(
                consensus_text@,
                certificate_text@,
                churn_text@,
                auths_model(authorities@),
                now as int,
            ) && consensus_signature_ok(
                consensus_text@,
                certificate_text@,
                authorities@.len() as int,
            ),
            checks_pass(
                consensus_text@,
                certificate_text@,
                churn_text@,
                auths_model(authorities@),
                now as int,
            ) && consensus_signature_ok(
                consensus_text@,
                certificate_text@,
                authorities@.len() as int,
            ) ==> r is Ok,
            old(self).netdir is Some ==> final(self).netdir is Some,
            (*final(self) == *old(self)) || (final(self).netdir matches Some(d) && r is Ok
                && d.wf() && d.relays@.len() > 0 && final(self).events@ == old(self).events@
                + seq![DirEvent::NewConsensus, DirEvent::NewDescriptors]),
    {
        match self.load_directory(
            consensus_text,
            certificate_text,
            microdesc_text,
            churn_text,
            authorities,
            now,
        ) {
            Ok(_) => Ok(()),
            Err(e) => Err(e),
        }
    }

    /// The latest directory, if one was published.
    pub fn opt_netdir(&self) -> (r: Option<&NetworkDirectory>)
        ensures
            r is Some <==> self.netdir is Some,
            r matches Some(d) ==> self.netdir matches Some(n) && d == &n,
    {
        match &self.netdir {
            Some(d) => Some(d),
            None => None,
        }
    }

    /// The latest directory, if one was published.
    pub fn latest_netdir(&self) -> (r: Option<&NetworkDirectory>)
        ensures
            r is Some <==> self.netdir is Some,
            r matches Some(d) ==> self.netdir matches Some(n) && d == &n,
    {
        self.opt_netdir()
    }

    /// The latest directory, or the error that no directory is present.
    pub fn netdir(&self) -> (r: Result<&NetworkDirectory, Error>)
        ensures
            r is Ok <==> self.netdir is Some,
            r matches Ok(d) ==> self.netdir matches Some(n) && d == &n,
            r matches Err(e) ==> e is DirectoryNotPresent,
    {
        match &self.netdir {
            Some(d) => Ok(d),
            None => Err(Error::DirectoryNotPresent),
        }
    }

    /// Has a sufficient directory been published?
    pub fn is_bootstrapped(&self) -> (r: bool)
        ensures
            r <==> self.netdir is Some,
    {
        match &self.netdir {
            Some(_) => true,
            None => false,
        }
    }

    /// The events broadcast so far, oldest first.
    pub fn events(&self) -> (r: &Vec<DirEvent>)
        ensures
            r == &self.events,
    {
        &self.events
    }

    /// Reconfiguration is not supported: every field is fixed at creation.
    pub fn reconfigure(&self) -> (r: Result<(), Error>)
        ensures
            r matches Err(e) && e matches Error::CannotChange(f) && f@ == "all"@,
    {
        Err(Error::CannotChange(String::from_str("all")))
    }
}

/// Builds a [`FlatFileDirMgr`] for a client that wires the provider into a
/// circuit manager.
pub struct FlatFileDirMgrBuilder {}

impl FlatFileDirMgrBuilder {
    /// Build a fresh, unbootstrapped provider.
    pub fn build(&self) -> (r: FlatFileDirMgr)
        ensures
            r.netdir is None,
            r.events@ == Seq::<DirEvent>::empty(),
            r.wf(),
    {
        FlatFileDirMgr::from_config()
    }
}

} // verus!

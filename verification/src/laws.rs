use vstd::prelude::*;
use crate::entry::{all_resolvable, entry_from_spec, id_of, ModEntryV};
use crate::error::ErrorKind;
use crate::normalize::{first_fault, normalized_spec, SubmissionV};
use crate::pipeline::{secret_message, stale_message, submit_spec, SubmitOutcomeV};
use crate::store::{find_entry, lemma_find_entry_props, merged_entry, replace_entry, upsert_spec, UpsertOutcome};
use crate::urls::resolve_spec;
use crate::version::{lemma_newer_irrefl, newer_spec, semver_valid};

verus! {

// ---------------------------------------------------------------------------
// The registry's guarantees, stated and proved over the pipeline's model.
// ---------------------------------------------------------------------------

proof fn lemma_find_entry_push_fresh(s: Seq<ModEntryV>, c: ModEntryV)
    requires
        forall|i: int| 0 <= i < s.len() ==> s[i].id != c.id,
    ensures
        find_entry(s.push(c), c.id) == Some(c),
    decreases s.len(),
{
    if s.len() == 0 {
        assert(s.push(c)[0] == c);
    } else {
        assert(s.push(c)[0] == s[0]);
        assert(s.push(c).skip(1) =~= s.skip(1).push(c));
        assert forall|i: int| 0 <= i < s.skip(1).len() implies s.skip(1)[i].id != c.id by {
            assert(s.skip(1)[i] == s[i + 1]);
        }
        lemma_find_entry_push_fresh(s.skip(1), c);
    }
}

/// Submitting the same submission twice never stores it twice: a submission
/// whose first run created its entry is rejected as stale when it is run
/// again unchanged, whatever time passes in between, and the store does not
/// change again.
pub proof fn law_idempotent_resubmission(
    s0: Seq<ModEntryV>,
    raw: SubmissionV,
    now1: int,
    now2: int,
)
    requires
        submit_spec(s0, raw, now1).1 is Created,
    ensures
        submit_spec(submit_spec(s0, raw, now1).0, raw, now2).1 == SubmitOutcomeV::Rejected(
            ErrorKind::StaleVersion,
            stale_message(),
        ),
        submit_spec(submit_spec(s0, raw, now1).0, raw, now2).0 == submit_spec(s0, raw, now1).0,
{
    let n = normalized_spec(raw);
    let cand1 = entry_from_spec(n, now1);
    let cand2 = entry_from_spec(n, now2);
    lemma_find_entry_props(s0, cand1.id);
    lemma_find_entry_push_fresh(s0, cand1);
    let s1 = submit_spec(s0, raw, now1).0;
    assert(s1 == s0.push(cand1));
    assert(find_entry(s1, cand2.id) == Some(cand1));
    lemma_newer_irrefl(n.version);
    assert(!newer_spec(cand2.info.version, cand1.info.version));
}

/// For a fixed identity whose stored secret matches, a version that is not
/// strictly newer than the stored one is rejected as stale and the store is
/// left unchanged — whether or not that version was ever submitted before.
pub proof fn law_monotonic_version_gate(
    s: Seq<ModEntryV>,
    raw: SubmissionV,
    now: int,
    e: ModEntryV,
)
    requires
        first_fault(normalized_spec(raw)) is None,
        all_resolvable(normalized_spec(raw).binaries),
        find_entry(s, entry_from_spec(normalized_spec(raw), now).id) == Some(e),
        e.secret == normalized_spec(raw).secret,
        !newer_spec(normalized_spec(raw).version, e.info.version),
    ensures
        submit_spec(s, raw, now).1 == SubmitOutcomeV::Rejected(
            ErrorKind::StaleVersion,
            stale_message(),
        ),
        submit_spec(s, raw, now).0 == s,
{
}

/// An in-place update only ever happens for a strictly newer version than
/// the one stored.
pub proof fn law_update_is_strictly_newer(s: Seq<ModEntryV>, raw: SubmissionV, now: int)
    requires
        submit_spec(s, raw, now).1 is Updated,
    ensures
        find_entry(s, entry_from_spec(normalized_spec(raw), now).id) is Some,
        newer_spec(
            normalized_spec(raw).version,
            find_entry(s, entry_from_spec(normalized_spec(raw), now).id)->0.info.version,
        ),
{
}

/// A submission for an existing identity whose secret differs from the
/// stored one is rejected as unauthorized, whatever its version says, and
/// the store is left unchanged.
pub proof fn law_authorization_isolation(
    s: Seq<ModEntryV>,
    raw: SubmissionV,
    now: int,
    e: ModEntryV,
)
    requires
        first_fault(normalized_spec(raw)) is None,
        all_resolvable(normalized_spec(raw).binaries),
        find_entry(s, entry_from_spec(normalized_spec(raw), now).id) == Some(e),
        e.secret != normalized_spec(raw).secret,
    ensures
        submit_spec(s, raw, now).1 == SubmitOutcomeV::Rejected(
            ErrorKind::Authorization,
            secret_message(),
        ),
        submit_spec(s, raw, now).0 == s,
{
}

/// Once a submission has created the entry for an identity, no later
/// submission for that identity can create again: it updates in place or is
/// rejected.
pub proof fn law_single_creation(
    s0: Seq<ModEntryV>,
    raw1: SubmissionV,
    raw2: SubmissionV,
    now1: int,
    now2: int,
)
    requires
        submit_spec(s0, raw1, now1).1 is Created,
        id_of(normalized_spec(raw2).owner, normalized_spec(raw2).name) == id_of(
            normalized_spec(raw1).owner,
            normalized_spec(raw1).name,
        ),
    ensures
        !(submit_spec(submit_spec(s0, raw1, now1).0, raw2, now2).1 is Created),
{
    let n1 = normalized_spec(raw1);
    let n2 = normalized_spec(raw2);
    let cand1 = entry_from_spec(n1, now1);
    let cand2 = entry_from_spec(n2, now2);
    lemma_find_entry_props(s0, cand1.id);
    lemma_find_entry_push_fresh(s0, cand1);
    let s1 = submit_spec(s0, raw1, now1).0;
    assert(s1 == s0.push(cand1));
    if first_fault(n2) is None && all_resolvable(n2.binaries) {
        assert(find_entry(s1, cand2.id) == Some(cand1));
    }
}

/// A binary URL that the store holds: some raw URL canonicalizes to it.
pub open spec fn is_canonical(b: Seq<char>) -> bool {
    exists|raw: Seq<char>| resolve_spec(raw) == Some(b)
}

/// An entry is valid when its version is a semantic version and every one of
/// its binary URLs passed allow-list canonicalization.
pub open spec fn entry_valid(e: ModEntryV) -> bool {
    semver_valid(e.info.version) && forall|i: int|
        0 <= i < e.info.binaries.len() ==> is_canonical(#[trigger] e.info.binaries[i])
}

/// Every entry of the store is valid.
pub open spec fn entries_valid(s: Seq<ModEntryV>) -> bool {
    forall|i: int| 0 <= i < s.len() ==> entry_valid(#[trigger] s[i])
}

/// The pipeline never stores an invalid version or an un-normalized binary
/// URL: a store of valid entries stays valid through any submission.
pub proof fn law_store_entries_valid(s: Seq<ModEntryV>, raw: SubmissionV, now: int)
    requires
        entries_valid(s),
    ensures
        entries_valid(submit_spec(s, raw, now).0),
{
    let n = normalized_spec(raw);
    if first_fault(n) is None && all_resolvable(n.binaries) {
        let cand = entry_from_spec(n, now);
        assert(entry_valid(cand)) by {
            assert forall|i: int|
                0 <= i < cand.info.binaries.len() implies is_canonical(
                #[trigger] cand.info.binaries[i],
            ) by {
                assert(cand.info.binaries[i] == resolve_spec(n.binaries[i])->0);
                assert(resolve_spec(n.binaries[i]) is Some);
                assert(resolve_spec(n.binaries[i]) == Some(cand.info.binaries[i]));
            }
        }
        let s1 = submit_spec(s, raw, now).0;
        match upsert_spec(s, cand).1 {
            UpsertOutcome::Created => {
                assert forall|i: int| 0 <= i < s1.len() implies entry_valid(#[trigger] s1[i]) by {
                    if i < s.len() {
                        assert(s1[i] == s[i]);
                    } else {
                        assert(s1[i] == cand);
                    }
                }
            },
            UpsertOutcome::Updated => {
                assert(s1 == replace_entry(s, cand));
                assert forall|i: int| 0 <= i < s1.len() implies entry_valid(#[trigger] s1[i]) by {
                    if s[i].id == cand.id {
                        assert(s1[i] == merged_entry(s[i], cand));
                        assert(s1[i].info == cand.info);
                    } else {
                        assert(s1[i] == s[i]);
                    }
                }
            },
            _ => {
            },
        }
    }
}

} // verus!

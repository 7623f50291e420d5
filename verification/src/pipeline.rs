use vstd::prelude::*;
use crate::entry::{all_resolvable, entry_from_spec, resolver_message, ModEntry};
use crate::error::{ErrorKind, RegistryError};
use crate::normalize::{fault_message, first_fault, normalized_spec, Submission, SubmissionV};
use crate::store::{upsert_spec, RegistryStore, UpsertOutcome};
use crate::entry::ModEntryV;

verus! {

// ---------------------------------------------------------------------------
// The submission pipeline: validate, canonicalize the binaries, derive the
// identity and its search text, then hand the candidate to the store's
// atomic conditional write, and surface the outcome.
// ---------------------------------------------------------------------------

/// What a submission came to: an entry was created, an entry was updated in
/// place, the submission was rejected with a caller-visible error, or the
/// store failed for reasons the caller is not told about.
pub enum SubmitOutcome {
    Created,
    Updated,
    Rejected(RegistryError),
    InternalError,
}

/// The ghost value of an outcome.
pub enum SubmitOutcomeV {
    Created,
    Updated,
    Rejected(ErrorKind, Seq<char>),
    InternalError,
}

impl View for SubmitOutcome {
    type V = SubmitOutcomeV;

    open spec fn view(&self) -> SubmitOutcomeV {
        match self {
            SubmitOutcome::Created => SubmitOutcomeV::Created,
            SubmitOutcome::Updated => SubmitOutcomeV::Updated,
            SubmitOutcome::Rejected(e) => SubmitOutcomeV::Rejected(e.kind, e.message@),
            SubmitOutcome::InternalError => SubmitOutcomeV::InternalError,
        }
    }
}

/// The caller-visible text of an authorization rejection. It does not say
/// whether the identity exists under another secret.
pub open spec fn secret_message() -> Seq<char> {
    "The secret was incorrect."@
}

/// The caller-visible text of a stale-version rejection.
pub open spec fn stale_message() -> Seq<char> {
    "The version was outdated."@
}

/// What one submission does to the store and reports back: a validation or
/// resolver rejection leaves the store untouched; otherwise the candidate
/// entry goes through the store's atomic conditional write.
pub open spec fn submit_spec(s: Seq<ModEntryV>, raw: SubmissionV, now: int) -> (
    Seq<ModEntryV>,
    SubmitOutcomeV,
) {
    let n = normalized_spec(raw);
    if first_fault(n) is Some {
        (
            s,
            SubmitOutcomeV::Rejected(
                ErrorKind::Validation,
                fault_message(first_fault(n)->0),
            ),
        )
    } else if !all_resolvable(n.binaries) {
        (s, SubmitOutcomeV::Rejected(ErrorKind::Validation, resolver_message()))
    } else {
        let cand = entry_from_spec(n, now);
        match upsert_spec(s, cand).1 {
            UpsertOutcome::Created => (upsert_spec(s, cand).0, SubmitOutcomeV::Created),
            UpsertOutcome::Updated => (upsert_spec(s, cand).0, SubmitOutcomeV::Updated),
            UpsertOutcome::RejectedSecret => (
                s,
                SubmitOutcomeV::Rejected(ErrorKind::Authorization, secret_message()),
            ),
            UpsertOutcome::RejectedStale => (
                s,
                SubmitOutcomeV::Rejected(ErrorKind::StaleVersion, stale_message()),
            ),
        }
    }
}

/// Runs one submission against the store: normalization and validation,
/// binary canonicalization, search derivation, then the atomic conditional
/// write, all with no side effect on any rejection.
pub fn submit(store: &mut RegistryStore, raw: Submission, now: i64) -> (r: SubmitOutcome)
    requires
        old(store).wf(),
    ensures
        final(store).wf(),
        final(store)@ == submit_spec(old(store)@, raw@, now as int).0,
        r@ == submit_spec(old(store)@, raw@, now as int).1,
{
    let entry = match ModEntry::from_submission(raw, now) {
        Ok(e) => e,
        Err(err) => {
            return SubmitOutcome::Rejected(err);
        },
    };
    match store.upsert(entry) {
        UpsertOutcome::Created => SubmitOutcome::Created,
        UpsertOutcome::Updated => SubmitOutcome::Updated,
        UpsertOutcome::RejectedSecret => SubmitOutcome::Rejected(
            RegistryError { kind: ErrorKind::Authorization, message: "The secret was incorrect." },
        ),
        UpsertOutcome::RejectedStale => SubmitOutcome::Rejected(
            RegistryError { kind: ErrorKind::StaleVersion, message: "The version was outdated." },
        ),
    }
}

} // verus!

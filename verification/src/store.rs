use vstd::prelude::*;
use crate::entry::{verify_spec, ModEntry, ModEntryV, Verification};
use crate::text::str_eq;

verus! {

// ---------------------------------------------------------------------------
// The identity-keyed record store. Its one write operation is the atomic
// insert-or-conditionally-update of the registry: the read of the existing
// entry, the authorization and version decision, and the write happen inside
// a single call that no other writer can interleave.
// ---------------------------------------------------------------------------

/// The entry stored under `id`, if any.
pub open spec fn find_entry(s: Seq<ModEntryV>, id: Seq<char>) -> Option<ModEntryV>
    decreases s.len(),
{
    if s.len() == 0 {
        None
    } else if s[0].id == id {
        Some(s[0])
    } else {
        find_entry(s.skip(1), id)
    }
}

/// No two entries share an identity.
pub open spec fn store_wf(s: Seq<ModEntryV>) -> bool {
    forall|i: int, j: int| 0 <= i < j < s.len() ==> s[i].id != s[j].id
}

/// A stored entry after an accepted update: `id`, `secret`, `published` and
/// `downloads` are untouched; `search`, `updated` and the payload come from
/// the candidate.
pub open spec fn merged_entry(e: ModEntryV, cand: ModEntryV) -> ModEntryV {
    ModEntryV {
        id: e.id,
        secret: e.secret,
        published: e.published,
        downloads: e.downloads,
        search: cand.search,
        updated: cand.updated,
        info: cand.info,
    }
}

/// The store with the entry whose identity matches the candidate replaced by
/// the merged entry.
pub open spec fn replace_entry(s: Seq<ModEntryV>, cand: ModEntryV) -> Seq<ModEntryV> {
    Seq::new(
        s.len(),
        |i: int|
            if s[i].id == cand.id {
                merged_entry(s[i], cand)
            } else {
                s[i]
            },
    )
}

/// The outcome of the atomic conditional write.
#[derive(Clone, Copy, Debug, PartialEq, Eq, Structural)]
pub enum UpsertOutcome {
    Created,
    Updated,
    RejectedSecret,
    RejectedStale,
}

/// What the atomic conditional write does: insert when the identity is free,
/// reject on a secret mismatch or a version that is not strictly newer, and
/// otherwise replace the mutable part of the stored entry.
pub open spec fn upsert_spec(s: Seq<ModEntryV>, cand: ModEntryV) -> (Seq<ModEntryV>, UpsertOutcome) {
    match find_entry(s, cand.id) {
        None => (s.push(cand), UpsertOutcome::Created),
        Some(e) => match verify_spec(cand, Some(e)) {
            Verification::Failure => (s, UpsertOutcome::RejectedSecret),
            Verification::Old => (s, UpsertOutcome::RejectedStale),
            _ => (replace_entry(s, cand), UpsertOutcome::Updated),
        },
    }
}

/// Where an entry is, it is unique; where none is found, no position holds
/// the identity.
pub proof fn lemma_find_entry_props(s: Seq<ModEntryV>, id: Seq<char>)
    ensures
        match find_entry(s, id) {
            Some(e) => e.id == id && exists|i: int| 0 <= i < s.len() && s[i] == e,
            None => forall|i: int| 0 <= i < s.len() ==> s[i].id != id,
        },
    decreases s.len(),
{
    if s.len() > 0 && s[0].id != id {
        lemma_find_entry_props(s.skip(1), id);
        match find_entry(s.skip(1), id) {
            Some(e) => {
                let i = choose|i: int| 0 <= i < s.skip(1).len() && s.skip(1)[i] == e;
                assert(s[i + 1] == e);
            },
            None => {
                assert forall|i: int| 0 <= i < s.len() implies s[i].id != id by {
                    if i > 0 {
                        assert(s.skip(1)[i - 1].id != id);
                    }
                }
            },
        }
    }
}

/// The identity-keyed store of registry entries.
pub struct RegistryStore {
    entries: Vec<ModEntry>,
}

impl View for RegistryStore {
    type V = Seq<ModEntryV>;

    closed spec fn view(&self) -> Seq<ModEntryV> {
        self.entries.deep_view()
    }
}

impl RegistryStore {
    /// No two stored entries share an identity.
    pub open spec fn wf(&self) -> bool {
        store_wf(self@)
    }

    /// An empty store.
    pub fn new() -> (r: RegistryStore)
        ensures
            r@ == Seq::<ModEntryV>::empty(),
            r.wf(),
    {
        let r = RegistryStore { entries: Vec::new() };
        proof {
            assert(r@ =~= Seq::<ModEntryV>::empty());
        }
        r
    }

    /// How many entries the store holds.
    pub fn len(&self) -> (r: usize)
        ensures
            r == self@.len(),
    {
        self.entries.len()
    }

    /// The entry at a position, for walking the store.
    pub fn nth(&self, i: usize) -> (r: Option<&ModEntry>)
        ensures
            match r {
                Some(e) => i < self@.len() && e@ == self@[i as int],
                None => i >= self@.len(),
            },
    {
        if i < self.entries.len() {
            proof {
                assert(self@[i as int] == self.entries@[i as int]@);
            }
            Some(&self.entries[i])
        } else {
            None
        }
    }

    /// The entry stored under `id`, if any.
    pub fn lookup(&self, id: &str) -> (r: Option<&ModEntry>)
        ensures
            match r {
                Some(e) => find_entry(self@, id@) == Some(e@),
                None => find_entry(self@, id@) is None,
            },
    {
        match self.find_index(id) {
            Some(i) => Some(&self.entries[i]),
            None => None,
        }
    }

    fn find_index(&self, id: &str) -> (r: Option<usize>)
        ensures
            match r {
                Some(i) => i < self@.len() && self@[i as int].id == id@ && find_entry(self@, id@)
                    == Some(self@[i as int]) && forall|j: int| 0 <= j < i ==> self@[j].id != id@,
                None => find_entry(self@, id@) is None,
            },
    {
        let n = self.entries.len();
        proof {
            assert(self@.skip(0) =~= self@);
        }
        let mut i: usize = 0;
        while i < n
            invariant
                n == self@.len(),
                self@.len() == self.entries@.len(),
                0 <= i <= n,
                find_entry(self@, id@) == find_entry(self@.skip(i as int), id@),
                forall|j: int| 0 <= j < i ==> self@[j].id != id@,
            decreases n - i,
        {
            proof {
                assert(self@[i as int] == self.entries@[i as int]@);
                assert(self@.skip(i as int)[0] == self@[i as int]);
            }
            if str_eq(self.entries[i].id.as_str(), id) {
                return Some(i);
            }
            proof {
                assert(self@.skip(i as int).skip(1) =~= self@.skip(i + 1));
            }
            i = i + 1;
        }
        proof {
            assert(self@.skip(n as int).len() == 0);
        }
        None
    }

    /// The atomic insert-or-conditionally-update: the existence check, the
    /// authorization and version decision, and the write are one operation.
    pub fn upsert(&mut self, candidate: ModEntry) -> (r: UpsertOutcome)
        requires
            old(self).wf(),
        ensures
            final(self).wf(),
            final(self)@ == upsert_spec(old(self)@, candidate@).0,
            r == upsert_spec(old(self)@, candidate@).1,
    {
        let ghost s0 = self@;
        match self.find_index(candidate.id.as_str()) {
            None => {
                proof {
                    lemma_find_entry_props(s0, candidate@.id);
                }
                let ghost prev = self.entries@;
                self.entries.push(candidate);
                proof {
                    assert forall|k: int| 0 <= k < self@.len() implies self@[k] == s0.push(
                        candidate@,
                    )[k] by {
                        assert(self@[k] == self.entries@[k]@);
                        if k < s0.len() {
                            assert(self.entries@[k] == prev[k]);
                            assert(s0[k] == prev[k]@);
                        }
                    }
                    assert(self@ =~= s0.push(candidate@));
                }
                UpsertOutcome::Created
            },
            Some(i) => {
                let decision = candidate.verify(Some(&self.entries[i]));
                proof {
                    assert(self@[i as int] == self.entries@[i as int]@);
                }
                match decision {
                    Verification::Failure => UpsertOutcome::RejectedSecret,
                    Verification::Old => UpsertOutcome::RejectedStale,
                    _ => {
                        proof {
                            assert(verify_spec(candidate@, Some(s0[i as int]))
                                == Verification::Success);
                        }
                        let old_entry = self.entries.remove(i);
                        let merged = ModEntry {
                            id: old_entry.id,
                            secret: old_entry.secret,
                            published: old_entry.published,
                            downloads: old_entry.downloads,
                            search: candidate.search,
                            updated: candidate.updated,
                            info: candidate.info,
                        };
                        self.entries.insert(i, merged);
                        proof {
                            assert forall|k: int| 0 <= k < self@.len() implies self@[k]
                                == replace_entry(s0, candidate@)[k] by {
                                assert(self@[k] == self.entries@[k]@);
                                if k < i {
                                    assert(s0[k].id != candidate@.id);
                                } else if k == i {
                                    assert(self@[k] == merged_entry(s0[k], candidate@));
                                } else {
                                    assert(s0[k].id != s0[i as int].id);
                                }
                            }
                            assert(self@ =~= replace_entry(s0, candidate@));
                            assert forall|a: int, b: int|
                                0 <= a < b < self@.len() implies self@[a].id != self@[b].id by {
                                assert(self@[a].id == s0[a].id && self@[b].id == s0[b].id);
                            }
                        }
                        UpsertOutcome::Updated
                    },
                }
            },
        }
    }
}

} // verus!

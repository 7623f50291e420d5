use vstd::prelude::*;
use vstd::string::{StrSliceExecFns, StringExecFns};
use crate::error::{ErrorKind, RegistryError};
use crate::normalize::{
    fault_message, first_fault, normalize_submission, normalized_spec, Submission, SubmissionV,
};
use crate::search::{search_text, tokenize};
use crate::urls::{resolve_binary, resolve_spec};
use crate::version::{newer_spec, version_newer};

verus! {

// ---------------------------------------------------------------------------
// The persisted record: the immutable identity, secret and creation
// timestamp, the derived search text, and the mutable payload that every
// accepted submission replaces wholesale.
// ---------------------------------------------------------------------------

/// The mutable payload of a persisted entry.
pub struct ModInfo {
    pub binaries: Vec<String>,
    pub version: String,
    pub description: String,
    pub homepage: String,
    pub icon: String,
}

/// The ghost value of a payload.
#[verifier::ext_equal]
pub struct ModInfoV {
    pub binaries: Seq<Seq<char>>,
    pub version: Seq<char>,
    pub description: Seq<char>,
    pub homepage: Seq<char>,
    pub icon: Seq<char>,
}

impl View for ModInfo {
    type V = ModInfoV;

    open spec fn view(&self) -> ModInfoV {
        ModInfoV {
            binaries: self.binaries.deep_view(),
            version: self.version@,
            description: self.description@,
            homepage: self.homepage@,
            icon: self.icon@,
        }
    }
}

impl DeepView for ModInfo {
    type V = ModInfoV;

    open spec fn deep_view(&self) -> ModInfoV {
        self.view()
    }
}

/// A persisted registry entry.
pub struct ModEntry {
    pub id: String,
    pub secret: String,
    pub search: String,
    pub published: i64,
    pub updated: i64,
    pub downloads: Option<u32>,
    pub info: ModInfo,
}

/// The ghost value of an entry.
#[verifier::ext_equal]
pub struct ModEntryV {
    pub id: Seq<char>,
    pub secret: Seq<char>,
    pub search: Seq<char>,
    pub published: int,
    pub updated: int,
    pub downloads: Option<u32>,
    pub info: ModInfoV,
}

impl View for ModEntry {
    type V = ModEntryV;

    open spec fn view(&self) -> ModEntryV {
        ModEntryV {
            id: self.id@,
            secret: self.secret@,
            search: self.search@,
            published: self.published as int,
            updated: self.updated as int,
            downloads: self.downloads,
            info: self.info@,
        }
    }
}

impl DeepView for ModEntry {
    type V = ModEntryV;

    open spec fn deep_view(&self) -> ModEntryV {
        self.view()
    }
}

// ---------------------------------------------------------------------------
// Building a candidate entry from a normalized submission.
// ---------------------------------------------------------------------------

/// The identity key `owner/name`.
pub open spec fn id_of(owner: Seq<char>, name: Seq<char>) -> Seq<char> {
    owner + seq!['/'] + name
}

/// Every raw URL of the list is accepted by the allow-list.
pub open spec fn all_resolvable(bs: Seq<Seq<char>>) -> bool {
    forall|i: int| 0 <= i < bs.len() ==> (#[trigger] resolve_spec(bs[i])) is Some
}

/// The canonical form of each URL of the list.
pub open spec fn resolve_each(bs: Seq<Seq<char>>) -> Seq<Seq<char>> {
    Seq::new(bs.len(), |i: int| resolve_spec(bs[i])->0)
}

/// The entry that a normalized, fully resolvable submission produces at the
/// given time: both timestamps are set to `now`, the download counter is
/// unset, and the search text is derived from the identity.
pub open spec fn entry_from_spec(n: SubmissionV, now: int) -> ModEntryV {
    ModEntryV {
        id: id_of(n.owner, n.name),
        secret: n.secret,
        search: search_text(id_of(n.owner, n.name)),
        published: now,
        updated: now,
        downloads: None,
        info: ModInfoV {
            binaries: resolve_each(n.binaries),
            version: n.version,
            description: n.description,
            homepage: n.homepage,
            icon: n.icon,
        },
    }
}

/// The caller-visible text rejecting a binary URL that no pattern accepts.
pub open spec fn resolver_message() -> Seq<char> {
    "Each binary URL must be a Google Drive file, GitHub release asset, or Discord attachment."@
}

/// Canonicalizes every URL of the list, or reports that some URL is not
/// accepted by the allow-list.
fn resolve_all(bs: &Vec<String>) -> (r: Option<Vec<String>>)
    ensures
        match r {
            Some(out) => all_resolvable(bs.deep_view()) && out.deep_view() == resolve_each(
                bs.deep_view(),
            ),
            None => !all_resolvable(bs.deep_view()),
        },
{
    let mut out: Vec<String> = Vec::new();
    let mut i: usize = 0;
    while i < bs.len()
        invariant
            0 <= i <= bs.len(),
            bs.deep_view().len() == bs.len(),
            out.deep_view().len() == i,
            forall|k: int|
                0 <= k < i ==> (#[trigger] resolve_spec(bs.deep_view()[k])) is Some
                    && out.deep_view()[k] == resolve_spec(bs.deep_view()[k])->0,
        decreases bs.len() - i,
    {
        proof {
            assert(bs.deep_view()[i as int] == bs@[i as int]@);
        }
        match resolve_binary(bs[i].as_str()) {
            None => {
                assert(resolve_spec(bs.deep_view()[i as int]) is None);
                return None;
            },
            Some(c) => {
                let ghost prev = out@;
                let ghost prev_deep = out.deep_view();
                out.push(c);
                proof {
                    assert forall|k: int|
                        0 <= k < i + 1 implies (#[trigger] resolve_spec(bs.deep_view()[k]))
                        is Some && out.deep_view()[k] == resolve_spec(bs.deep_view()[k])->0 by {
                        assert(out.deep_view()[k] == out@[k]@);
                        if k < i {
                            assert(out@[k] == prev[k]);
                            assert(prev_deep[k] == prev[k]@);
                        }
                    }
                }
                i = i + 1;
            },
        }
    }
    proof {
        assert(out.deep_view() =~= resolve_each(bs.deep_view()));
    }
    Some(out)
}

// ---------------------------------------------------------------------------
// The version arbiter: may a candidate replace what is stored?
// ---------------------------------------------------------------------------

/// The outcome of holding a candidate against the stored entry for its
/// identity: no entry exists, the secret does not match, the version is not
/// newer, or the write may proceed.
pub enum Verification {
    Success,
    Failure,
    NotFound,
    Old,
}

/// The arbiter's decision: a missing entry always admits the write; an
/// entry with a different secret rejects it; matching secrets admit it only
/// for a strictly newer version.
pub open spec fn verify_spec(cand: ModEntryV, existing: Option<ModEntryV>) -> Verification {
    match existing {
        None => Verification::NotFound,
        Some(e) => if e.secret != cand.secret {
            Verification::Failure
        } else if !newer_spec(cand.info.version, e.info.version) {
            Verification::Old
        } else {
            Verification::Success
        },
    }
}

/// The owner and name of an identity key, split at its first slash; a key
/// without a slash is exposed whole as the name, under a placeholder owner.
pub open spec fn id_parts_spec(id: Seq<char>) -> (Seq<char>, Seq<char>) {
    let p = crate::text::char_pos_from(id, '/', 0);
    if p >= id.len() {
        ("no-name"@, id)
    } else {
        (id.subrange(0, p), id.skip(p + 1))
    }
}

impl ModEntry {
    /// The owner and name that the entry's identity key serializes, for the
    /// read endpoints that expose them as separate fields.
    pub fn id_parts(&self) -> (r: (String, String))
        ensures
            (r.0@, r.1@) == id_parts_spec(self.id@),
    {
        let sn: usize = self.id.as_str().unicode_len();
        let p = crate::text::char_pos_from_exec(self.id.as_str(), '/', 0);
        proof {
            crate::text::lemma_char_pos_bounds(self.id@, '/', 0);
        }
        if p >= sn {
            ("no-name".to_owned(), self.id.as_str().to_owned())
        } else {
            let owner = self.id.as_str().substring_char(0, p).to_owned();
            let name = self.id.as_str().substring_char(p + 1, sn).to_owned();
            proof {
                assert(name@ =~= self.id@.skip(p + 1));
            }
            (owner, name)
        }
    }

    /// Builds the candidate entry of a raw submission at the given time:
    /// normalizes and bounds-checks every field, canonicalizes every binary
    /// URL, derives the identity key and its search text, and stamps both
    /// timestamps with `now`. Returns the first validation error otherwise.
    pub fn from_submission(submission: Submission, now: i64) -> (r: Result<ModEntry, RegistryError>)
        ensures
            ({
                let n = normalized_spec(submission@);
                match r {
                    Ok(e) => first_fault(n) is None && all_resolvable(n.binaries) && e@
                        == entry_from_spec(n, now as int),
                    Err(err) => err@.kind == ErrorKind::Validation && (first_fault(n) is Some
                        || !all_resolvable(n.binaries)) && err@.message == (match first_fault(n) {
                        Some(f) => fault_message(f),
                        None => resolver_message(),
                    }),
                }
            }),
    {
        let n = match normalize_submission(&submission) {
            Ok(n) => n,
            Err(e) => {
                return Err(e);
            },
        };
        let binaries = match resolve_all(&n.binaries) {
            Some(bs) => bs,
            None => {
                return Err(
                    RegistryError {
                        kind: ErrorKind::Validation,
                        message: "Each binary URL must be a Google Drive file, GitHub release asset, or Discord attachment.",
                    },
                );
            },
        };
        let mut id = n.owner.as_str().to_owned();
        id.append("/");
        id.append(n.name.as_str());
        proof {
            assert("/"@ =~= seq!['/']) by {
                reveal_strlit("/");
            }
            assert(id@ == id_of(n@.owner, n@.name));
        }
        let search = tokenize(id.as_str());
        let entry = ModEntry {
            id,
            secret: n.secret,
            search,
            published: now,
            updated: now,
            downloads: None,
            info: ModInfo {
                binaries,
                version: n.version,
                description: n.description,
                homepage: n.homepage,
                icon: n.icon,
            },
        };
        proof {
            assert(entry@ =~= entry_from_spec(normalized_spec(submission@), now as int));
        }
        Ok(entry)
    }

    /// Holds this candidate against the entry the store holds for its
    /// identity, if any: the authorization and version gate of the registry.
    pub fn verify(&self, existing: Option<&ModEntry>) -> (r: Verification)
        ensures
            r == verify_spec(
                self@,
                match existing {
                    Some(e) => Some(e@),
                    None => None,
                },
            ),
    {
        match existing {
            None => Verification::NotFound,
            Some(e) => {
                if !crate::text::str_eq(e.secret.as_str(), self.secret.as_str()) {
                    Verification::Failure
                } else if !version_newer(self.info.version.as_str(), e.info.version.as_str()) {
                    Verification::Old
                } else {
                    Verification::Success
                }
            },
        }
    }
}

} // verus!

use vstd::prelude::*;
use vstd::string::StrSliceExecFns;
use crate::error::{ErrorKind, RegistryError};
use crate::text::{
    alphanumeric_char, byte_len, is_alphanumeric_char, str_byte_len, trim_spec, trim_str,
};
use crate::urls::{is_https_spec, is_https_url};
use crate::version::{parse_semver, semver_valid};

verus! {

// ---------------------------------------------------------------------------
// The untrusted submission and its normalization: every string field is
// trimmed of surrounding whitespace, one leading `v` or `V` is stripped from
// the version, and the result is checked against the field bounds before any
// side effect.
// ---------------------------------------------------------------------------

/// An untrusted submission, exactly as the transport delivered it.
pub struct Submission {
    pub name: String,
    pub owner: String,
    pub secret: String,
    pub description: String,
    pub homepage: String,
    pub version: String,
    pub icon: String,
    pub binaries: Vec<String>,
}

/// The ghost value of a submission.
#[verifier::ext_equal]
pub struct SubmissionV {
    pub name: Seq<char>,
    pub owner: Seq<char>,
    pub secret: Seq<char>,
    pub description: Seq<char>,
    pub homepage: Seq<char>,
    pub version: Seq<char>,
    pub icon: Seq<char>,
    pub binaries: Seq<Seq<char>>,
}

impl View for Submission {
    type V = SubmissionV;

    open spec fn view(&self) -> SubmissionV {
        SubmissionV {
            name: self.name@,
            owner: self.owner@,
            secret: self.secret@,
            description: self.description@,
            homepage: self.homepage@,
            version: self.version@,
            icon: self.icon@,
            binaries: self.binaries.deep_view(),
        }
    }
}

impl DeepView for Submission {
    type V = SubmissionV;

    open spec fn deep_view(&self) -> SubmissionV {
        self.view()
    }
}

/// One leading `v` or `V` removed.
pub open spec fn strip_v(s: Seq<char>) -> Seq<char> {
    if s.len() > 0 && (s[0] == 'v' || s[0] == 'V') {
        s.skip(1)
    } else {
        s
    }
}

/// The submission after trimming and version-prefix stripping.
pub open spec fn normalized_spec(s: SubmissionV) -> SubmissionV {
    SubmissionV {
        name: trim_spec(s.name),
        owner: trim_spec(s.owner),
        secret: trim_spec(s.secret),
        description: trim_spec(s.description),
        homepage: trim_spec(s.homepage),
        version: strip_v(trim_spec(s.version)),
        icon: trim_spec(s.icon),
        binaries: trim_each(s.binaries),
    }
}

/// Every element trimmed of surrounding whitespace.
pub open spec fn trim_each(bs: Seq<Seq<char>>) -> Seq<Seq<char>> {
    Seq::new(bs.len(), |i: int| trim_spec(bs[i]))
}

/// A character allowed in an identity field: any Unicode letter or digit,
/// plus `.`, `-` and `_`. The alphanumeric class is deliberately Unicode-wide
/// rather than ASCII, and the identity length bounds below are counted in
/// characters, not bytes, so a non-ASCII owner or name is neither rejected
/// nor penalized for its encoding length.
pub open spec fn id_char_ok(c: char) -> bool {
    alphanumeric_char(c) || c == '.' || c == '-' || c == '_'
}

/// Every character of the field is allowed in an identity.
pub open spec fn id_chars_ok(s: Seq<char>) -> bool {
    forall|i: int| 0 <= i < s.len() ==> id_char_ok(s[i])
}

/// Some binary URL exceeds the byte bound.
pub open spec fn some_binary_too_long(bs: Seq<Seq<char>>) -> bool {
    exists|i: int| 0 <= i < bs.len() && byte_len(bs[i]) > 500
}

/// The ways a submission can be malformed.
#[derive(Clone, Copy, Debug, PartialEq, Eq, Structural)]
pub enum ValidationFault {
    NameLen,
    OwnerLen,
    SecretLen,
    VersionLen,
    DescriptionLen,
    HomepageLen,
    IconLen,
    BinariesEmpty,
    BinaryLen,
    NameChars,
    OwnerChars,
    VersionSemver,
    HomepageScheme,
    IconScheme,
}

/// The first violated bound of a normalized submission, in the fixed check
/// order, or `None` when the submission is well formed.
pub open spec fn first_fault(s: SubmissionV) -> Option<ValidationFault> {
    if s.name.len() == 0 || s.name.len() > 39 {
        Some(ValidationFault::NameLen)
    } else if s.owner.len() == 0 || s.owner.len() > 39 {
        Some(ValidationFault::OwnerLen)
    } else if s.secret.len() == 0 || byte_len(s.secret) > 500 {
        Some(ValidationFault::SecretLen)
    } else if s.version.len() == 0 || byte_len(s.version) > 50 {
        Some(ValidationFault::VersionLen)
    } else if byte_len(s.description) > 500 {
        Some(ValidationFault::DescriptionLen)
    } else if byte_len(s.homepage) > 500 {
        Some(ValidationFault::HomepageLen)
    } else if byte_len(s.icon) > 500 {
        Some(ValidationFault::IconLen)
    } else if s.binaries.len() == 0 {
        Some(ValidationFault::BinariesEmpty)
    } else if some_binary_too_long(s.binaries) {
        Some(ValidationFault::BinaryLen)
    } else if !id_chars_ok(s.name) {
        Some(ValidationFault::NameChars)
    } else if !id_chars_ok(s.owner) {
        Some(ValidationFault::OwnerChars)
    } else if !semver_valid(s.version) {
        Some(ValidationFault::VersionSemver)
    } else if s.homepage.len() > 0 && !is_https_spec(s.homepage) {
        Some(ValidationFault::HomepageScheme)
    } else if !is_https_spec(s.icon) {
        Some(ValidationFault::IconScheme)
    } else {
        None
    }
}

/// The caller-visible text of each validation fault.
pub open spec fn fault_message(f: ValidationFault) -> Seq<char> {
    match f {
        ValidationFault::NameLen => "Name must be 1-39 characters."@,
        ValidationFault::OwnerLen => "Owner must be 1-39 characters."@,
        ValidationFault::SecretLen => "Secret must be 1-500 bytes."@,
        ValidationFault::VersionLen => "Version must be 1-50 bytes."@,
        ValidationFault::DescriptionLen => "Description must be 500 bytes or less."@,
        ValidationFault::HomepageLen => "Homepage URL must be 500 bytes or less."@,
        ValidationFault::IconLen => "Icon URL must be 500 bytes or less."@,
        ValidationFault::BinariesEmpty => "At least one binary URL is required."@,
        ValidationFault::BinaryLen => "Binary URL must be 500 bytes or less."@,
        ValidationFault::NameChars => "Name must match [a-zA-Z0-9_-.]."@,
        ValidationFault::OwnerChars => "Owner must match [a-zA-Z0-9_-.]."@,
        ValidationFault::VersionSemver => "Version must comply with https://semver.org."@,
        ValidationFault::HomepageScheme => "Homepage must be a URL using the HTTPS scheme."@,
        ValidationFault::IconScheme => "Icon must be a URL using the HTTPS scheme."@,
    }
}

/// The caller-visible text of a validation fault.
pub fn fault_message_exec(f: &ValidationFault) -> (r: &'static str)
    ensures
        r@ == fault_message(*f),
{
    match f {
        ValidationFault::NameLen => "Name must be 1-39 characters.",
        ValidationFault::OwnerLen => "Owner must be 1-39 characters.",
        ValidationFault::SecretLen => "Secret must be 1-500 bytes.",
        ValidationFault::VersionLen => "Version must be 1-50 bytes.",
        ValidationFault::DescriptionLen => "Description must be 500 bytes or less.",
        ValidationFault::HomepageLen => "Homepage URL must be 500 bytes or less.",
        ValidationFault::IconLen => "Icon URL must be 500 bytes or less.",
        ValidationFault::BinariesEmpty => "At least one binary URL is required.",
        ValidationFault::BinaryLen => "Binary URL must be 500 bytes or less.",
        ValidationFault::NameChars => "Name must match [a-zA-Z0-9_-.].",
        ValidationFault::OwnerChars => "Owner must match [a-zA-Z0-9_-.].",
        ValidationFault::VersionSemver => "Version must comply with https://semver.org.",
        ValidationFault::HomepageScheme => "Homepage must be a URL using the HTTPS scheme.",
        ValidationFault::IconScheme => "Icon must be a URL using the HTTPS scheme.",
    }
}

/// Removes one leading `v` or `V`.
fn strip_v_exec(s: &str) -> (r: &str)
    ensures
        r@ == strip_v(s@),
{
    let sn: usize = s.unicode_len();
    if sn > 0 {
        let c = s.get_char(0);
        if c == 'v' || c == 'V' {
            let t = s.substring_char(1, sn);
            proof {
                assert(t@ =~= s@.skip(1));
            }
            return t;
        }
    }
    s
}

/// Trims every element of a URL list.
fn trim_all(bs: &Vec<String>) -> (r: Vec<String>)
    ensures
        r.deep_view() == trim_each(bs.deep_view()),
{
    let mut out: Vec<String> = Vec::new();
    let mut i: usize = 0;
    while i < bs.len()
        invariant
            0 <= i <= bs.len(),
            bs.deep_view().len() == bs.len(),
            out.deep_view().len() == i,
            forall|k: int| 0 <= k < i ==> out.deep_view()[k] == trim_spec(bs.deep_view()[k]),
        decreases bs.len() - i,
    {
        let t = trim_str(bs[i].as_str()).to_owned();
        proof {
            assert(bs.deep_view()[i as int] == bs@[i as int]@);
        }
        let ghost prev = out@;
        let ghost prev_deep = out.deep_view();
        out.push(t);
        proof {
            assert forall|k: int| 0 <= k < i + 1 implies out.deep_view()[k] == trim_spec(
                bs.deep_view()[k],
            ) by {
                assert(out.deep_view()[k] == out@[k]@);
                if k < i {
                    assert(out@[k] == prev[k]);
                    assert(prev_deep[k] == prev[k]@);
                    assert(prev_deep[k] == trim_spec(bs.deep_view()[k]));
                }
            }
        }
        i = i + 1;
    }
    proof {
        assert(out.deep_view() =~= trim_each(bs.deep_view()));
    }
    out
}

/// Whether some URL of the list exceeds the byte bound.
fn binaries_too_long(bs: &Vec<String>) -> (r: bool)
    ensures
        r == some_binary_too_long(bs.deep_view()),
{
    let mut i: usize = 0;
    while i < bs.len()
        invariant
            0 <= i <= bs.len(),
            bs.deep_view().len() == bs.len(),
            forall|k: int| 0 <= k < i ==> byte_len(bs.deep_view()[k]) <= 500,
        decreases bs.len() - i,
    {
        if str_byte_len(bs[i].as_str()) > 500 {
            assert(byte_len(bs.deep_view()[i as int]) > 500);
            assert(some_binary_too_long(bs.deep_view()));
            return true;
        }
        i = i + 1;
    }
    false
}

/// Whether every character of the field is allowed in an identity.
fn id_chars_ok_exec(s: &str) -> (r: bool)
    ensures
        r == id_chars_ok(s@),
{
    let sn: usize = s.unicode_len();
    let mut i: usize = 0;
    while i < sn
        invariant
            sn == s@.len(),
            0 <= i <= sn,
            forall|k: int| 0 <= k < i ==> id_char_ok(s@[k]),
        decreases sn - i,
    {
        let c = s.get_char(i);
        if !(is_alphanumeric_char(c) || c == '.' || c == '-' || c == '_') {
            assert(!id_char_ok(s@[i as int]));
            return false;
        }
        i = i + 1;
    }
    true
}

impl Submission {
    /// The submission with every string field trimmed and the version prefix
    /// stripped.
    pub fn normalized(&self) -> (r: Submission)
        ensures
            r@ == normalized_spec(self@),
    {
        let r = Submission {
            name: trim_str(self.name.as_str()).to_owned(),
            owner: trim_str(self.owner.as_str()).to_owned(),
            secret: trim_str(self.secret.as_str()).to_owned(),
            description: trim_str(self.description.as_str()).to_owned(),
            homepage: trim_str(self.homepage.as_str()).to_owned(),
            version: strip_v_exec(trim_str(self.version.as_str())).to_owned(),
            icon: trim_str(self.icon.as_str()).to_owned(),
            binaries: trim_all(&self.binaries),
        };
        proof {
            assert(r@ =~= normalized_spec(self@));
        }
        r
    }

    /// The first violated bound, in the fixed check order, of a submission
    /// that has already been normalized.
    pub fn first_fault_exec(&self) -> (r: Option<ValidationFault>)
        ensures
            r == first_fault(self@),
    {
        if self.name.as_str().is_empty() || self.name.as_str().unicode_len() > 39 {
            return Some(ValidationFault::NameLen);
        }
        if self.owner.as_str().is_empty() || self.owner.as_str().unicode_len() > 39 {
            return Some(ValidationFault::OwnerLen);
        }
        if self.secret.as_str().is_empty() || str_byte_len(self.secret.as_str()) > 500 {
            return Some(ValidationFault::SecretLen);
        }
        if self.version.as_str().is_empty() || str_byte_len(self.version.as_str()) > 50 {
            return Some(ValidationFault::VersionLen);
        }
        if str_byte_len(self.description.as_str()) > 500 {
            return Some(ValidationFault::DescriptionLen);
        }
        if str_byte_len(self.homepage.as_str()) > 500 {
            return Some(ValidationFault::HomepageLen);
        }
        if str_byte_len(self.icon.as_str()) > 500 {
            return Some(ValidationFault::IconLen);
        }
        if self.binaries.len() == 0 {
            return Some(ValidationFault::BinariesEmpty);
        }
        if binaries_too_long(&self.binaries) {
            return Some(ValidationFault::BinaryLen);
        }
        if !id_chars_ok_exec(self.name.as_str()) {
            return Some(ValidationFault::NameChars);
        }
        if !id_chars_ok_exec(self.owner.as_str()) {
            return Some(ValidationFault::OwnerChars);
        }
        if parse_semver(self.version.as_str()).is_none() {
            return Some(ValidationFault::VersionSemver);
        }
        if !self.homepage.as_str().is_empty() && !is_https_url(self.homepage.as_str()) {
            return Some(ValidationFault::HomepageScheme);
        }
        if !is_https_url(self.icon.as_str()) {
            return Some(ValidationFault::IconScheme);
        }
        None
    }
}

/// Trims and bounds-checks a raw submission: the normalized submission when
/// every field is in bounds, otherwise the first violation found, as a
/// validation error with its fixed message.
pub fn normalize_submission(raw: &Submission) -> (r: Result<Submission, RegistryError>)
    ensures
        ({
            let n = normalized_spec(raw@);
            match r {
                Ok(s) => first_fault(n) is None && s@ == n,
                Err(e) => first_fault(n) is Some && e@.kind == ErrorKind::Validation
                    && e@.message == fault_message(first_fault(n)->0),
            }
        }),
{
    let n = raw.normalized();
    match n.first_fault_exec() {
        None => Ok(n),
        Some(f) => Err(
            RegistryError { kind: ErrorKind::Validation, message: fault_message_exec(&f) },
        ),
    }
}

} // verus!

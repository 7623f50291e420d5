use vstd::prelude::*;
use crate::text::{all_digits, all_digits_exec, char_pos_from, lemma_char_pos_bounds};
use vstd::string::StrSliceExecFns;

verus! {

// ---------------------------------------------------------------------------
// Parsing, delegated to the semver crate.
// ---------------------------------------------------------------------------

/// What semver::Version::parse yields for a given string: `None` when the
/// string is not a valid semantic version, otherwise the major, minor and
/// patch numbers and the pre-release component (build metadata is dropped:
/// ordering ignores it).
pub uninterp spec fn semver_parse(s: Seq<char>) -> Option<(u64, u64, u64, Seq<char>)>;

/// The string is a valid `MAJOR.MINOR.PATCH[-pre][+build]` semantic version.
pub open spec fn semver_valid(s: Seq<char>) -> bool {
    semver_parse(s) is Some
}

/// The numeric components and pre-release of a parsed version.
pub struct VersionParts {
    pub major: u64,
    pub minor: u64,
    pub patch: u64,
    pub pre: String,
}

impl View for VersionParts {
    type V = (u64, u64, u64, Seq<char>);

    open spec fn view(&self) -> (u64, u64, u64, Seq<char>) {
        (self.major, self.minor, self.patch, self.pre@)
    }
}

/// Relies on semver::Version::parse: accepts exactly the semantic-version
/// grammar and decomposes the text into major, minor, patch, pre-release and
/// build metadata, a function of the string alone.
#[verifier::external_body]
pub(crate) fn parse_semver(s: &str) -> (r: Option<VersionParts>)
    ensures
        r is Some <==> semver_valid(s@),
        r is Some ==> (r->0)@ == semver_parse(s@)->0,
{
    match semver::Version::parse(s) {
        Ok(v) => Some(VersionParts {
            major: v.major,
            minor: v.minor,
            patch: v.patch,
            pre: v.pre.as_str().to_string(),
        }),
        Err(_) => None,
    }
}

// ---------------------------------------------------------------------------
// Precedence, computed here: major, minor, patch numerically, then
// pre-release per the semantic-versioning rules; build metadata is ignored.
// ---------------------------------------------------------------------------

/// Lexicographic order on character sequences.
pub open spec fn lex_lt(a: Seq<char>, b: Seq<char>) -> bool
    decreases a.len(),
{
    if b.len() == 0 {
        false
    } else if a.len() == 0 {
        true
    } else if (a[0] as u32) < (b[0] as u32) {
        true
    } else if (a[0] as u32) > (b[0] as u32) {
        false
    } else {
        lex_lt(a.skip(1), b.skip(1))
    }
}

/// Order of two pre-release identifiers: digit-only identifiers compare
/// numerically (no leading zeroes, so by length and then lexically) and below
/// any alphanumeric identifier; alphanumeric identifiers compare lexically.
pub open spec fn ident_cmp(a: Seq<char>, b: Seq<char>) -> int {
    if all_digits(a) && all_digits(b) {
        if a.len() < b.len() {
            -1
        } else if a.len() > b.len() {
            1
        } else if lex_lt(a, b) {
            -1
        } else if lex_lt(b, a) {
            1
        } else {
            0
        }
    } else if all_digits(a) {
        -1
    } else if all_digits(b) {
        1
    } else {
        if lex_lt(a, b) {
            -1
        } else if lex_lt(b, a) {
            1
        } else {
            0
        }
    }
}

/// The dot-separated identifiers of `s` from position `from` on.
pub open spec fn split_dots_from(s: Seq<char>, from: int) -> Seq<Seq<char>>
    decreases s.len() + 1 - from,
    via split_dots_from_decreases
{
    if char_pos_from(s, '.', from) >= s.len() {
        seq![s.subrange(if 0 <= from <= s.len() { from } else { 0 }, s.len() as int)]
    } else {
        seq![s.subrange(if 0 <= from { from } else { 0 }, char_pos_from(s, '.', from))]
            + split_dots_from(s, char_pos_from(s, '.', from) + 1)
    }
}

#[via_fn]
proof fn split_dots_from_decreases(s: Seq<char>, from: int) {
    lemma_char_pos_bounds(s, '.', from);
}

/// Element-wise order of two identifier lists; a shorter list precedes a
/// longer one that it is a prefix of.
pub open spec fn ids_cmp(a: Seq<Seq<char>>, b: Seq<Seq<char>>) -> int
    decreases a.len(),
{
    if a.len() == 0 && b.len() == 0 {
        0
    } else if a.len() == 0 {
        -1
    } else if b.len() == 0 {
        1
    } else if ident_cmp(a[0], b[0]) != 0 {
        ident_cmp(a[0], b[0])
    } else {
        ids_cmp(a.skip(1), b.skip(1))
    }
}

/// Order of two pre-release components: an empty component (a full release)
/// is above any pre-release; two pre-releases compare by their identifiers.
pub open spec fn pre_cmp(a: Seq<char>, b: Seq<char>) -> int {
    if a.len() == 0 && b.len() == 0 {
        0
    } else if a.len() == 0 {
        1
    } else if b.len() == 0 {
        -1
    } else {
        ids_cmp(split_dots_from(a, 0), split_dots_from(b, 0))
    }
}

/// Strict precedence order on parsed versions.
pub open spec fn parts_lt(a: (u64, u64, u64, Seq<char>), b: (u64, u64, u64, Seq<char>)) -> bool {
    if a.0 != b.0 {
        a.0 < b.0
    } else if a.1 != b.1 {
        a.1 < b.1
    } else if a.2 != b.2 {
        a.2 < b.2
    } else {
        pre_cmp(a.3, b.3) < 0
    }
}

/// The candidate version string parses and is strictly above the stored one;
/// a string that does not parse is never considered newer.
pub open spec fn newer_spec(cand: Seq<char>, stored: Seq<char>) -> bool {
    semver_valid(cand) && semver_valid(stored) && parts_lt(
        semver_parse(stored)->0,
        semver_parse(cand)->0,
    )
}

// ---------------------------------------------------------------------------
// Executable comparison.
// ---------------------------------------------------------------------------

/// Lexicographic comparison of two strings.
fn lex_lt_exec(a: &str, b: &str) -> (r: bool)
    ensures
        r == lex_lt(a@, b@),
{
    let an: usize = a.unicode_len();
    let bn: usize = b.unicode_len();
    let mut i: usize = 0;
    proof {
        assert(a@.skip(0) =~= a@);
        assert(b@.skip(0) =~= b@);
    }
    loop
        invariant
            an == a@.len(),
            bn == b@.len(),
            0 <= i <= an,
            0 <= i <= bn,
            lex_lt(a@, b@) == lex_lt(a@.skip(i as int), b@.skip(i as int)),
        decreases an - i,
    {
        let ghost ar = a@.skip(i as int);
        let ghost br = b@.skip(i as int);
        if i >= bn {
            assert(br.len() == 0);
            return false;
        }
        if i >= an {
            assert(ar.len() == 0 && br.len() > 0);
            return true;
        }
        let ca = a.get_char(i);
        let cb = b.get_char(i);
        assert(ar[0] == a@[i as int] && br[0] == b@[i as int]);
        if (ca as u32) < (cb as u32) {
            return true;
        }
        if (ca as u32) > (cb as u32) {
            return false;
        }
        proof {
            assert(ar.skip(1) =~= a@.skip(i + 1));
            assert(br.skip(1) =~= b@.skip(i + 1));
        }
        i = i + 1;
    }
}

/// Comparison of two pre-release identifiers.
fn ident_cmp_exec(a: &str, b: &str) -> (r: i32)
    ensures
        r == ident_cmp(a@, b@),
{
    let da = all_digits_exec(a);
    let db = all_digits_exec(b);
    if da && db {
        let an: usize = a.unicode_len();
        let bn: usize = b.unicode_len();
        if an < bn {
            -1
        } else if an > bn {
            1
        } else if lex_lt_exec(a, b) {
            -1
        } else if lex_lt_exec(b, a) {
            1
        } else {
            0
        }
    } else if da {
        -1
    } else if db {
        1
    } else {
        if lex_lt_exec(a, b) {
            -1
        } else if lex_lt_exec(b, a) {
            1
        } else {
            0
        }
    }
}

/// Splits a pre-release component into its dot-separated identifiers.
fn split_dots_exec(s: &str) -> (r: Vec<String>)
    ensures
        r.deep_view() == split_dots_from(s@, 0),
{
    let sn: usize = s.unicode_len();
    let mut acc: Vec<String> = Vec::new();
    let mut pos: usize = 0;
    loop
        invariant
            sn == s@.len(),
            0 <= pos <= sn,
            acc.deep_view() + split_dots_from(s@, pos as int) == split_dots_from(s@, 0),
        decreases sn - pos,
    {
        let p = crate::text::char_pos_from_exec(s, '.', pos);
        proof {
            lemma_char_pos_bounds(s@, '.', pos as int);
        }
        if p >= sn {
            let seg = s.substring_char(pos, sn).to_owned();
            let ghost before = acc.deep_view();
            acc.push(seg);
            proof {
                assert(acc.deep_view() =~= before.push(s@.subrange(pos as int, sn as int)));
                assert(split_dots_from(s@, pos as int) == seq![
                    s@.subrange(pos as int, sn as int),
                ]);
                assert(acc.deep_view() =~= split_dots_from(s@, 0));
            }
            return acc;
        }
        let seg = s.substring_char(pos, p).to_owned();
        let ghost before = acc.deep_view();
        acc.push(seg);
        proof {
            assert(acc.deep_view() =~= before.push(s@.subrange(pos as int, p as int)));
            assert(split_dots_from(s@, pos as int) == seq![s@.subrange(pos as int, p as int)]
                + split_dots_from(s@, p + 1));
            assert(acc.deep_view() + split_dots_from(s@, p + 1) =~= split_dots_from(s@, 0));
        }
        pos = p + 1;
    }
}

/// Comparison of two identifier lists.
fn ids_cmp_exec(a: &Vec<String>, b: &Vec<String>) -> (r: i32)
    ensures
        r == ids_cmp(a.deep_view(), b.deep_view()),
{
    let mut i: usize = 0;
    proof {
        assert(a.deep_view().skip(0) =~= a.deep_view());
        assert(b.deep_view().skip(0) =~= b.deep_view());
    }
    loop
        invariant
            0 <= i <= a.len(),
            0 <= i <= b.len(),
            a.deep_view().len() == a.len(),
            b.deep_view().len() == b.len(),
            ids_cmp(a.deep_view(), b.deep_view()) == ids_cmp(
                a.deep_view().skip(i as int),
                b.deep_view().skip(i as int),
            ),
        decreases a.len() - i,
    {
        let ghost ar = a.deep_view().skip(i as int);
        let ghost br = b.deep_view().skip(i as int);
        if i >= a.len() && i >= b.len() {
            assert(ar.len() == 0 && br.len() == 0);
            return 0;
        }
        if i >= a.len() {
            assert(ar.len() == 0 && br.len() > 0);
            return -1;
        }
        if i >= b.len() {
            assert(br.len() == 0 && ar.len() > 0);
            return 1;
        }
        let c = ident_cmp_exec(&a[i], &b[i]);
        assert(ar[0] == a.deep_view()[i as int] && br[0] == b.deep_view()[i as int]);
        if c != 0 {
            return c;
        }
        proof {
            assert(ar.skip(1) =~= a.deep_view().skip(i + 1));
            assert(br.skip(1) =~= b.deep_view().skip(i + 1));
        }
        i = i + 1;
    }
}

/// Comparison of two pre-release components.
fn pre_cmp_exec(a: &str, b: &str) -> (r: i32)
    ensures
        r == pre_cmp(a@, b@),
{
    if a.is_empty() && b.is_empty() {
        0
    } else if a.is_empty() {
        1
    } else if b.is_empty() {
        -1
    } else {
        let ia = split_dots_exec(a);
        let ib = split_dots_exec(b);
        ids_cmp_exec(&ia, &ib)
    }
}

impl VersionParts {
    /// Whether `cand` has strictly higher precedence than `self`.
    pub fn precedes(&self, cand: &VersionParts) -> (r: bool)
        ensures
            r == parts_lt(self@, cand@),
    {
        if self.major != cand.major {
            self.major < cand.major
        } else if self.minor != cand.minor {
            self.minor < cand.minor
        } else if self.patch != cand.patch {
            self.patch < cand.patch
        } else {
            pre_cmp_exec(self.pre.as_str(), cand.pre.as_str()) < 0
        }
    }
}

/// Decides whether the candidate version string is strictly newer than the
/// stored one; any string that fails to parse makes the answer `false`.
pub fn version_newer(cand: &str, stored: &str) -> (r: bool)
    ensures
        r == newer_spec(cand@, stored@),
{
    let pc = parse_semver(cand);
    let ps = parse_semver(stored);
    match (pc, ps) {
        (Some(c), Some(s)) => s.precedes(&c),
        _ => false,
    }
}

// ---------------------------------------------------------------------------
// Order facts used by the registry laws.
// ---------------------------------------------------------------------------

proof fn lemma_lex_lt_irrefl(a: Seq<char>)
    ensures
        !lex_lt(a, a),
    decreases a.len(),
{
    if a.len() > 0 {
        lemma_lex_lt_irrefl(a.skip(1));
    }
}

proof fn lemma_ident_cmp_refl(a: Seq<char>)
    ensures
        ident_cmp(a, a) == 0,
{
    lemma_lex_lt_irrefl(a);
}

proof fn lemma_ids_cmp_refl(l: Seq<Seq<char>>)
    ensures
        ids_cmp(l, l) == 0,
    decreases l.len(),
{
    if l.len() > 0 {
        lemma_ident_cmp_refl(l[0]);
        lemma_ids_cmp_refl(l.skip(1));
    }
}

/// A version never has strictly higher precedence than itself.
pub proof fn lemma_parts_lt_irrefl(p: (u64, u64, u64, Seq<char>))
    ensures
        !parts_lt(p, p),
{
    if p.3.len() > 0 {
        lemma_ids_cmp_refl(split_dots_from(p.3, 0));
    }
}

/// A version string is never newer than itself.
pub proof fn lemma_newer_irrefl(v: Seq<char>)
    ensures
        !newer_spec(v, v),
{
    if semver_valid(v) {
        lemma_parts_lt_irrefl(semver_parse(v)->0);
    }
}

} // verus!

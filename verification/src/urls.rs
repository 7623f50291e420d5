use vstd::prelude::*;
use vstd::string::{StrSliceExecFns, StringExecFns};
use crate::text::{
    all_digits, all_digits_exec, char_pos_from, char_pos_from_exec, find_sub_from,
    lemma_char_pos_bounds, lemma_find_from_props, lemma_rfind_props, match_at, rfind_sub_upto,
    rfind_upto,
};

verus! {

// ---------------------------------------------------------------------------
// The allow-list of binary hosting patterns, tried in this fixed order:
// a Google Drive file-view URL (rewritten to the direct-download form), a
// Google Drive direct-download URL, a GitHub release-asset URL under the
// organization's path, and a Discord CDN attachment URL (each passed through
// as the matched substring).
// ---------------------------------------------------------------------------

/// The four allow-listed URL shapes.
#[derive(Clone, Copy)]
pub enum UrlPattern {
    DriveFile,
    DriveDirect,
    Github,
    Discord,
}

pub open spec fn drive_file_prefix() -> Seq<char> {
    "https://drive.google.com/file/d/"@
}

pub open spec fn drive_direct_prefix() -> Seq<char> {
    "https://drive.google.com/uc?export=download&id="@
}

pub open spec fn github_prefix() -> Seq<char> {
    "https://github.com/Dual-Iron/"@
}

pub open spec fn download_marker() -> Seq<char> {
    "/download/"@
}

pub open spec fn discord_prefix() -> Seq<char> {
    "https://cdn.discordapp.com/attachments/"@
}

pub open spec fn pat_prefix(t: UrlPattern) -> Seq<char> {
    match t {
        UrlPattern::DriveFile => drive_file_prefix(),
        UrlPattern::DriveDirect => drive_direct_prefix(),
        UrlPattern::Github => github_prefix(),
        UrlPattern::Discord => discord_prefix(),
    }
}

/// A Drive file-view URL starts at `i`: the prefix followed by a nonempty
/// file identifier.
pub open spec fn drive_file_at(s: Seq<char>, i: int) -> bool {
    let e = i + drive_file_prefix().len();
    match_at(s, drive_file_prefix(), i) && e < s.len() && s[e] != '/'
}

/// The file identifier that follows a Drive file-view prefix at `i`.
pub open spec fn drive_file_id(s: Seq<char>, i: int) -> Seq<char> {
    let e = i + drive_file_prefix().len();
    s.subrange(e, char_pos_from(s, '/', e))
}

/// A Drive direct-download URL starts at `i`: the prefix followed by a
/// nonempty file identifier.
pub open spec fn drive_direct_at(s: Seq<char>, i: int) -> bool {
    let e = i + drive_direct_prefix().len();
    match_at(s, drive_direct_prefix(), i) && e < s.len() && s[e] != '/'
}

/// Where the Drive direct-download URL that starts at `i` ends.
pub open spec fn drive_direct_end(s: Seq<char>, i: int) -> int {
    char_pos_from(s, '/', i + drive_direct_prefix().len())
}

/// A GitHub release-asset URL starts at `i`: the organization prefix, at
/// least two path segments, the download marker, then a nonempty tag segment
/// and a nonempty asset-file segment.
pub open spec fn github_at(s: Seq<char>, i: int) -> bool {
    let b = i + github_prefix().len();
    match_at(s, github_prefix(), i) && match rfind_upto(
        s,
        download_marker(),
        s.len() as int,
    ) {
        Some(d) => {
            let k = char_pos_from(s, '/', b + 1);
            let m = char_pos_from(s, '/', d + download_marker().len());
            let fe = char_pos_from(s, '/', m + 1);
            k + 2 <= d && m < s.len() && m > d + download_marker().len() && fe > m + 1
        },
        None => false,
    }
}

/// Where the GitHub release-asset URL that starts at `i` ends.
pub open spec fn github_end(s: Seq<char>, i: int) -> int {
    let d = rfind_upto(s, download_marker(), s.len() as int)->0;
    let m = char_pos_from(s, '/', d + download_marker().len());
    char_pos_from(s, '/', m + 1)
}

/// A Discord attachment URL starts at `i`: the prefix, two nonempty numeric
/// path segments, then a nonempty file segment.
pub open spec fn discord_at(s: Seq<char>, i: int) -> bool {
    let a0 = i + discord_prefix().len();
    match_at(s, discord_prefix(), i) && {
        let d1 = char_pos_from(s, '/', a0);
        let d2 = char_pos_from(s, '/', d1 + 1);
        let fe = char_pos_from(s, '/', d2 + 1);
        d1 < s.len() && d1 > a0 && all_digits(s.subrange(a0, d1)) && d2 < s.len() && d2 > d1 + 1
            && all_digits(s.subrange(d1 + 1, d2)) && fe > d2 + 1
    }
}

/// Where the Discord attachment URL that starts at `i` ends.
pub open spec fn discord_end(s: Seq<char>, i: int) -> int {
    let d1 = char_pos_from(s, '/', i + discord_prefix().len());
    let d2 = char_pos_from(s, '/', d1 + 1);
    char_pos_from(s, '/', d2 + 1)
}

/// Whether the given pattern matches in full at position `i`.
pub open spec fn pat_at(s: Seq<char>, t: UrlPattern, i: int) -> bool {
    match t {
        UrlPattern::DriveFile => drive_file_at(s, i),
        UrlPattern::DriveDirect => drive_direct_at(s, i),
        UrlPattern::Github => github_at(s, i),
        UrlPattern::Discord => discord_at(s, i),
    }
}

/// The leftmost position at or after `from` where the pattern matches.
pub open spec fn pat_pos_from(s: Seq<char>, t: UrlPattern, from: int) -> Option<int>
    decreases s.len() + 1 - from,
{
    if from < 0 || from > s.len() {
        None
    } else if pat_at(s, t, from) {
        Some(from)
    } else if from >= s.len() {
        None
    } else {
        pat_pos_from(s, t, from + 1)
    }
}

/// A search can skip over any range of positions where the pattern fails.
proof fn lemma_pat_pos_skip(s: Seq<char>, t: UrlPattern, a: int, b: int)
    requires
        0 <= a <= b <= s.len(),
        forall|j: int| a <= j < b ==> !pat_at(s, t, j),
    ensures
        pat_pos_from(s, t, a) == pat_pos_from(s, t, b),
    decreases b - a,
{
    if a < b {
        lemma_pat_pos_skip(s, t, a + 1, b);
    }
}

pub open spec fn drive_file_pos(s: Seq<char>) -> Option<int> {
    pat_pos_from(s, UrlPattern::DriveFile, 0)
}

pub open spec fn drive_direct_pos(s: Seq<char>) -> Option<int> {
    pat_pos_from(s, UrlPattern::DriveDirect, 0)
}

pub open spec fn github_pos(s: Seq<char>) -> Option<int> {
    pat_pos_from(s, UrlPattern::Github, 0)
}

pub open spec fn discord_pos(s: Seq<char>) -> Option<int> {
    pat_pos_from(s, UrlPattern::Discord, 0)
}

/// The canonical stored form of a binary URL: the Drive rewrite for a
/// file-view URL, otherwise the matched substring of the first allow-listed
/// pattern, or `None` when no pattern matches.
pub open spec fn resolve_spec(s: Seq<char>) -> Option<Seq<char>> {
    if drive_file_pos(s) is Some {
        Some(drive_direct_prefix() + drive_file_id(s, drive_file_pos(s)->0))
    } else if drive_direct_pos(s) is Some {
        Some(s.subrange(drive_direct_pos(s)->0, drive_direct_end(s, drive_direct_pos(s)->0)))
    } else if github_pos(s) is Some {
        Some(s.subrange(github_pos(s)->0, github_end(s, github_pos(s)->0)))
    } else if discord_pos(s) is Some {
        Some(s.subrange(discord_pos(s)->0, discord_end(s, discord_pos(s)->0)))
    } else {
        None
    }
}

// ---------------------------------------------------------------------------
// The round trip of the Drive rewrite: its output is already canonical.
// ---------------------------------------------------------------------------

proof fn lemma_pat_pos_is_match(s: Seq<char>, t: UrlPattern, from: int)
    ensures
        match pat_pos_from(s, t, from) {
            Some(i) => from <= i <= s.len() && pat_at(s, t, i),
            None => true,
        },
    decreases s.len() + 1 - from,
{
    if 0 <= from <= s.len() && !pat_at(s, t, from) && from < s.len() {
        lemma_pat_pos_is_match(s, t, from + 1);
    }
}

/// The Drive file-view pattern never occurs in a canonical direct-download
/// URL whose identifier has no slash.
proof fn lemma_no_drive_file_in_canonical(id: Seq<char>)
    requires
        id.len() > 0,
        forall|k: int| 0 <= k < id.len() ==> id[k] != '/',
    ensures
        forall|j: int| !drive_file_at(drive_direct_prefix() + id, j),
{
    reveal_strlit("https://drive.google.com/file/d/");
    reveal_strlit("https://drive.google.com/uc?export=download&id=");
    let t = drive_direct_prefix() + id;
    let p = drive_file_prefix();
    assert forall|j: int| !drive_file_at(t, j) by {
        if match_at(t, p, j) {
            assert(t.subrange(j, j + 32)[0] == t[j]);
            assert(t.subrange(j, j + 32)[6] == t[j + 6]);
            assert(t.subrange(j, j + 32)[25] == t[j + 25]);
            if j == 0 {
                assert(t[25] == drive_direct_prefix()[25]);
                assert(false);
            } else if j <= 46 {
                assert(t[j] == drive_direct_prefix()[j]);
                assert(drive_direct_prefix()[j] != 'h') by {
                    assert(1 <= j <= 46);
                }
                assert(false);
            } else {
                assert(t[j + 6] == id[j + 6 - 47]);
                assert(false);
            }
        }
    }
}

/// A canonical Drive direct-download URL resolves to itself.
proof fn lemma_drive_canonical_fixpoint(id: Seq<char>)
    requires
        id.len() > 0,
        forall|k: int| 0 <= k < id.len() ==> id[k] != '/',
    ensures
        resolve_spec(drive_direct_prefix() + id) == Some(drive_direct_prefix() + id),
{
    let t = drive_direct_prefix() + id;
    let pl = drive_direct_prefix().len() as int;
    lemma_no_drive_file_in_canonical(id);
    lemma_pat_pos_skip(t, UrlPattern::DriveFile, 0, t.len() as int);
    assert(pat_pos_from(t, UrlPattern::DriveFile, t.len() as int) is None);
    assert(t.subrange(0, pl) =~= drive_direct_prefix());
    assert(t[pl] == id[0]);
    assert(drive_direct_at(t, 0));
    assert(drive_direct_pos(t) == Some(0int));
    assert forall|k: int| pl <= k < t.len() implies t[k] != '/' by {
        assert(t[k] == id[k - pl]);
    }
    crate::text::lemma_char_pos_absent(t, '/', pl);
    assert(drive_direct_end(t, 0) == t.len());
    assert(t.subrange(0, t.len() as int) =~= t);
}

/// The binary-normalization round trip: wherever the resolver rewrites a
/// Drive file-view URL, its output is itself canonical and is stored
/// unchanged if resolved again.
pub proof fn law_drive_rewrite_round_trip(s: Seq<char>)
    requires
        drive_file_pos(s) is Some,
    ensures
        resolve_spec(s) is Some,
        resolve_spec(resolve_spec(s)->0) == Some(resolve_spec(s)->0),
{
    lemma_pat_pos_is_match(s, UrlPattern::DriveFile, 0);
    let i = drive_file_pos(s)->0;
    let e = i + drive_file_prefix().len();
    let idseq = drive_file_id(s, i);
    lemma_char_pos_bounds(s, '/', e);
    let pos = char_pos_from(s, '/', e);
    assert(pos > e) by {
        if pos == e {
            assert(s[pos] == '/');
        }
    }
    assert(idseq.len() > 0);
    assert forall|k: int| 0 <= k < idseq.len() implies idseq[k] != '/' by {
        assert(idseq[k] == s[e + k]);
    }
    lemma_drive_canonical_fixpoint(idseq);
}

// ---------------------------------------------------------------------------
// URL scheme checking, delegated to the url crate.
// ---------------------------------------------------------------------------

/// What url::Url::parse followed by Url::scheme yields for a given string:
/// `None` when the string is not a valid URL, otherwise its scheme in
/// lowercase.
pub uninterp spec fn url_scheme(s: Seq<char>) -> Option<Seq<char>>;

/// Relies on url::Url::parse and url::Url::scheme: the lowercased scheme of
/// a parsed URL, a function of the string alone.
#[verifier::external_body]
fn parse_url_scheme(s: &str) -> (r: Option<String>)
    ensures
        r.deep_view() == url_scheme(s@),
{
    match url::Url::parse(s) {
        Ok(u) => Some(u.scheme().to_string()),
        Err(_) => None,
    }
}

/// The string parses as a URL whose scheme is `https`.
pub open spec fn is_https_spec(s: Seq<char>) -> bool {
    url_scheme(s) == Some("https"@)
}

/// Whether the string is a URL using the HTTPS scheme.
pub fn is_https_url(s: &str) -> (r: bool)
    ensures
        r == is_https_spec(s@),
{
    match parse_url_scheme(s) {
        Some(scheme) => crate::text::str_eq(scheme.as_str(), "https"),
        None => false,
    }
}

// ---------------------------------------------------------------------------
// Executable matching.
// ---------------------------------------------------------------------------

fn pat_prefix_exec(t: &UrlPattern) -> (r: &'static str)
    ensures
        r@ == pat_prefix(*t),
{
    match t {
        UrlPattern::DriveFile => "https://drive.google.com/file/d/",
        UrlPattern::DriveDirect => "https://drive.google.com/uc?export=download&id=",
        UrlPattern::Github => "https://github.com/Dual-Iron/",
        UrlPattern::Discord => "https://cdn.discordapp.com/attachments/",
    }
}

fn drive_file_cond(s: &str, j: usize) -> (r: bool)
    requires
        match_at(s@, drive_file_prefix(), j as int),
    ensures
        r == drive_file_at(s@, j as int),
{
    let sn: usize = s.unicode_len();
    let pn: usize = "https://drive.google.com/file/d/".unicode_len();
    let e = j + pn;
    if e < sn {
        s.get_char(e) != '/'
    } else {
        false
    }
}

fn drive_direct_cond(s: &str, j: usize) -> (r: bool)
    requires
        match_at(s@, drive_direct_prefix(), j as int),
    ensures
        r == drive_direct_at(s@, j as int),
{
    let sn: usize = s.unicode_len();
    let pn: usize = "https://drive.google.com/uc?export=download&id=".unicode_len();
    let e = j + pn;
    if e < sn {
        s.get_char(e) != '/'
    } else {
        false
    }
}

fn github_cond(s: &str, j: usize) -> (r: bool)
    requires
        match_at(s@, github_prefix(), j as int),
    ensures
        r == github_at(s@, j as int),
{
    proof {
        reveal_strlit("https://github.com/Dual-Iron/");
        reveal_strlit("/download/");
    }
    let sn: usize = s.unicode_len();
    let pn: usize = "https://github.com/Dual-Iron/".unicode_len();
    let b = j + pn;
    match rfind_sub_upto(s, "/download/", sn) {
        None => false,
        Some(d) => {
            proof {
                lemma_rfind_props(s@, "/download/"@, sn as int);
                lemma_char_pos_bounds(s@, '/', b + 1);
            }
            if b >= sn {
                proof {
                    assert(char_pos_from(s@, '/', b + 1) == sn);
                }
                return false;
            }
            let k = char_pos_from_exec(s, '/', b + 1);
            let t0 = d + 10;
            let m = char_pos_from_exec(s, '/', t0);
            if !(d >= 2 && k <= d - 2 && m < sn && m > t0) {
                return false;
            }
            let fe = char_pos_from_exec(s, '/', m + 1);
            fe > m + 1
        },
    }
}

fn discord_cond(s: &str, j: usize) -> (r: bool)
    requires
        match_at(s@, discord_prefix(), j as int),
    ensures
        r == discord_at(s@, j as int),
{
    let sn: usize = s.unicode_len();
    let pn: usize = "https://cdn.discordapp.com/attachments/".unicode_len();
    let a0 = j + pn;
    let d1 = char_pos_from_exec(s, '/', a0);
    proof {
        lemma_char_pos_bounds(s@, '/', a0 as int);
    }
    if !(d1 < sn && d1 > a0) {
        return false;
    }
    if !all_digits_exec(s.substring_char(a0, d1)) {
        return false;
    }
    let a1 = d1 + 1;
    let d2 = char_pos_from_exec(s, '/', a1);
    proof {
        lemma_char_pos_bounds(s@, '/', a1 as int);
    }
    if !(d2 < sn && d2 > a1) {
        return false;
    }
    if !all_digits_exec(s.substring_char(a1, d2)) {
        return false;
    }
    let f0 = d2 + 1;
    let fe = char_pos_from_exec(s, '/', f0);
    fe > f0
}

fn pat_cond(s: &str, t: &UrlPattern, j: usize) -> (r: bool)
    requires
        match_at(s@, pat_prefix(*t), j as int),
    ensures
        r == pat_at(s@, *t, j as int),
{
    match t {
        UrlPattern::DriveFile => drive_file_cond(s, j),
        UrlPattern::DriveDirect => drive_direct_cond(s, j),
        UrlPattern::Github => github_cond(s, j),
        UrlPattern::Discord => discord_cond(s, j),
    }
}

/// Finds the leftmost full match of the pattern.
fn scan_pattern(s: &str, t: UrlPattern) -> (r: Option<usize>)
    ensures
        match r {
            Some(i) => pat_pos_from(s@, t, 0) == Some(i as int) && pat_at(s@, t, i as int),
            None => pat_pos_from(s@, t, 0) is None,
        },
{
    proof {
        reveal_strlit("https://drive.google.com/file/d/");
        reveal_strlit("https://drive.google.com/uc?export=download&id=");
        reveal_strlit("https://github.com/Dual-Iron/");
        reveal_strlit("https://cdn.discordapp.com/attachments/");
    }
    let pfx = pat_prefix_exec(&t);
    let sn: usize = s.unicode_len();
    let pn: usize = pfx.unicode_len();
    assert(pn >= 1);
    let mut i: usize = 0;
    loop
        invariant
            sn == s@.len(),
            pn == pfx@.len(),
            pfx@ == pat_prefix(t),
            pn >= 1,
            0 <= i <= sn,
            pat_pos_from(s@, t, 0) == pat_pos_from(s@, t, i as int),
        decreases sn - i,
    {
        match find_sub_from(s, pfx, i) {
            None => {
                proof {
                    lemma_find_from_props(s@, pfx@, i as int);
                    assert forall|l: int| i <= l < sn implies !pat_at(s@, t, l) by {
                        assert(!match_at(s@, pfx@, l));
                    }
                    lemma_pat_pos_skip(s@, t, i as int, sn as int);
                    assert(!match_at(s@, pfx@, sn as int));
                    assert(!pat_at(s@, t, sn as int));
                }
                return None;
            },
            Some(j) => {
                proof {
                    lemma_find_from_props(s@, pfx@, i as int);
                    assert forall|l: int| i <= l < j implies !pat_at(s@, t, l) by {
                        assert(!match_at(s@, pfx@, l));
                    }
                    lemma_pat_pos_skip(s@, t, i as int, j as int);
                }
                if pat_cond(s, &t, j) {
                    return Some(j);
                }
                proof {
                    lemma_pat_pos_skip(s@, t, j as int, j + 1);
                }
                i = j + 1;
            },
        }
    }
}

/// Turns one raw binary URL into its canonical stored form, or `None` when
/// no allow-listed hosting pattern matches it.
pub fn resolve_binary(url: &str) -> (r: Option<String>)
    ensures
        r.deep_view() == resolve_spec(url@),
{
    proof {
        reveal_strlit("https://drive.google.com/file/d/");
        reveal_strlit("https://drive.google.com/uc?export=download&id=");
        reveal_strlit("https://github.com/Dual-Iron/");
        reveal_strlit("/download/");
        reveal_strlit("https://cdn.discordapp.com/attachments/");
    }
    let sn: usize = url.unicode_len();
    if let Some(i) = scan_pattern(url, UrlPattern::DriveFile) {
        let pn: usize = "https://drive.google.com/file/d/".unicode_len();
        let e = i + pn;
        proof {
            lemma_char_pos_bounds(url@, '/', e as int);
        }
        let idend = char_pos_from_exec(url, '/', e);
        let mut out = "https://drive.google.com/uc?export=download&id=".to_owned();
        out.append(url.substring_char(e, idend));
        proof {
            assert(out@ == drive_direct_prefix() + drive_file_id(url@, i as int));
        }
        return Some(out);
    }
    if let Some(i) = scan_pattern(url, UrlPattern::DriveDirect) {
        let pn: usize = "https://drive.google.com/uc?export=download&id=".unicode_len();
        let e = i + pn;
        proof {
            lemma_char_pos_bounds(url@, '/', e as int);
        }
        let idend = char_pos_from_exec(url, '/', e);
        let out = url.substring_char(i, idend).to_owned();
        return Some(out);
    }
    if let Some(i) = scan_pattern(url, UrlPattern::Github) {
        let d = match rfind_sub_upto(url, "/download/", sn) {
            Some(d) => d,
            None => {
                proof {
                    assert(false);
                }
                0
            },
        };
        proof {
            lemma_rfind_props(url@, "/download/"@, sn as int);
            lemma_char_pos_bounds(url@, '/', i + github_prefix().len() + 1);
        }
        let t0 = d + 10;
        let m = char_pos_from_exec(url, '/', t0);
        proof {
            lemma_char_pos_bounds(url@, '/', t0 as int);
        }
        let fe = char_pos_from_exec(url, '/', m + 1);
        proof {
            lemma_char_pos_bounds(url@, '/', m + 1);
        }
        let out = url.substring_char(i, fe).to_owned();
        return Some(out);
    }
    if let Some(i) = scan_pattern(url, UrlPattern::Discord) {
        let pn: usize = "https://cdn.discordapp.com/attachments/".unicode_len();
        let a0 = i + pn;
        let d1 = char_pos_from_exec(url, '/', a0);
        proof {
            lemma_char_pos_bounds(url@, '/', a0 as int);
        }
        let d2 = char_pos_from_exec(url, '/', d1 + 1);
        proof {
            lemma_char_pos_bounds(url@, '/', d1 + 1);
        }
        let fe = char_pos_from_exec(url, '/', d2 + 1);
        proof {
            lemma_char_pos_bounds(url@, '/', d2 + 1);
        }
        let out = url.substring_char(i, fe).to_owned();
        return Some(out);
    }
    None
}

} // verus!

use vstd::prelude::*;
use vstd::string::StrSliceExecFns;

verus! {

// ---------------------------------------------------------------------------
// Character classes decided by std's Unicode tables.
// ---------------------------------------------------------------------------

pub uninterp spec fn whitespace_char(c: char) -> bool;

/// Relies on char::is_whitespace: whether a character has the Unicode
/// White_Space property, a function of the character alone.
#[verifier::external_body]
fn is_whitespace_char(c: char) -> (r: bool)
    ensures
        r == whitespace_char(c),
{
    c.is_whitespace()
}

pub uninterp spec fn alphanumeric_char(c: char) -> bool;

/// Relies on char::is_alphanumeric: whether a character is a Unicode letter
/// or number, a function of the character alone.
#[verifier::external_body]
pub(crate) fn is_alphanumeric_char(c: char) -> (r: bool)
    ensures
        r == alphanumeric_char(c),
{
    c.is_alphanumeric()
}

// ---------------------------------------------------------------------------
// Byte length of a string, as std's str::len reports it.
// ---------------------------------------------------------------------------

pub open spec fn byte_len(s: Seq<char>) -> usize {
    vstd::utf8::encode_utf8(s).len() as usize
}

/// The UTF-8 byte length of a string.
pub fn str_byte_len(s: &str) -> (r: usize)
    ensures
        r == byte_len(s@),
{
    s.len()
}

// ---------------------------------------------------------------------------
// String equality.
// ---------------------------------------------------------------------------

/// Character-for-character equality of two strings.
pub fn str_eq(a: &str, b: &str) -> (r: bool)
    ensures
        r == (a@ == b@),
{
    let an: usize = a.unicode_len();
    let bn: usize = b.unicode_len();
    if an != bn {
        assert(a@ != b@) by {
            assert(a@.len() != b@.len());
        }
        return false;
    }
    let mut i: usize = 0;
    while i < an
        invariant
            an == a@.len(),
            bn == b@.len(),
            an == bn,
            0 <= i <= an,
            forall|k: int| 0 <= k < i ==> a@[k] == b@[k],
        decreases an - i,
    {
        if a.get_char(i) != b.get_char(i) {
            return false;
        }
        i = i + 1;
    }
    proof {
        assert(a@ =~= b@);
    }
    true
}

// ---------------------------------------------------------------------------
// Substring search.
// ---------------------------------------------------------------------------

/// The pattern `p` occurs in `s` starting at position `i`.
pub open spec fn match_at(s: Seq<char>, p: Seq<char>, i: int) -> bool {
    0 <= i && i + p.len() <= s.len() && s.subrange(i, i + p.len() as int) == p
}

/// The leftmost occurrence of `p` in `s` at a position no smaller than `from`.
pub open spec fn find_from(s: Seq<char>, p: Seq<char>, from: int) -> Option<int>
    decreases s.len() + 1 - from,
{
    if from < 0 || from + p.len() > s.len() {
        None
    } else if match_at(s, p, from) {
        Some(from)
    } else {
        find_from(s, p, from + 1)
    }
}

/// The rightmost occurrence of `p` in `s` at a position no larger than `upto`.
pub open spec fn rfind_upto(s: Seq<char>, p: Seq<char>, upto: int) -> Option<int>
    decreases upto + 1,
{
    if upto < 0 {
        None
    } else if match_at(s, p, upto) {
        Some(upto)
    } else {
        rfind_upto(s, p, upto - 1)
    }
}

/// The position of the first occurrence of the character `c` in `s` at or
/// after `from`, or the length of `s` if there is none.
pub open spec fn char_pos_from(s: Seq<char>, c: char, from: int) -> int
    decreases s.len() + 1 - from,
{
    if from < 0 || from >= s.len() {
        s.len() as int
    } else if s[from] == c {
        from
    } else {
        char_pos_from(s, c, from + 1)
    }
}

/// Whether `p` occurs in `s` starting at `i`.
pub fn match_at_exec(s: &str, p: &str, i: usize) -> (r: bool)
    requires
        i + p@.len() <= s@.len(),
    ensures
        r == match_at(s@, p@, i as int),
{
    let sn: usize = s.unicode_len();
    let pn: usize = p.unicode_len();
    let mut j: usize = 0;
    while j < pn
        invariant
            sn == s@.len(),
            pn == p@.len(),
            i + pn <= sn,
            0 <= j <= pn,
            forall|k: int| 0 <= k < j ==> s@[i + k] == p@[k],
        decreases pn - j,
    {
        if s.get_char(i + j) != p.get_char(j) {
            assert(s@[i + j as int] != p@[j as int]);
            assert(!match_at(s@, p@, i as int)) by {
                if s@.subrange(i as int, i + pn as int) == p@ {
                    assert(s@.subrange(i as int, i + pn as int)[j as int] == p@[j as int]);
                }
            }
            return false;
        }
        j = j + 1;
    }
    proof {
        assert(s@.subrange(i as int, i + pn as int) =~= p@);
    }
    true
}

/// Finds the leftmost occurrence of `p` in `s` at or after `from`.
pub fn find_sub_from(s: &str, p: &str, from: usize) -> (r: Option<usize>)
    ensures
        match r {
            Some(i) => find_from(s@, p@, from as int) == Some(i as int),
            None => find_from(s@, p@, from as int) is None,
        },
{
    let sn: usize = s.unicode_len();
    let pn: usize = p.unicode_len();
    if pn > sn || from > sn - pn {
        return None;
    }
    if pn == 0 {
        proof {
            assert(s@.subrange(from as int, from as int) =~= p@);
        }
        return Some(from);
    }
    let mut i: usize = from;
    while i <= sn - pn
        invariant
            sn == s@.len(),
            pn == p@.len(),
            0 < pn <= sn,
            from <= i <= sn - pn + 1,
            find_from(s@, p@, from as int) == find_from(s@, p@, i as int),
        decreases sn - i,
    {
        if match_at_exec(s, p, i) {
            return Some(i);
        }
        i = i + 1;
    }
    None
}

/// Finds the rightmost occurrence of `p` in `s` at or before `upto`.
pub fn rfind_sub_upto(s: &str, p: &str, upto: usize) -> (r: Option<usize>)
    ensures
        match r {
            Some(i) => rfind_upto(s@, p@, upto as int) == Some(i as int),
            None => rfind_upto(s@, p@, upto as int) is None,
        },
{
    let sn: usize = s.unicode_len();
    let pn: usize = p.unicode_len();
    let mut i: usize = upto;
    loop
        invariant
            sn == s@.len(),
            pn == p@.len(),
            0 <= i <= upto,
            rfind_upto(s@, p@, upto as int) == rfind_upto(s@, p@, i as int),
        decreases i,
    {
        let hit: bool = if pn <= sn && i <= sn - pn {
            match_at_exec(s, p, i)
        } else {
            false
        };
        if hit {
            return Some(i);
        }
        if i == 0 {
            proof {
                assert(rfind_upto(s@, p@, -1) is None);
            }
            return None;
        }
        i = i - 1;
    }
}

/// Finds the first occurrence of the character `c` in `s` at or after `from`,
/// returning the length of `s` if there is none.
pub fn char_pos_from_exec(s: &str, c: char, from: usize) -> (r: usize)
    ensures
        r == char_pos_from(s@, c, from as int),
        from <= r <= s@.len() || (from > s@.len() && r == s@.len()),
{
    let sn: usize = s.unicode_len();
    if from >= sn {
        return sn;
    }
    let mut i: usize = from;
    while i < sn
        invariant
            sn == s@.len(),
            from <= i <= sn,
            char_pos_from(s@, c, from as int) == char_pos_from(s@, c, i as int),
        decreases sn - i,
    {
        if s.get_char(i) == c {
            return i;
        }
        i = i + 1;
    }
    sn
}

/// The first occurrence of a character is never before the start of the
/// search, never past the end of the string, and nothing before it matches.
pub proof fn lemma_char_pos_bounds(s: Seq<char>, c: char, from: int)
    ensures
        char_pos_from(s, c, from) <= s.len(),
        char_pos_from(s, c, from) >= from || char_pos_from(s, c, from) == s.len(),
        char_pos_from(s, c, from) < s.len() ==> s[char_pos_from(s, c, from)] == c,
        from >= 0 ==> forall|k: int|
            from <= k < char_pos_from(s, c, from) && 0 <= k < s.len() ==> s[k] != c,
    decreases s.len() + 1 - from,
{
    if from < 0 || from >= s.len() {
    } else if s[from] == c {
    } else {
        lemma_char_pos_bounds(s, c, from + 1);
    }
}

/// Where a character does not occur at all, the search reports the length.
pub proof fn lemma_char_pos_absent(s: Seq<char>, c: char, from: int)
    requires
        0 <= from,
        forall|k: int| from <= k < s.len() ==> s[k] != c,
    ensures
        char_pos_from(s, c, from) == s.len(),
    decreases s.len() + 1 - from,
{
    if from < s.len() {
        lemma_char_pos_absent(s, c, from + 1);
    }
}

/// What a leftmost search yields: a first match, with nothing before it.
pub proof fn lemma_find_from_props(s: Seq<char>, p: Seq<char>, from: int)
    requires
        0 <= from,
    ensures
        match find_from(s, p, from) {
            Some(i) => from <= i && match_at(s, p, i) && forall|j: int|
                from <= j < i ==> !match_at(s, p, j),
            None => forall|j: int| j >= from ==> !match_at(s, p, j),
        },
    decreases s.len() + 1 - from,
{
    if from + p.len() > s.len() {
    } else if match_at(s, p, from) {
    } else {
        lemma_find_from_props(s, p, from + 1);
    }
}

/// What a rightmost search yields: a last match, with nothing after it.
pub proof fn lemma_rfind_props(s: Seq<char>, p: Seq<char>, upto: int)
    ensures
        match rfind_upto(s, p, upto) {
            Some(i) => i <= upto && match_at(s, p, i) && forall|j: int|
                i < j <= upto ==> !match_at(s, p, j),
            None => forall|j: int| j <= upto ==> !match_at(s, p, j),
        },
    decreases upto + 1,
{
    if upto < 0 {
    } else if match_at(s, p, upto) {
        lemma_rfind_props(s, p, upto - 1);
    } else {
        lemma_rfind_props(s, p, upto - 1);
    }
}

/// A decimal digit.
pub open spec fn is_digit_char(c: char) -> bool {
    ('0' as u32) <= (c as u32) && (c as u32) <= ('9' as u32)
}

/// A string made of decimal digits alone.
pub open spec fn all_digits(s: Seq<char>) -> bool {
    forall|i: int| 0 <= i < s.len() ==> is_digit_char(s[i])
}

/// Whether every character of `s` is a decimal digit.
pub fn all_digits_exec(s: &str) -> (r: bool)
    ensures
        r == all_digits(s@),
{
    let sn: usize = s.unicode_len();
    let mut i: usize = 0;
    while i < sn
        invariant
            sn == s@.len(),
            0 <= i <= sn,
            forall|k: int| 0 <= k < i ==> is_digit_char(s@[k]),
        decreases sn - i,
    {
        let c = s.get_char(i);
        if !((c as u32) >= ('0' as u32) && (c as u32) <= ('9' as u32)) {
            assert(!is_digit_char(s@[i as int]));
            return false;
        }
        i = i + 1;
    }
    true
}

// ---------------------------------------------------------------------------
// Whitespace trimming.
// ---------------------------------------------------------------------------

/// `s` without its leading whitespace.
pub open spec fn trim_start_spec(s: Seq<char>) -> Seq<char>
    decreases s.len(),
{
    if s.len() > 0 && whitespace_char(s[0]) {
        trim_start_spec(s.skip(1))
    } else {
        s
    }
}

/// `s` without its trailing whitespace.
pub open spec fn trim_end_spec(s: Seq<char>) -> Seq<char>
    decreases s.len(),
{
    if s.len() > 0 && whitespace_char(s[s.len() - 1]) {
        trim_end_spec(s.take(s.len() - 1))
    } else {
        s
    }
}

/// `s` without leading and trailing whitespace.
pub open spec fn trim_spec(s: Seq<char>) -> Seq<char> {
    trim_end_spec(trim_start_spec(s))
}

proof fn lemma_trim_start_at(s: Seq<char>, i: int)
    requires
        0 <= i <= s.len(),
        forall|k: int| 0 <= k < i ==> whitespace_char(s[k]),
        i < s.len() ==> !whitespace_char(s[i]),
    ensures
        trim_start_spec(s) == s.skip(i),
    decreases i,
{
    if i == 0 {
        assert(s.skip(0) =~= s);
    } else {
        assert(whitespace_char(s[0]));
        lemma_trim_start_at(s.skip(1), i - 1);
        assert(s.skip(1).skip(i - 1) =~= s.skip(i));
    }
}

proof fn lemma_trim_end_at(s: Seq<char>, j: int)
    requires
        0 <= j <= s.len(),
        forall|k: int| j <= k < s.len() ==> whitespace_char(s[k]),
        j > 0 ==> !whitespace_char(s[j - 1]),
    ensures
        trim_end_spec(s) == s.take(j),
    decreases s.len(),
{
    if j == s.len() {
        assert(s.take(j) =~= s);
        if s.len() > 0 {
            assert(!whitespace_char(s[s.len() - 1]));
        }
    } else {
        assert(whitespace_char(s[s.len() - 1]));
        lemma_trim_end_at(s.take(s.len() - 1), j);
        assert(s.take(s.len() - 1).take(j) =~= s.take(j));
    }
}

/// Removes leading and trailing whitespace.
pub fn trim_str(s: &str) -> (r: &str)
    ensures
        r@ == trim_spec(s@),
{
    let sn: usize = s.unicode_len();
    let mut i: usize = 0;
    while i < sn && is_whitespace_char(s.get_char(i))
        invariant
            sn == s@.len(),
            0 <= i <= sn,
            forall|k: int| 0 <= k < i ==> whitespace_char(s@[k]),
        decreases sn - i,
    {
        i = i + 1;
    }
    let mut j: usize = sn;
    while j > i && is_whitespace_char(s.get_char(j - 1))
        invariant
            sn == s@.len(),
            0 <= i <= j <= sn,
            forall|k: int| 0 <= k < i ==> whitespace_char(s@[k]),
            forall|k: int| j <= k < sn ==> whitespace_char(s@[k]),
        decreases j,
    {
        j = j - 1;
    }
    proof {
        lemma_trim_start_at(s@, i as int);
        let t = s@.skip(i as int);
        lemma_trim_end_at(t, j - i);
        assert(t.take(j - i) =~= s@.subrange(i as int, j as int));
    }
    s.substring_char(i, j)
}

} // verus!

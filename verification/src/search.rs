use vstd::prelude::*;
use vstd::string::{StrSliceExecFns, StringExecFns};
use unicode_segmentation::UnicodeSegmentation;

verus! {

// ---------------------------------------------------------------------------
// The search tokenizer: the identity string is split on `_`, `-` and `/`;
// a word of at most two user-perceived characters is kept whole, a longer
// word contributes every prefix of three or more of its grapheme clusters.
// Each token is followed by a single space.
//
// The tokens are deliberately prefixes, not suffixes: they make a query
// match the head of each word as it is typed, and the whole word is always
// among its own tokens (it is the longest prefix). Tokens shorter than three
// clusters are dropped so that one- and two-letter queries do not match
// every long word.
// ---------------------------------------------------------------------------

pub uninterp spec fn grapheme_prefixes_of(s: Seq<char>) -> Seq<Seq<char>>;

/// Relies on unicode_segmentation's grapheme_indices over extended grapheme
/// clusters: element `k` of the result is the prefix of the word that covers
/// its first `k + 1` grapheme clusters, a function of the string alone.
/// The clusters are nonempty, in order, and partition the word, so there is
/// one element per cluster, each element properly extends the one before it,
/// and the last element is the word itself.
#[verifier::external_body]
fn grapheme_prefixes(w: &str) -> (r: Vec<String>)
    ensures
        r.deep_view() == grapheme_prefixes_of(w@),
        r.deep_view().len() == 0 <==> w@.len() == 0,
        r.deep_view().len() > 0 ==> r.deep_view().last() == w@,
        forall|k: int|
            0 <= k && k + 1 < r.deep_view().len() ==> (#[trigger] r.deep_view()[k]).len()
                < r.deep_view()[k + 1].len() && r.deep_view()[k].is_prefix_of(
                r.deep_view()[k + 1],
            ),
{
    w.grapheme_indices(true).map(|(b, g)| w[..b + g.len()].to_string()).collect()
}

/// A word separator of the identity string.
pub open spec fn is_sep(c: char) -> bool {
    c == '_' || c == '-' || c == '/'
}

/// The position of the first separator at or after `from`, or the length of
/// `s` if there is none.
pub open spec fn sep_pos_from(s: Seq<char>, from: int) -> int
    decreases s.len() + 1 - from,
{
    if from < 0 || from >= s.len() {
        s.len() as int
    } else if is_sep(s[from]) {
        from
    } else {
        sep_pos_from(s, from + 1)
    }
}

proof fn lemma_sep_pos_bounds(s: Seq<char>, from: int)
    ensures
        sep_pos_from(s, from) <= s.len(),
        sep_pos_from(s, from) >= from || sep_pos_from(s, from) == s.len(),
    decreases s.len() + 1 - from,
{
    if from < 0 || from >= s.len() {
    } else if is_sep(s[from]) {
    } else {
        lemma_sep_pos_bounds(s, from + 1);
    }
}

/// The words of `s` from position `from` on, split on the separators.
pub open spec fn words_from(s: Seq<char>, from: int) -> Seq<Seq<char>>
    decreases s.len() + 1 - from,
    via words_from_decreases
{
    if sep_pos_from(s, from) >= s.len() {
        seq![s.subrange(if 0 <= from <= s.len() { from } else { 0 }, s.len() as int)]
    } else {
        seq![s.subrange(if 0 <= from { from } else { 0 }, sep_pos_from(s, from))]
            + words_from(s, sep_pos_from(s, from) + 1)
    }
}

#[via_fn]
proof fn words_from_decreases(s: Seq<char>, from: int) {
    lemma_sep_pos_bounds(s, from);
}

/// The tokens contributed by one word.
pub open spec fn word_tokens(w: Seq<char>) -> Seq<Seq<char>> {
    let gp = grapheme_prefixes_of(w);
    if gp.len() <= 2 {
        seq![w]
    } else {
        gp.skip(2)
    }
}

/// The tokens joined, each followed by one space.
pub open spec fn join_tokens(ts: Seq<Seq<char>>) -> Seq<char>
    decreases ts.len(),
{
    if ts.len() == 0 {
        Seq::empty()
    } else {
        ts[0] + seq![' '] + join_tokens(ts.skip(1))
    }
}

proof fn lemma_join_tokens_push(ts: Seq<Seq<char>>, x: Seq<char>)
    ensures
        join_tokens(ts.push(x)) == join_tokens(ts) + x + seq![' '],
    decreases ts.len(),
{
    if ts.len() == 0 {
        assert(ts.push(x)[0] == x);
        assert(ts.push(x).skip(1).len() == 0);
        assert(join_tokens(ts.push(x).skip(1)) == Seq::<char>::empty());
        assert(join_tokens(ts.push(x)) =~= join_tokens(ts) + x + seq![' ']);
    } else {
        lemma_join_tokens_push(ts.skip(1), x);
        assert(ts.push(x).skip(1) =~= ts.skip(1).push(x));
        assert(ts.push(x)[0] == ts[0]);
        assert(join_tokens(ts.push(x)) == ts[0] + seq![' '] + join_tokens(ts.skip(1).push(x)));
        assert(join_tokens(ts.push(x)) =~= join_tokens(ts) + x + seq![' ']);
    }
}

/// The full search text of a word list.
pub open spec fn words_text(ws: Seq<Seq<char>>) -> Seq<char>
    decreases ws.len(),
{
    if ws.len() == 0 {
        Seq::empty()
    } else {
        join_tokens(word_tokens(ws[0])) + words_text(ws.skip(1))
    }
}

/// The search text derived from an identity string.
pub open spec fn search_text(id: Seq<char>) -> Seq<char> {
    words_text(words_from(id, 0))
}

/// Appends the tokens of one word, each followed by a space.
fn append_word_tokens(out: &mut String, w: &str)
    ensures
        final(out)@ == old(out)@ + join_tokens(word_tokens(w@)),
{
    let gp = grapheme_prefixes(w);
    let ghost toks = word_tokens(w@);
    if gp.len() <= 2 {
        out.append(w);
        out.append(" ");
        proof {
            assert(toks == seq![w@]);
            assert(toks.skip(1).len() == 0);
            assert(join_tokens(toks.skip(1)) == Seq::<char>::empty());
            assert(toks[0] == w@);
            assert(join_tokens(toks) =~= w@ + seq![' ']);
            assert(" "@ =~= seq![' ']) by {
                reveal_strlit(" ");
            }
        }
    } else {
        proof {
            assert(toks == grapheme_prefixes_of(w@).skip(2));
        }
        let ghost start = out@;
        let mut k: usize = 2;
        proof {
            assert(toks.take(0) =~= Seq::<Seq<char>>::empty());
        }
        while k < gp.len()
            invariant
                2 <= k <= gp.len(),
                gp.deep_view() == grapheme_prefixes_of(w@),
                gp.deep_view().len() > 2,
                toks == grapheme_prefixes_of(w@).skip(2),
                out@ == start + join_tokens(toks.take(k - 2)),
            decreases gp.len() - k,
        {
            out.append(gp[k].as_str());
            out.append(" ");
            proof {
                assert(gp.deep_view()[k as int] == gp@[k as int]@);
                assert(toks[k - 2] == grapheme_prefixes_of(w@)[k as int]);
                assert(toks.take(k - 1) =~= toks.take(k - 2).push(toks[k - 2]));
                lemma_join_tokens_push(toks.take(k - 2), toks[k - 2]);
                assert(" "@ =~= seq![' ']) by {
                    reveal_strlit(" ");
                }
            }
            k = k + 1;
        }
        proof {
            assert(toks.take(gp.deep_view().len() - 2) =~= toks);
        }
    }
}

/// Derives the space-separated search token string from an identity string.
pub fn tokenize(id: &str) -> (r: String)
    ensures
        r@ == search_text(id@),
{
    let sn: usize = id.unicode_len();
    let mut out = String::new();
    let mut pos: usize = 0;
    loop
        invariant
            sn == id@.len(),
            0 <= pos <= sn,
            search_text(id@) == out@ + words_text(words_from(id@, pos as int)),
        decreases sn - pos,
    {
        let p = sep_pos_exec(id, pos);
        proof {
            lemma_sep_pos_bounds(id@, pos as int);
        }
        let ghost rem = words_from(id@, pos as int);
        let w = id.substring_char(pos, p);
        append_word_tokens(&mut out, w);
        if p >= sn {
            proof {
                assert(rem == seq![id@.subrange(pos as int, sn as int)]);
                assert(rem[0] == w@);
                assert(rem.skip(1).len() == 0);
                assert(words_text(rem.skip(1)) == Seq::<char>::empty());
                assert(words_text(rem) =~= join_tokens(word_tokens(w@)));
            }
            return out;
        }
        proof {
            assert(rem == seq![id@.subrange(pos as int, p as int)] + words_from(id@, p + 1));
            assert(rem[0] == w@);
            assert(rem.skip(1) =~= words_from(id@, p + 1));
        }
        pos = p + 1;
    }
}

/// Finds the first separator at or after `from`, returning the length of the
/// string if there is none.
fn sep_pos_exec(s: &str, from: usize) -> (r: usize)
    ensures
        r == sep_pos_from(s@, from as int),
        from <= r <= s@.len() || (from > s@.len() && r == s@.len()),
{
    let sn: usize = s.unicode_len();
    if from >= sn {
        return sn;
    }
    let mut i: usize = from;
    while i < sn
        invariant
            sn == s@.len(),
            from <= i <= sn,
            sep_pos_from(s@, from as int) == sep_pos_from(s@, i as int),
        decreases sn - i,
    {
        let c = s.get_char(i);
        if c == '_' || c == '-' || c == '/' {
            return i;
        }
        i = i + 1;
    }
    sn
}

} // verus!

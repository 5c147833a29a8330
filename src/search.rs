//! Incremental search over a snapshot of the password list.
use vstd::prelude::*;

use crate::entry::{PasswordEntry, clone_entries};
use crate::text::{chars_of, string_from_chars};

verus! {

/// The lower-case form of a text, as `str::to_lowercase` gives it.
pub uninterp spec fn lower_of(s: Seq<char>) -> Seq<char>;

/// Relies on `str::to_lowercase`: the result depends on the characters
/// alone, and an empty text stays empty.
#[verifier::external_body]
fn lowercase(s: &str) -> (r: String)
    ensures
        r@ == lower_of(s@),
        s@.len() == 0 ==> r@.len() == 0,
{
    s.to_lowercase()
}

/// `needle` occurs in `hay` as a contiguous run.
pub open spec fn contains_seq(hay: Seq<char>, needle: Seq<char>) -> bool {
    exists|k: int|
        0 <= k && k + needle.len() <= hay.len() && #[trigger] hay.subrange(k, k + needle.len())
            == needle
}

/// An entry is shown for query `q`: `q` is empty, or its lower-case form
/// occurs in the lower-case form of the entry's name.
pub open spec fn search_matches(e: PasswordEntry, q: Seq<char>) -> bool {
    q.len() == 0 || contains_seq(lower_of(e.name@), lower_of(q))
}

pub open spec fn search_pred(q: Seq<char>) -> spec_fn(PasswordEntry) -> bool {
    |e: PasswordEntry| search_matches(e, q)
}

/// The entries of `s` shown for query `q`, in the order of `s`.
pub open spec fn search_spec(s: Seq<PasswordEntry>, q: Seq<char>) -> Seq<PasswordEntry> {
    s.filter(search_pred(q))
}

/// `r` is `s` with some elements left out, the rest in the same order:
/// `idx` gives, for each element of `r`, its position in `s`.
pub open spec fn ordered_picks<A>(r: Seq<A>, s: Seq<A>, idx: Seq<int>) -> bool {
    &&& idx.len() == r.len()
    &&& forall|i: int| 0 <= i < r.len() ==> 0 <= #[trigger] idx[i] < s.len() && r[i] == s[idx[i]]
    &&& forall|i: int, j: int| 0 <= i < j < r.len() ==> #[trigger] idx[i] < #[trigger] idx[j]
}

/// Whether `needle` occurs in `hay`.
pub fn contains_chars(hay: &[char], needle: &[char]) -> (r: bool)
    ensures
        r == contains_seq(hay@, needle@),
{
    let m = needle.len();
    if m > hay.len() {
        return false;
    }
    let n: usize = hay.len();
    let mut k: usize = 0;
    while k <= n - m
        invariant
            n == hay@.len(),
            m == needle@.len(),
            m <= hay@.len(),
            k <= hay@.len() - m + 1,
            forall|j: int| 0 <= j < k ==> #[trigger] hay@.subrange(j, j + m) != needle@,
        decreases hay.len() - k,
    {
        let mut i: usize = 0;
        let mut same = true;
        while i < m && same
            invariant
                m == needle@.len(),
                n == hay@.len(),
                k + m <= n,
                i <= m,
                same ==> forall|t: int| 0 <= t < i ==> hay@[k + t] == needle@[t],
                !same ==> exists|t: int| 0 <= t < m && hay@[k + t] != needle@[t],
            decreases m - i,
        {
            if hay[k + i] != needle[i] {
                same = false;
            }
            i = i + 1;
        }
        if same {
            assert(hay@.subrange(k as int, k + m) =~= needle@);
            return true;
        }
        proof {
            let t = choose|t: int| 0 <= t < m && hay@[k + t] != needle@[t];
            assert(hay@.subrange(k as int, k + m)[t] != needle@[t]);
        }
        k = k + 1;
    }
    false
}

/// Whether a name matches a query, both already in lower case.
pub fn matches_folded(name_folded: &str, query_folded: &str) -> (r: bool)
    ensures
        r == contains_seq(name_folded@, query_folded@),
{
    let hay = chars_of(name_folded);
    let needle = chars_of(query_folded);
    contains_chars(hay.as_slice(), needle.as_slice())
}

/// An empty query keeps every entry, in order.
pub proof fn lemma_search_empty(s: Seq<PasswordEntry>, q: Seq<char>)
    requires
        q.len() == 0,
    ensures
        search_spec(s, q) == s,
    decreases s.len(),
{
    reveal(Seq::filter);
    if s.len() > 0 {
        lemma_search_empty(s.drop_last(), q);
        assert(s.drop_last().push(s.last()) =~= s);
    }
}

proof fn lemma_filter_ordered<A>(s: Seq<A>, p: spec_fn(A) -> bool)
    ensures
        exists|idx: Seq<int>| ordered_picks(s.filter(p), s, idx),
    decreases s.len(),
{
    reveal(Seq::filter);
    if s.len() == 0 {
        assert(ordered_picks(s.filter(p), s, Seq::<int>::empty()));
    } else {
        let t = s.drop_last();
        lemma_filter_ordered(t, p);
        let idx0 = choose|idx: Seq<int>| ordered_picks(t.filter(p), t, idx);
        let f0 = t.filter(p);
        if p(s.last()) {
            let idx = idx0.push(t.len() as int);
            let f = f0.push(s.last());
            assert(s.filter(p) == f);
            assert forall|i: int| 0 <= i < f.len() implies 0 <= #[trigger] idx[i] < s.len() && f[i]
                == s[idx[i]] by {
                if i < f0.len() {
                    assert(0 <= idx0[i] < t.len());
                }
            }
            assert forall|i: int, j: int| 0 <= i < j < f.len() implies #[trigger] idx[i]
                < #[trigger] idx[j] by {
                if j < f0.len() {
                    assert(idx0[i] < idx0[j]);
                } else {
                    assert(0 <= idx0[i] < t.len());
                }
            }
            assert(ordered_picks(f, s, idx));
        } else {
            assert(s.filter(p) == f0);
            assert forall|i: int| 0 <= i < f0.len() implies 0 <= #[trigger] idx0[i] < s.len() && f0[i]
                == s[idx0[i]] by {
                assert(0 <= idx0[i] < t.len());
            }
            assert(ordered_picks(s.filter(p), s, idx0));
        }
    }
}

/// Every entry a search returns matches the query, and the entries come in
/// the order they have in the snapshot.
pub proof fn lemma_search_sound(s: Seq<PasswordEntry>, q: Seq<char>)
    ensures
        forall|i: int|
            0 <= i < search_spec(s, q).len() ==> search_matches(#[trigger] search_spec(s, q)[i], q),
        exists|idx: Seq<int>| ordered_picks(search_spec(s, q), s, idx),
{
    assert forall|i: int| 0 <= i < search_spec(s, q).len() implies search_matches(
        #[trigger] search_spec(s, q)[i],
        q,
    ) by {
        s.lemma_filter_pred(search_pred(q), i);
    }
    lemma_filter_ordered(s, search_pred(q));
    let idx = choose|idx: Seq<int>| ordered_picks(s.filter(search_pred(q)), s, idx);
    assert(ordered_picks(search_spec(s, q), s, idx));
}

/// The entries of `snapshot` whose name matches `query`, in order; all of
/// them when `query` is empty.
pub fn search(snapshot: &Vec<PasswordEntry>, query: &str) -> (r: Vec<PasswordEntry>)
    ensures
        r@ == search_spec(snapshot@, query@),
        query@.len() == 0 ==> r@ == snapshot@,
{
    let qs = chars_of(query);
    if qs.len() == 0 {
        proof {
            lemma_search_empty(snapshot@, query@);
        }
        return clone_entries(snapshot);
    }
    let folded_query = lowercase(query);
    let mut out: Vec<PasswordEntry> = Vec::new();
    let mut i: usize = 0;
    while i < snapshot.len()
        invariant
            i <= snapshot@.len(),
            query@.len() > 0,
            folded_query@ == lower_of(query@),
            out@ == snapshot@.take(i as int).filter(search_pred(query@)),
        decreases snapshot.len() - i,
    {
        let e = &snapshot[i];
        let folded_name = lowercase(e.name.as_str());
        let hit = matches_folded(folded_name.as_str(), folded_query.as_str());
        proof {
            assert(snapshot@.take(i + 1) =~= snapshot@.take(i as int).push(snapshot@[i as int]));
            snapshot@.take(i as int).lemma_filter_push(snapshot@[i as int], search_pred(query@));
        }
        if hit {
            out.push(e.clone());
        }
        i = i + 1;
    }
    assert(snapshot@.take(snapshot.len() as int) =~= snapshot@);
    out
}

/// The characters with the Unicode White_Space property, which `str::trim`
/// drops from either end of a text.
pub open spec fn is_white_space(c: char) -> bool {
    ('\u{9}' <= c && c <= '\u{d}') || c == ' ' || c == '\u{85}' || c == '\u{a0}'
        || c == '\u{1680}' || ('\u{2000}' <= c && c <= '\u{200a}') || c == '\u{2028}'
        || c == '\u{2029}' || c == '\u{202f}' || c == '\u{205f}' || c == '\u{3000}'
}

/// Whether `c` is white space in the sense of `str::trim`.
pub fn white_space(c: char) -> (r: bool)
    ensures
        r == is_white_space(c),
{
    ('\u{9}' <= c && c <= '\u{d}') || c == ' ' || c == '\u{85}' || c == '\u{a0}'
        || c == '\u{1680}' || ('\u{2000}' <= c && c <= '\u{200a}') || c == '\u{2028}'
        || c == '\u{2029}' || c == '\u{202f}' || c == '\u{205f}' || c == '\u{3000}'
}

/// Length of `s.take(n)` once trailing white space is dropped.
pub open spec fn trim_end_len(s: Seq<char>, n: int) -> int
    decreases n,
{
    if n > 0 && is_white_space(s[n - 1]) {
        trim_end_len(s, n - 1)
    } else {
        n
    }
}

/// Position of the last space among the first `e` characters of `s`.
pub open spec fn last_space_before(s: Seq<char>, e: int) -> Option<int>
    decreases e,
{
    if e <= 0 {
        None
    } else if s[e - 1] == ' ' {
        Some(e - 1)
    } else {
        last_space_before(s, e - 1)
    }
}

/// The query with its last word dropped: trailing white space is ignored,
/// and what is kept is everything up to and including the last space before
/// that point, or nothing when there is no such space.
pub open spec fn delete_last_word_spec(s: Seq<char>) -> Seq<char> {
    match last_space_before(s, trim_end_len(s, s.len() as int)) {
        Some(p) => s.take(p + 1),
        None => Seq::empty(),
    }
}

proof fn lemma_trim_end_len(s: Seq<char>, n: int)
    requires
        0 <= n <= s.len(),
    ensures
        0 <= trim_end_len(s, n) <= n,
    decreases n,
{
    if n > 0 && is_white_space(s[n - 1]) {
        lemma_trim_end_len(s, n - 1);
    }
}

proof fn lemma_last_space_before(s: Seq<char>, e: int)
    requires
        0 <= e <= s.len(),
    ensures
        last_space_before(s, e) matches Some(p) ==> 0 <= p < e,
    decreases e,
{
    if e > 0 && s[e - 1] != ' ' {
        lemma_last_space_before(s, e - 1);
    }
}

/// Drops the last word of a search query.
pub fn delete_last_word(query: &str) -> (r: String)
    ensures
        r@ == delete_last_word_spec(query@),
{
    let cs = chars_of(query);
    let mut e: usize = cs.len();
    while e > 0 && white_space(cs[e - 1])
        invariant
            e <= cs@.len(),
            trim_end_len(cs@, e as int) == trim_end_len(cs@, cs@.len() as int),
        decreases e,
    {
        e = e - 1;
    }
    let mut k: usize = e;
    while k > 0 && cs[k - 1] != ' '
        invariant
            k <= e <= cs@.len(),
            last_space_before(cs@, k as int) == last_space_before(cs@, e as int),
        decreases k,
    {
        k = k - 1;
    }
    proof {
        lemma_trim_end_len(cs@, cs@.len() as int);
        lemma_last_space_before(cs@, e as int);
    }
    if k == 0 {
        String::new()
    } else {
        let mut kept: Vec<char> = Vec::new();
        let mut i: usize = 0;
        while i < k
            invariant
                k <= cs@.len(),
                i <= k,
                kept@ == cs@.take(i as int),
            decreases k - i,
        {
            kept.push(cs[i]);
            i = i + 1;
            assert(kept@ =~= cs@.take(i as int));
        }
        string_from_chars(kept.as_slice())
    }
}

/// Drops the last word of the query and searches `snapshot` again with what
/// is left; returns the shortened query and the entries shown for it.
pub fn delete_last_word_and_search(snapshot: &Vec<PasswordEntry>, query: &str) -> (r: (
    String,
    Vec<PasswordEntry>,
))
    ensures
        r.0@ == delete_last_word_spec(query@),
        r.1@ == search_spec(snapshot@, delete_last_word_spec(query@)),
{
    let shorter = delete_last_word(query);
    let found = search(snapshot, shorter.as_str());
    (shorter, found)
}

} // verus!

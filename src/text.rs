//! Character-level text helpers.
use vstd::prelude::*;

verus! {

/// The characters of `s`, in order.
pub fn chars_of(s: &str) -> (r: Vec<char>)
    ensures
        r@ == s@,
{
    let mut out: Vec<char> = Vec::new();
    for c in it: s.chars()
        invariant
            it.seq() == s@,
            out@ == it.seq().take(it.index() as int),
    {
        out.push(c);
    }
    out
}

/// Relies on `String: FromIterator<&char>`: the string holds exactly the
/// given characters, in order.
#[verifier::external_body]
pub(crate) fn string_from_chars(chars: &[char]) -> (r: String)
    ensures
        r@ == chars@,
{
    chars.iter().collect()
}

/// The texts held by each string of `v`, in order.
pub open spec fn texts_of(v: Seq<String>) -> Seq<Seq<char>> {
    v.map_values(|x: String| x@)
}

/// The `len` characters of `s` starting at character `start`, clipped to the
/// end of `s`.
pub open spec fn substr_spec(s: Seq<char>, start: nat, len: nat) -> Seq<char> {
    let lo = if start <= s.len() { start as int } else { s.len() as int };
    let hi = if start + len <= s.len() { (start + len) as int } else { s.len() as int };
    s.subrange(lo, hi)
}

/// Takes `len` characters of `str` starting at character `start`.
pub fn substr(str: &String, start: usize, len: usize) -> (r: String)
    ensures
        r@ == substr_spec(str@, start as nat, len as nat),
{
    let cs = chars_of(str.as_str());
    let n = cs.len();
    let lo: usize = if start <= n { start } else { n };
    let hi: usize = if len <= n - lo { lo + len } else { n };
    let mut piece: Vec<char> = Vec::new();
    let mut i: usize = lo;
    while i < hi
        invariant
            lo <= i <= hi <= n == cs@.len(),
            piece@ == cs@.subrange(lo as int, i as int),
        decreases hi - i,
    {
        piece.push(cs[i]);
        i = i + 1;
    }
    proof {
        assert(piece@ == substr_spec(str@, start as nat, len as nat));
    }
    string_from_chars(piece.as_slice())
}

/// Whether `a` and `b` hold the same characters.
pub fn same_text(a: &str, b: &str) -> (r: bool)
    ensures
        r == (a@ == b@),
{
    let x = chars_of(a);
    let y = chars_of(b);
    if x.len() != y.len() {
        return false;
    }
    let mut i: usize = 0;
    while i < x.len()
        invariant
            x@ == a@,
            y@ == b@,
            x@.len() == y@.len(),
            i <= x@.len(),
            forall|j: int| 0 <= j < i ==> x@[j] == y@[j],
        decreases x.len() - i,
    {
        if x[i] != y[i] {
            assert(x@[i as int] != y@[i as int]);
            return false;
        }
        i = i + 1;
    }
    assert(x@ =~= y@);
    true
}

/// Appends the characters of `s` to `out`.
pub fn push_all(out: &mut Vec<char>, s: &[char])
    ensures
        final(out)@ == old(out)@ + s@,
{
    let mut i: usize = 0;
    while i < s.len()
        invariant
            i <= s@.len(),
            out@ == old(out)@ + s@.take(i as int),
        decreases s.len() - i,
    {
        out.push(s[i]);
        i = i + 1;
        assert(out@ =~= old(out)@ + s@.take(i as int));
    }
    assert(s@.take(s@.len() as int) =~= s@);
}

} // verus!

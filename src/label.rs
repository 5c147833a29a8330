//! The line shown for an entry in the result list.
use vstd::prelude::*;

use crate::entry::{CommitDate, PasswordEntry, SignatureStatus};
use crate::text::{chars_of, push_all, string_from_chars, substr_spec};

verus! {

/// Characters of the row taken by everything but the name.
pub const LABEL_FIXED_COLS: usize = 36;

/// Characters of the committer's name that are shown.
pub const COMMITTER_COLS: usize = 15;

/// The mark shown for a signature status.
pub open spec fn status_mark(s: Option<SignatureStatus>) -> Seq<char> {
    match s {
        None => seq![' '],
        Some(SignatureStatus::GoodSignature) => seq!['\u{1f512}'],
        Some(SignatureStatus::AlmostGoodSignature) => seq!['\u{1f513}'],
        Some(SignatureStatus::BadSignature) => seq!['\u{26d4}'],
    }
}

pub open spec fn digit(d: int) -> char {
    if d == 0 { '0' }
    else if d == 1 { '1' }
    else if d == 2 { '2' }
    else if d == 3 { '3' }
    else if d == 4 { '4' }
    else if d == 5 { '5' }
    else if d == 6 { '6' }
    else if d == 7 { '7' }
    else if d == 8 { '8' }
    else { '9' }
}

/// `n` in decimal, zero-padded to `width` digits (for `n` below
/// `10^width`).
pub open spec fn padded_decimal(n: nat, width: nat) -> Seq<char>
    decreases width,
{
    if width == 0 {
        Seq::empty()
    } else {
        padded_decimal(n / 10, (width - 1) as nat).push(digit((n % 10) as int))
    }
}

/// A well-formed date as year-month-day, zero-padded.
pub open spec fn date_text(d: CommitDate) -> Seq<char> {
    padded_decimal(d.year as nat, 4) + seq!['-'] + padded_decimal(d.month as nat, 2) + seq!['-']
        + padded_decimal(d.day as nat, 2)
}

/// `s` followed by spaces up to `width` characters.
pub open spec fn pad_right(s: Seq<char>, width: nat) -> Seq<char> {
    if s.len() >= width {
        s
    } else {
        s + Seq::new((width - s.len()) as nat, |i: int| ' ')
    }
}

/// Width given to the name on a row of `col` characters.
pub open spec fn name_width(col: nat) -> nat {
    if col >= LABEL_FIXED_COLS { (col - LABEL_FIXED_COLS) as nat } else { 0 }
}

/// The line for `e` on a row of `col` characters; `not_available` stands in
/// for a missing committer or date.
pub open spec fn label_spec(e: PasswordEntry, col: nat, not_available: Seq<char>) -> Seq<char> {
    let committer = match e.committed_by {
        Some(c) => c@,
        None => not_available,
    };
    let date = match e.updated {
        Some(d) => date_text(d),
        None => not_available,
    };
    pad_right(e.name@, name_width(col)) + seq![' '] + status_mark(e.signature_status) + seq![' ']
        + substr_spec(committer, 0, COMMITTER_COLS as nat) + seq![' '] + date
}

fn digit_char(d: u16) -> (c: char)
    requires
        d < 10,
    ensures
        c == digit(d as int),
{
    match d {
        0 => '0',
        1 => '1',
        2 => '2',
        3 => '3',
        4 => '4',
        5 => '5',
        6 => '6',
        7 => '7',
        8 => '8',
        _ => '9',
    }
}

/// Appends `n` in decimal, zero-padded to `width` digits.
fn push_padded_decimal(out: &mut Vec<char>, n: u16, width: usize)
    requires
        width <= 4,
    ensures
        final(out)@ == old(out)@ + padded_decimal(n as nat, width as nat),
    decreases width,
{
    if width > 0 {
        push_padded_decimal(out, n / 10, width - 1);
        out.push(digit_char(n % 10));
        proof {
            assert((n / 10) as nat == (n as nat) / 10);
        }
    }
}

/// Appends `d` as year-month-day.
fn push_date(out: &mut Vec<char>, d: CommitDate)
    ensures
        final(out)@ == old(out)@ + date_text(d),
{
    push_padded_decimal(out, d.year, 4);
    out.push('-');
    push_padded_decimal(out, d.month as u16, 2);
    out.push('-');
    push_padded_decimal(out, d.day as u16, 2);
    assert(out@ =~= old(out)@ + date_text(d));
}

/// Appends the first `limit` characters of `s`.
fn push_prefix(out: &mut Vec<char>, s: &[char], limit: usize)
    ensures
        final(out)@ == old(out)@ + substr_spec(s@, 0, limit as nat),
{
    let mut i: usize = 0;
    while i < s.len() && i < limit
        invariant
            i <= s@.len(),
            i <= limit,
            out@ == old(out)@ + s@.subrange(0, i as int),
        decreases s.len() - i,
    {
        out.push(s[i]);
        i = i + 1;
        assert(out@ =~= old(out)@ + s@.subrange(0, i as int));
    }
    assert(s@.subrange(0, i as int) =~= substr_spec(s@, 0, limit as nat));
}

/// The characters of `name` followed by spaces up to `width` characters.
fn padded_name(name: &str, width: usize) -> (r: Vec<char>)
    ensures
        r@ == pad_right(name@, width as nat),
{
    let mut out = chars_of(name);
    let name_len = out.len();
    let target: usize = if name_len < width { width } else { name_len };
    let mut k: usize = name_len;
    assert(out@ =~= name@ + Seq::new(0, |i: int| ' '));
    while k < target
        invariant
            name_len == name@.len(),
            name_len <= k <= target,
            out@ == name@ + Seq::new((k - name_len) as nat, |i: int| ' '),
        decreases target - k,
    {
        out.push(' ');
        k = k + 1;
        assert(out@ =~= name@ + Seq::new((k - name_len) as nat, |i: int| ' '));
    }
    proof {
        if name_len >= width {
            assert(out@ =~= name@);
        }
        assert(out@ =~= pad_right(name@, width as nat));
    }
    out
}

/// The line shown for entry `p` on a row of `col` characters: the name
/// padded to the width left over, the signature mark, up to fifteen
/// characters of the committer, and the date of the last update;
/// `not_available` stands in for a missing committer or date. On a row too
/// narrow for the fixed columns the name is not padded.
pub fn create_label(p: &PasswordEntry, col: usize, not_available: &str) -> (r: String)
    requires
        p.updated matches Some(d) ==> d.wf(),
    ensures
        r@ == label_spec(*p, col as nat, not_available@),
{
    let width: usize = if col >= LABEL_FIXED_COLS { col - LABEL_FIXED_COLS } else { 0 };
    let mut out = padded_name(p.name.as_str(), width);
    out.push(' ');
    match p.signature_status {
        None => out.push(' '),
        Some(SignatureStatus::GoodSignature) => out.push('\u{1f512}'),
        Some(SignatureStatus::AlmostGoodSignature) => out.push('\u{1f513}'),
        Some(SignatureStatus::BadSignature) => out.push('\u{26d4}'),
    }
    out.push(' ');
    let na = chars_of(not_available);
    match &p.committed_by {
        Some(c) => {
            let cs = chars_of(c.as_str());
            push_prefix(&mut out, cs.as_slice(), COMMITTER_COLS);
        },
        None => push_prefix(&mut out, na.as_slice(), COMMITTER_COLS),
    }
    out.push(' ');
    match p.updated {
        Some(d) => push_date(&mut out, d),
        None => push_all(&mut out, na.as_slice()),
    }
    assert(out@ =~= label_spec(*p, col as nat, not_available@));
    string_from_chars(out.as_slice())
}

} // verus!

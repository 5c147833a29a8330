//! The clipboard's exposure window for decrypted secrets.
//!
//! Each copy writes the secret and schedules one wipe, due a fixed number of
//! seconds later. Wipes are not cancelled by later copies: a wipe scheduled by
//! an earlier copy empties the clipboard when it falls due, even if a newer
//! secret was copied since. This model records which wipes are still pending
//! and whether the clipboard is empty, so that a timer firing can be applied
//! to it. What the clipboard holds is tracked in ghost state only: no secret
//! is kept in memory by this model; the caller writes it to the clipboard.
use vstd::prelude::*;

verus! {

/// Seconds a copied secret may stay on the clipboard.
pub const EXPOSURE_SECS: u64 = 40;

/// When a wipe scheduled at `now` falls due.
pub open spec fn wipe_due(now: u64) -> u64 {
    if now <= u64::MAX - EXPOSURE_SECS {
        (now + EXPOSURE_SECS) as u64
    } else {
        u64::MAX
    }
}

/// What the clipboard holds and the times at which pending wipes fall due.
pub struct ClipboardState {
    pub content: Seq<char>,
    pub pending: Seq<u64>,
}

/// The state after copying `secret` at time `now`.
pub open spec fn copy_spec(s: ClipboardState, secret: Seq<char>, now: u64) -> ClipboardState {
    ClipboardState { content: secret, pending: s.pending.push(wipe_due(now)) }
}

pub open spec fn not_due(now: u64) -> spec_fn(u64) -> bool {
    |d: u64| d > now
}

/// Some pending wipe is due at `now`.
pub open spec fn any_due(pending: Seq<u64>, now: u64) -> bool {
    exists|i: int| 0 <= i < pending.len() && #[trigger] pending[i] <= now
}

/// The state after the wipes due at `now` have fired.
pub open spec fn fire_spec(s: ClipboardState, now: u64) -> ClipboardState {
    ClipboardState {
        content: if any_due(s.pending, now) { Seq::empty() } else { s.content },
        pending: s.pending.filter(not_due(now)),
    }
}

/// The clipboard as this program drives it.
pub struct ClipboardGuard {
    content: Ghost<Seq<char>>,
    empty: bool,
    pending: Vec<u64>,
}

impl View for ClipboardGuard {
    type V = ClipboardState;

    closed spec fn view(&self) -> ClipboardState {
        ClipboardState { content: self.content@, pending: self.pending@ }
    }
}

impl ClipboardGuard {
    /// The emptiness flag agrees with the modelled content.
    pub closed spec fn wf(&self) -> bool {
        self.empty == (self.content@.len() == 0)
    }

    /// An empty clipboard with no wipe pending.
    pub fn new() -> (r: Self)
        ensures
            r.wf(),
            r@.content.len() == 0,
            r@.pending.len() == 0,
    {
        ClipboardGuard { content: Ghost(Seq::empty()), empty: true, pending: Vec::new() }
    }

    /// Whether the clipboard is empty now.
    pub fn is_empty(&self) -> (r: bool)
        requires
            self.wf(),
        ensures
            r == (self@.content.len() == 0),
    {
        self.empty
    }

    /// How many wipes are still pending.
    pub fn pending_wipes(&self) -> (r: usize)
        ensures
            r == self@.pending.len(),
    {
        self.pending.len()
    }

    /// Records that `secret` was put on the clipboard at time `now` (in
    /// seconds) and schedules its wipe; returns when the wipe falls due. The
    /// secret itself is not kept.
    pub fn copy(&mut self, secret: &str, now: u64) -> (due: u64)
        requires
            old(self).wf(),
        ensures
            final(self).wf(),
            final(self)@ == copy_spec(old(self)@, secret@, now),
            due == wipe_due(now),
    {
        let due: u64 = if now <= u64::MAX - EXPOSURE_SECS {
            now + EXPOSURE_SECS
        } else {
            u64::MAX
        };
        self.content = Ghost(secret@);
        self.empty = secret.is_empty();
        self.pending.push(due);
        due
    }

    /// Fires the wipes due at time `now`; tells whether any fired.
    pub fn fire_due(&mut self, now: u64) -> (wiped: bool)
        requires
            old(self).wf(),
        ensures
            final(self).wf(),
            final(self)@ == fire_spec(old(self)@, now),
            wiped == any_due(old(self)@.pending, now),
    {
        let mut kept: Vec<u64> = Vec::new();
        let mut wiped = false;
        let mut i: usize = 0;
        while i < self.pending.len()
            invariant
                i <= self.pending@.len(),
                self.pending@ == old(self)@.pending,
                self.content@ == old(self)@.content,
                self.empty == old(self).empty,
                kept@ == self.pending@.take(i as int).filter(not_due(now)),
                wiped == exists|j: int| 0 <= j < i && #[trigger] self.pending@[j] <= now,
            decreases self.pending.len() - i,
        {
            let d = self.pending[i];
            proof {
                let p = self.pending@;
                assert(p.take(i + 1) =~= p.take(i as int).push(p[i as int]));
                p.take(i as int).lemma_filter_push(p[i as int], not_due(now));
            }
            if d > now {
                kept.push(d);
            } else {
                wiped = true;
            }
            i = i + 1;
        }
        assert(self.pending@.take(self.pending@.len() as int) =~= self.pending@);
        self.pending = kept;
        if wiped {
            self.content = Ghost(Seq::empty());
            self.empty = true;
        }
        wiped
    }
}

/// A copied secret, of any content, is gone from the clipboard once the
/// exposure window has passed after the copy.
pub proof fn lemma_wiped_after_window(s: ClipboardState, secret: Seq<char>, t: u64, later: u64)
    requires
        later >= wipe_due(t),
    ensures
        fire_spec(copy_spec(s, secret, t), later).content.len() == 0,
{
    let c = copy_spec(s, secret, t);
    let n = s.pending.len() as int;
    assert(c.pending[n] <= later);
}

/// Two copies in a row: the second secret is what the clipboard holds; when
/// the first copy's wipe fires before the second's is due, the clipboard is
/// emptied although the second wipe is still pending; once both are due, the
/// clipboard is empty and nothing is pending.
pub proof fn lemma_overlapping_copies(
    s: ClipboardState,
    s1: Seq<char>,
    t1: u64,
    s2: Seq<char>,
    t2: u64,
    mid: u64,
    end: u64,
)
    requires
        s.pending.len() == 0,
        t1 <= t2 <= u64::MAX - EXPOSURE_SECS,
        wipe_due(t1) <= mid < wipe_due(t2),
        end >= wipe_due(t2),
    ensures
        copy_spec(copy_spec(s, s1, t1), s2, t2).content == s2,
        fire_spec(copy_spec(copy_spec(s, s1, t1), s2, t2), mid).content.len() == 0,
        fire_spec(copy_spec(copy_spec(s, s1, t1), s2, t2), mid).pending == seq![wipe_due(t2)],
        fire_spec(copy_spec(copy_spec(s, s1, t1), s2, t2), end).content.len() == 0,
        fire_spec(copy_spec(copy_spec(s, s1, t1), s2, t2), end).pending.len() == 0,
{
    let c = copy_spec(copy_spec(s, s1, t1), s2, t2);
    assert(c.pending =~= seq![wipe_due(t1), wipe_due(t2)]);
    assert(c.pending[0] <= mid);
    assert(c.pending[1] <= end);
    reveal_with_fuel(Seq::filter, 3);
    assert(c.pending.drop_last().drop_last() =~= Seq::<u64>::empty());
    assert(c.pending.drop_last() =~= seq![wipe_due(t1)]);
    assert(c.pending.filter(not_due(mid)) =~= seq![wipe_due(t2)]);
    assert(c.pending.filter(not_due(end)) =~= Seq::<u64>::empty());
}

} // verus!

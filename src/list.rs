//! The in-memory list of password entries, keyed by path, and the events
//! that change it.
use vstd::prelude::*;

use crate::entry::{PasswordEntry, clone_entries};
use crate::notice::Notice;

verus! {

/// No two entries share a path.
pub open spec fn paths_unique(s: Seq<PasswordEntry>) -> bool {
    forall|i: int, j: int|
        0 <= i < j < s.len() ==> #[trigger] s[i].path@ != #[trigger] s[j].path@
}

/// Entry `k` is the last one in `s` with its path.
pub open spec fn is_last_of_path(s: Seq<PasswordEntry>, k: int) -> bool {
    forall|j: int| k < j < s.len() ==> #[trigger] s[j].path@ != s[k].path@
}

/// `x` is an entry of the first `i` of `s` that is the last of its path.
pub open spec fn last_among(s: Seq<PasswordEntry>, i: int, x: PasswordEntry) -> bool {
    exists|j: int| 0 <= j < i && #[trigger] is_last_of_path(s, j) && x == s[j]
}

/// Among the first `i` entries of `s`, those that are the last of their path
/// in the whole of `s`, in order.
pub open spec fn latest_prefix(s: Seq<PasswordEntry>, i: int) -> Seq<PasswordEntry>
    decreases i,
{
    if i <= 0 {
        Seq::empty()
    } else if is_last_of_path(s, i - 1) {
        latest_prefix(s, i - 1).push(s[i - 1])
    } else {
        latest_prefix(s, i - 1)
    }
}

/// One entry per path of `s`: the last one given for that path.
pub open spec fn latest_per_path(s: Seq<PasswordEntry>) -> Seq<PasswordEntry> {
    latest_prefix(s, s.len() as int)
}

/// `s` holds an entry with path `p`.
pub open spec fn has_path(s: Seq<PasswordEntry>, p: Seq<char>) -> bool {
    exists|k: int| 0 <= k < s.len() && #[trigger] s[k].path@ == p
}

/// The position of the entry with path `p` in `s`, when `has_path(s, p)`.
pub open spec fn path_index(s: Seq<PasswordEntry>, p: Seq<char>) -> int {
    choose|k: int| 0 <= k < s.len() && #[trigger] s[k].path@ == p
}

/// `s` without its entry of path `p`, if it has one.
pub open spec fn remove_path(s: Seq<PasswordEntry>, p: Seq<char>) -> Seq<PasswordEntry> {
    if has_path(s, p) {
        s.remove(path_index(s, p))
    } else {
        s
    }
}

/// `s` with `e` in place of the entry of its path, or `e` added at the end
/// when there is none.
pub open spec fn upsert(s: Seq<PasswordEntry>, e: PasswordEntry) -> Seq<PasswordEntry> {
    if has_path(s, e.path@) {
        s.update(path_index(s, e.path@), e)
    } else {
        s.push(e)
    }
}

proof fn lemma_latest_prefix(s: Seq<PasswordEntry>, i: int)
    requires
        0 <= i <= s.len(),
    ensures
        paths_unique(latest_prefix(s, i)),
        forall|k: int|
            0 <= k < latest_prefix(s, i).len() ==> last_among(s, i, #[trigger] latest_prefix(s, i)[k]),
        forall|j: int|
            0 <= j < i && is_last_of_path(s, j) ==> #[trigger] latest_prefix(s, i).contains(s[j]),
    decreases i,
{
    if i > 0 {
        lemma_latest_prefix(s, i - 1);
        let prev = latest_prefix(s, i - 1);
        let cur = latest_prefix(s, i);
        let added = is_last_of_path(s, i - 1);
        assert(added ==> cur == prev.push(s[i - 1]));
        assert(!added ==> cur == prev);
        assert forall|a: int, b: int| 0 <= a < b < cur.len() implies cur[a].path@
            != cur[b].path@ by {
            if b < prev.len() {
                assert(prev[a].path@ != prev[b].path@);
            } else {
                assert(last_among(s, i - 1, prev[a]));
                let j = choose|j: int|
                    0 <= j < i - 1 && #[trigger] is_last_of_path(s, j) && prev[a] == s[j];
                assert(s[i - 1].path@ != s[j].path@);
            }
        }
        assert forall|k: int| 0 <= k < cur.len() implies last_among(s, i, #[trigger] cur[k]) by {
            if k < prev.len() {
                assert(last_among(s, i - 1, prev[k]));
                let j = choose|j: int|
                    0 <= j < i - 1 && #[trigger] is_last_of_path(s, j) && prev[k] == s[j];
                assert(is_last_of_path(s, j) && cur[k] == s[j]);
            } else {
                assert(is_last_of_path(s, i - 1) && cur[k] == s[i - 1]);
            }
        }
        assert forall|j: int| 0 <= j < i && is_last_of_path(s, j) implies #[trigger] cur.contains(
            s[j],
        ) by {
            if j < i - 1 {
                assert(prev.contains(s[j]));
                let k = choose|k: int| 0 <= k < prev.len() && prev[k] == s[j];
                assert(cur[k] == s[j]);
            } else {
                assert(cur[cur.len() - 1] == s[j]);
            }
        }
    } else {
        assert(latest_prefix(s, i).len() == 0);
    }
}

proof fn lemma_last_occurrence(s: Seq<PasswordEntry>, j: int)
    requires
        0 <= j < s.len(),
    ensures
        exists|m: int| j <= m < s.len() && s[m].path@ == s[j].path@ && #[trigger] is_last_of_path(s, m),
    decreases s.len() - j,
{
    if !is_last_of_path(s, j) {
        let m = choose|m: int| j < m < s.len() && #[trigger] s[m].path@ == s[j].path@;
        lemma_last_occurrence(s, m);
    } else {
        assert(s[j].path@ == s[j].path@);
    }
}

/// A re-read store, as kept: no two entries share a path, each entry is the
/// last one the re-read gave for its path, and every path of the re-read is
/// there.
pub proof fn lemma_latest_per_path(s: Seq<PasswordEntry>)
    ensures
        paths_unique(latest_per_path(s)),
        forall|k: int|
            0 <= k < latest_per_path(s).len() ==> last_among(s, s.len() as int, #[trigger] latest_per_path(s)[k]),
        forall|j: int|
            0 <= j < s.len() && is_last_of_path(s, j) ==> #[trigger] latest_per_path(s).contains(s[j]),
        forall|j: int| 0 <= j < s.len() ==> has_path(latest_per_path(s), #[trigger] s[j].path@),
{
    lemma_latest_prefix(s, s.len() as int);
    let r = latest_per_path(s);
    assert forall|j: int| 0 <= j < s.len() implies has_path(r, #[trigger] s[j].path@) by {
        lemma_last_occurrence(s, j);
        let m = choose|m: int|
            j <= m < s.len() && s[m].path@ == s[j].path@ && #[trigger] is_last_of_path(s, m);
        assert(r.contains(s[m]));
        let k = choose|k: int| 0 <= k < r.len() && r[k] == s[m];
        assert(r[k].path@ == s[j].path@);
    }
}

/// In a list without repeated paths, an entry with path `p` sits at `path_index`.
pub proof fn lemma_path_index_unique(s: Seq<PasswordEntry>, p: Seq<char>, k: int)
    requires
        paths_unique(s),
        0 <= k < s.len(),
        s[k].path@ == p,
    ensures
        has_path(s, p),
        path_index(s, p) == k,
{
    assert(s[k].path@ == p);
    let m = path_index(s, p);
    if m != k {
        if m < k {
            assert(s[m].path@ != s[k].path@);
        } else {
            assert(s[k].path@ != s[m].path@);
        }
    }
}

/// Putting an entry in keeps paths unique, and leaves exactly one entry with
/// its path.
pub proof fn lemma_upsert(s: Seq<PasswordEntry>, e: PasswordEntry)
    requires
        paths_unique(s),
    ensures
        paths_unique(upsert(s, e)),
        has_path(upsert(s, e), e.path@),
        upsert(s, e).len() == if has_path(s, e.path@) { s.len() } else { s.len() + 1 },
        forall|i: int|
            0 <= i < upsert(s, e).len() && #[trigger] upsert(s, e)[i].path@ == e.path@ ==> upsert(
                s,
                e,
            )[i] == e,
{
    let c = upsert(s, e);
    if has_path(s, e.path@) {
        let k = path_index(s, e.path@);
        assert(c[k] == e);
        assert forall|a: int, b: int| 0 <= a < b < c.len() implies c[a].path@ != c[b].path@ by {
            assert(s[a].path@ != s[b].path@);
        }
        assert forall|i: int| 0 <= i < c.len() && #[trigger] c[i].path@ == e.path@ implies c[i]
            == e by {
            if i != k {
                if i < k {
                    assert(s[i].path@ != s[k].path@);
                } else {
                    assert(s[k].path@ != s[i].path@);
                }
            }
        }
    } else {
        let n = s.len() as int;
        assert(c[n] == e);
        assert forall|a: int, b: int| 0 <= a < b < c.len() implies c[a].path@ != c[b].path@ by {
            if b == n {
                assert(s[a].path@ != e.path@);
            } else {
                assert(s[a].path@ != s[b].path@);
            }
        }
        assert forall|i: int| 0 <= i < c.len() && #[trigger] c[i].path@ == e.path@ implies c[i]
            == e by {
            if i < n {
                assert(s[i].path@ == e.path@);
            }
        }
    }
}

/// Taking out the entry of a path keeps paths unique, leaves no entry with
/// that path, and shortens the list by one when there was one.
pub proof fn lemma_remove_path(s: Seq<PasswordEntry>, p: Seq<char>)
    requires
        paths_unique(s),
    ensures
        paths_unique(remove_path(s, p)),
        !has_path(remove_path(s, p), p),
        remove_path(s, p).len() == if has_path(s, p) { s.len() - 1 } else { s.len() as int },
{
    let d = remove_path(s, p);
    if has_path(s, p) {
        let k = path_index(s, p);
        assert forall|a: int, b: int| 0 <= a < b < d.len() implies d[a].path@ != d[b].path@ by {
            let a2 = if a < k { a } else { a + 1 };
            let b2 = if b < k { b } else { b + 1 };
            assert(d[a] == s[a2] && d[b] == s[b2]);
            assert(s[a2].path@ != s[b2].path@);
        }
        if has_path(d, p) {
            let i = choose|i: int| 0 <= i < d.len() && #[trigger] d[i].path@ == p;
            let i2 = if i < k { i } else { i + 1 };
            assert(d[i] == s[i2]);
            if i2 < k {
                assert(s[i2].path@ != s[k].path@);
            } else {
                assert(s[k].path@ != s[i2].path@);
            }
        }
    }
}

/// Creating an entry and then deleting it: the re-loaded entry is the only
/// one with its path; the delete shortens the list by exactly one and leaves
/// no entry with that path; and when the path was new, the list is back to
/// what it was.
pub proof fn lemma_create_then_delete(s: Seq<PasswordEntry>, e: PasswordEntry)
    requires
        paths_unique(s),
    ensures
        has_path(upsert(s, e), e.path@),
        forall|i: int|
            0 <= i < upsert(s, e).len() && #[trigger] upsert(s, e)[i].path@ == e.path@ ==> upsert(
                s,
                e,
            )[i] == e,
        remove_path(upsert(s, e), e.path@).len() == upsert(s, e).len() - 1,
        !has_path(remove_path(upsert(s, e), e.path@), e.path@),
        !has_path(s, e.path@) ==> upsert(s, e).len() == s.len() + 1,
        !has_path(s, e.path@) ==> remove_path(upsert(s, e), e.path@) == s,
{
    lemma_upsert(s, e);
    lemma_remove_path(upsert(s, e), e.path@);
    if !has_path(s, e.path@) {
        let c = upsert(s, e);
        let n = s.len() as int;
        assert(c[n].path@ == e.path@);
        lemma_path_index_unique(c, e.path@, n);
        assert(c.remove(n) =~= s);
    }
}

/// Index of the entry of `v` whose path is `path`, if there is one.
pub fn find_path(v: &Vec<PasswordEntry>, path: &String) -> (r: Option<usize>)
    ensures
        r is None <==> !has_path(v@, path@),
        r matches Some(k) ==> k < v@.len() && v@[k as int].path@ == path@,
        r matches Some(k) ==> forall|j: int| 0 <= j < k ==> #[trigger] v@[j].path@ != path@,
{
    let mut i: usize = 0;
    while i < v.len()
        invariant
            i <= v.len(),
            forall|j: int| 0 <= j < i ==> #[trigger] v@[j].path@ != path@,
        decreases v.len() - i,
    {
        if v[i].path == *path {
            return Some(i);
        }
        i = i + 1;
    }
    None
}

/// Keeps, for each path, the last entry given for it.
pub fn keep_latest_per_path(v: &Vec<PasswordEntry>) -> (r: Vec<PasswordEntry>)
    ensures
        r@ == latest_per_path(v@),
        paths_unique(r@),
{
    let mut out: Vec<PasswordEntry> = Vec::new();
    let mut i: usize = 0;
    while i < v.len()
        invariant
            i <= v.len(),
            out@ == latest_prefix(v@, i as int),
        decreases v.len() - i,
    {
        let mut last = true;
        let mut j: usize = i + 1;
        while j < v.len()
            invariant
                i < j <= v.len(),
                last <==> forall|m: int| i < m < j ==> #[trigger] v@[m].path@ != v@[i as int].path@,
            decreases v.len() - j,
        {
            if v[j].path == v[i].path {
                last = false;
            }
            j = j + 1;
        }
        if last {
            out.push(v[i].clone());
        }
        i = i + 1;
    }
    proof {
        lemma_latest_per_path(v@);
    }
    out
}

/// A change reported by the store watcher.
#[derive(Debug)]
pub enum ChangeEvent {
    /// The store was read again; these are all its entries.
    Resynced(Vec<PasswordEntry>),
    /// Part of the store could not be decoded.
    Error(String),
}

/// The list after `e`: a re-read replaces it, an error leaves it as it was.
pub open spec fn apply_event(s: Seq<PasswordEntry>, e: ChangeEvent) -> Seq<PasswordEntry> {
    match e {
        ChangeEvent::Resynced(v) => latest_per_path(v@),
        ChangeEvent::Error(_) => s,
    }
}

/// The list after the events `es`, applied in order.
pub open spec fn apply_events(s: Seq<PasswordEntry>, es: Seq<ChangeEvent>) -> Seq<PasswordEntry>
    decreases es.len(),
{
    if es.len() == 0 {
        s
    } else {
        apply_event(apply_events(s, es.drop_last()), es.last())
    }
}

/// The entries of the last re-read among `es`, if there is one.
pub open spec fn last_resync(es: Seq<ChangeEvent>) -> Option<Seq<PasswordEntry>>
    decreases es.len(),
{
    if es.len() == 0 {
        None
    } else {
        match es.last() {
            ChangeEvent::Resynced(v) => Some(v@),
            ChangeEvent::Error(_) => last_resync(es.drop_last()),
        }
    }
}

/// Whether the events `es` hold a re-read.
pub fn has_resync(events: &Vec<ChangeEvent>) -> (r: bool)
    ensures
        r == (last_resync(events@) is Some),
{
    let mut found = false;
    let mut i: usize = 0;
    assert(events@.take(0) =~= Seq::<ChangeEvent>::empty());
    while i < events.len()
        invariant
            i <= events@.len(),
            found == (last_resync(events@.take(i as int)) is Some),
        decreases events.len() - i,
    {
        proof {
            assert(events@.take(i + 1).drop_last() =~= events@.take(i as int));
            assert(events@.take(i + 1).last() == events@[i as int]);
        }
        match &events[i] {
            ChangeEvent::Resynced(_) => {
                found = true;
            },
            ChangeEvent::Error(_) => {},
        }
        i = i + 1;
    }
    assert(events@.take(events@.len() as int) =~= events@);
    found
}

/// What the user is told of `e`.
pub open spec fn event_notice(e: ChangeEvent) -> Option<Notice> {
    match e {
        ChangeEvent::Resynced(_) => None,
        ChangeEvent::Error(m) => Some(Notice::DecodeError(m)),
    }
}

/// What the user is told of the events `es`, in order, and of the watcher
/// having stopped when `closed`.
pub open spec fn drain_notices(es: Seq<ChangeEvent>, closed: bool) -> Seq<Notice>
    decreases es.len(),
{
    if es.len() == 0 {
        if closed {
            seq![Notice::WatcherStopped]
        } else {
            Seq::empty()
        }
    } else {
        let first = match event_notice(es[0]) {
            Some(n) => seq![n],
            None => Seq::empty(),
        };
        first + drain_notices(es.drop_first(), closed)
    }
}

/// Applying any sequence of watcher events that holds a re-read leaves the
/// entries of the last re-read, one per path: the last one it gave for that
/// path, and one for each path it gave.
pub proof fn lemma_resync_sequence(start: Seq<PasswordEntry>, es: Seq<ChangeEvent>)
    requires
        last_resync(es) is Some,
    ensures
        apply_events(start, es) == latest_per_path(last_resync(es)->0),
        paths_unique(apply_events(start, es)),
        forall|k: int|
            0 <= k < apply_events(start, es).len() ==> last_among(
                last_resync(es)->0,
                last_resync(es)->0.len() as int,
                #[trigger] apply_events(start, es)[k],
            ),
        forall|j: int|
            0 <= j < last_resync(es)->0.len() ==> has_path(
                apply_events(start, es),
                #[trigger] last_resync(es)->0[j].path@,
            ),
    decreases es.len(),
{
    match es.last() {
        ChangeEvent::Resynced(v) => {},
        ChangeEvent::Error(_) => {
            lemma_resync_sequence(start, es.drop_last());
        },
    }
    lemma_latest_per_path(last_resync(es)->0);
}

/// The password entries, in display order, with at most one entry per path.
pub struct PasswordList {
    entries: Vec<PasswordEntry>,
}

impl View for PasswordList {
    type V = Seq<PasswordEntry>;

    closed spec fn view(&self) -> Seq<PasswordEntry> {
        self.entries@
    }
}

impl PasswordList {
    /// No two entries share a path.
    pub open spec fn wf(&self) -> bool {
        paths_unique(self@)
    }

    pub fn new() -> (r: Self)
        ensures
            r@ == Seq::<PasswordEntry>::empty(),
            r.wf(),
    {
        PasswordList { entries: Vec::new() }
    }

    /// A list of the entries read from the store, one per path.
    pub fn from_entries(v: &Vec<PasswordEntry>) -> (r: Self)
        ensures
            r@ == latest_per_path(v@),
            r.wf(),
    {
        PasswordList { entries: keep_latest_per_path(v) }
    }

    pub fn len(&self) -> (r: usize)
        ensures
            r == self@.len(),
    {
        self.entries.len()
    }

    /// A copy of the entries as they are now.
    pub fn snapshot(&self) -> (r: Vec<PasswordEntry>)
        ensures
            r@ == self@,
    {
        clone_entries(&self.entries)
    }

    /// Position of the entry with path `path`.
    pub fn position_of(&self, path: &String) -> (r: Option<usize>)
        requires
            self.wf(),
        ensures
            r is None <==> !has_path(self@, path@),
            r matches Some(k) ==> k == path_index(self@, path@),
    {
        let r = find_path(&self.entries, path);
        proof {
            if let Some(k) = r {
                lemma_path_index_unique(self@, path@, k as int);
            }
        }
        r
    }

    /// Applies one watcher event.
    pub fn apply(&mut self, event: &ChangeEvent) -> (r: Option<Notice>)
        requires
            old(self).wf(),
        ensures
            final(self)@ == apply_event(old(self)@, *event),
            final(self).wf(),
            r == event_notice(*event),
    {
        match event {
            ChangeEvent::Resynced(v) => {
                self.entries = keep_latest_per_path(v);
                None
            },
            ChangeEvent::Error(m) => Some(Notice::DecodeError(m.clone())),
        }
    }

    /// Applies, in order, the events that were waiting, and reports those
    /// that the user must see; `closed` tells that the watcher has stopped.
    pub fn apply_drained(&mut self, events: &Vec<ChangeEvent>, closed: bool) -> (r: Vec<Notice>)
        requires
            old(self).wf(),
        ensures
            final(self)@ == apply_events(old(self)@, events@),
            final(self).wf(),
            r@ == drain_notices(events@, closed),
    {
        let mut notices: Vec<Notice> = Vec::new();
        let mut i: usize = 0;
        assert(events@.skip(0) =~= events@);
        assert(notices@ + drain_notices(events@, closed) =~= drain_notices(events@, closed));
        assert(events@.take(0) =~= Seq::<ChangeEvent>::empty());
        while i < events.len()
            invariant
                i <= events.len(),
                self.wf(),
                self@ == apply_events(old(self)@, events@.take(i as int)),
                notices@ + drain_notices(events@.skip(i as int), closed) == drain_notices(
                    events@,
                    closed,
                ),
            decreases events.len() - i,
        {
            let n = self.apply(&events[i]);
            proof {
                assert(events@.take(i + 1).drop_last() =~= events@.take(i as int));
                let rest = events@.skip(i as int);
                assert(rest.drop_first() =~= events@.skip(i + 1));
                assert(rest[0] == events@[i as int]);
            }
            match n {
                Some(x) => {
                    notices.push(x);
                },
                None => {},
            }
            proof {
                assert(notices@ + drain_notices(events@.skip(i + 1), closed) =~= drain_notices(
                    events@,
                    closed,
                ));
            }
            i = i + 1;
        }
        assert(events@.take(events.len() as int) =~= events@);
        if closed {
            notices.push(Notice::WatcherStopped);
        }
        assert(notices@ =~= drain_notices(events@, closed));
        notices
    }

    /// Puts in an entry read back from disk, in place of the entry of its
    /// path, or at the end.
    pub fn insert_entry(&mut self, e: PasswordEntry)
        requires
            old(self).wf(),
        ensures
            final(self)@ == upsert(old(self)@, e),
            final(self).wf(),
    {
        proof {
            lemma_upsert(self@, e);
        }
        match self.position_of(&e.path) {
            Some(k) => {
                self.entries.set(k, e);
            },
            None => {
                self.entries.push(e);
            },
        }
    }

    /// Takes out the entry with path `path`; tells whether there was one.
    pub fn remove_entry(&mut self, path: &String) -> (r: bool)
        requires
            old(self).wf(),
        ensures
            final(self)@ == remove_path(old(self)@, path@),
            final(self).wf(),
            r == has_path(old(self)@, path@),
    {
        proof {
            lemma_remove_path(self@, path@);
        }
        match self.position_of(path) {
            Some(k) => {
                self.entries.remove(k);
                true
            },
            None => false,
        }
    }

    /// After a remote pull: whatever the pull gave, the list becomes what was
    /// re-read from disk; it stays as it was only when the re-read failed.
    pub fn finish_pull(
        &mut self,
        pulled: &Result<(), String>,
        reread: &Result<Vec<PasswordEntry>, String>,
    ) -> (r: Vec<Notice>)
        requires
            old(self).wf(),
        ensures
            final(self).wf(),
            (*reread) matches Ok(v) ==> final(self)@ == latest_per_path(v@),
            reread is Err ==> final(self)@ == old(self)@,
            r@ == pull_notices(*pulled, *reread),
    {
        let mut notices: Vec<Notice> = Vec::new();
        match pulled {
            Ok(_) => {},
            Err(m) => {
                notices.push(Notice::PullFailed(m.clone()));
            },
        }
        match reread {
            Ok(v) => {
                self.entries = keep_latest_per_path(v);
            },
            Err(m) => {
                notices.push(Notice::ReloadFailed(m.clone()));
            },
        }
        assert(notices@ =~= pull_notices(*pulled, *reread));
        notices
    }

    /// After a new entry was written to disk: puts in the entry read back,
    /// or, when reading it back failed, leaves the list as it was and says so.
    pub fn record_created(&mut self, loaded: Result<PasswordEntry, String>) -> (r: Option<Notice>)
        requires
            old(self).wf(),
        ensures
            final(self).wf(),
            loaded matches Ok(e) ==> final(self)@ == upsert(old(self)@, e) && r is None,
            loaded matches Err(m) ==> final(self)@ == old(self)@ && r == Some(
                Notice::CreatedNotLoaded(m),
            ),
    {
        match loaded {
            Ok(e) => {
                self.insert_entry(e);
                None
            },
            Err(m) => Some(Notice::CreatedNotLoaded(m)),
        }
    }

    /// After deleting the entry with path `path` from disk: takes it out of
    /// the list, or, when the delete failed, leaves the list as it was.
    pub fn record_deleted(&mut self, path: &String, removed: &Result<(), String>) -> (r: Option<
        Notice,
    >)
        requires
            old(self).wf(),
        ensures
            final(self).wf(),
            removed is Ok ==> final(self)@ == remove_path(old(self)@, path@) && r is None,
            (*removed) matches Err(m) ==> final(self)@ == old(self)@ && r == Some(
                Notice::DeleteFailed(m),
            ),
    {
        match removed {
            Ok(_) => {
                self.remove_entry(path);
                None
            },
            Err(m) => Some(Notice::DeleteFailed(m.clone())),
        }
    }
}

/// What the user is told after a pull: the pull's failure, then the re-read's.
pub open spec fn pull_notices(
    pulled: Result<(), String>,
    reread: Result<Vec<PasswordEntry>, String>,
) -> Seq<Notice> {
    let a = match pulled {
        Ok(_) => Seq::empty(),
        Err(m) => seq![Notice::PullFailed(m)],
    };
    let b = match reread {
        Ok(_) => Seq::empty(),
        Err(m) => seq![Notice::ReloadFailed(m)],
    };
    a + b
}

} // verus!

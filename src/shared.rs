//! The password list shared between the store watcher's thread and the user
//! interface's thread.
//!
//! One reader-writer lock guards the list. A re-read is reduced to one entry
//! per path before the lock is taken and then swapped in whole; a single
//! insert or removal is done under the lock on the list already in memory; no
//! lock is held across I/O. Readers copy the list under the lock, so no reader
//! holds a reference across the lock or sees a half-applied change.
//!
//! The lock's invariant is that no two entries share a path: every state any
//! thread can observe satisfies it. Since other threads may change the list
//! at any time, the contracts here state only that invariant and the notices
//! returned; what each change does to the list is stated, exactly, on
//! [`PasswordList`], whose methods these call or mirror.
use vstd::prelude::*;
use vstd::rwlock::{RwLock, RwLockPredicate};

use crate::entry::PasswordEntry;
use crate::list::{
    ChangeEvent, PasswordList, drain_notices, event_notice, has_resync, last_resync,
    latest_per_path, lemma_resync_sequence, paths_unique,
    pull_notices,
};
use crate::notice::Notice;

verus! {

/// The lock's invariant: the guarded list is well formed.
pub struct ListIsWellFormed;

impl RwLockPredicate<PasswordList> for ListIsWellFormed {
    open spec fn inv(self, v: PasswordList) -> bool {
        v.wf()
    }
}

/// The password list, shared between threads.
pub struct SharedPasswordList {
    lock: RwLock<PasswordList, ListIsWellFormed>,
}

impl SharedPasswordList {
    /// A shared list of the entries first read from the store, one per path.
    pub fn new(initial: &Vec<PasswordEntry>) -> (r: Self) {
        let list = PasswordList::from_entries(initial);
        SharedPasswordList { lock: RwLock::new(list, Ghost(ListIsWellFormed)) }
    }

    /// A consistent copy of the list as it stands at the moment of the call.
    pub fn snapshot(&self) -> (r: Vec<PasswordEntry>)
        ensures
            paths_unique(r@),
    {
        let handle = self.lock.acquire_read();
        let r = handle.borrow().snapshot();
        handle.release_read();
        r
    }

    /// Swaps in a list that was prepared without the lock.
    fn replace(&self, list: PasswordList)
        requires
            list.wf(),
    {
        let (_old, handle) = self.lock.acquire_write();
        handle.release_write(list);
    }

    /// Applies one watcher event: a re-read is reduced to one entry per path
    /// before the lock is taken, then swapped in whole.
    pub fn apply(&self, event: &ChangeEvent) -> (r: Option<Notice>)
        ensures
            r == event_notice(*event),
    {
        match event {
            ChangeEvent::Resynced(v) => {
                self.replace(PasswordList::from_entries(v));
                None
            },
            ChangeEvent::Error(m) => Some(Notice::DecodeError(m.clone())),
        }
    }

    /// Applies, in order, the watcher events that were waiting, and reports
    /// what the user must see. Only the last re-read among them decides the
    /// list; it is prepared before the lock is taken.
    pub fn apply_drained(&self, events: &Vec<ChangeEvent>, closed: bool) -> (r: Vec<Notice>)
        ensures
            r@ == drain_notices(events@, closed),
    {
        let mut prepared = PasswordList::new();
        let r = prepared.apply_drained(events, closed);
        proof {
            if last_resync(events@) is Some {
                lemma_resync_sequence(Seq::empty(), events@);
                assert(prepared@ == latest_per_path(last_resync(events@)->0));
            }
        }
        if has_resync(events) {
            self.replace(prepared);
        }
        r
    }

    /// After a remote pull: swaps in what was re-read from disk, whatever the
    /// pull gave.
    pub fn finish_pull(
        &self,
        pulled: &Result<(), String>,
        reread: &Result<Vec<PasswordEntry>, String>,
    ) -> (r: Vec<Notice>)
        ensures
            r@ == pull_notices(*pulled, *reread),
    {
        let mut notices: Vec<Notice> = Vec::new();
        match pulled {
            Ok(_) => {},
            Err(m) => {
                notices.push(Notice::PullFailed(m.clone()));
            },
        }
        match reread {
            Ok(v) => {
                self.replace(PasswordList::from_entries(v));
            },
            Err(m) => {
                notices.push(Notice::ReloadFailed(m.clone()));
            },
        }
        assert(notices@ =~= pull_notices(*pulled, *reread));
        notices
    }

    /// After a new entry was written to disk; see
    /// [`PasswordList::record_created`].
    pub fn record_created(&self, loaded: Result<PasswordEntry, String>) -> (r: Option<Notice>)
        ensures
            loaded is Ok ==> r is None,
            loaded matches Err(m) ==> r == Some(Notice::CreatedNotLoaded(m)),
    {
        let (mut list, handle) = self.lock.acquire_write();
        let r = list.record_created(loaded);
        handle.release_write(list);
        r
    }

    /// After deleting an entry from disk; see [`PasswordList::record_deleted`].
    pub fn record_deleted(&self, path: &String, removed: &Result<(), String>) -> (r: Option<Notice>)
        ensures
            removed is Ok ==> r is None,
            (*removed) matches Err(m) ==> r == Some(Notice::DeleteFailed(m)),
    {
        let (mut list, handle) = self.lock.acquire_write();
        let r = list.record_deleted(path, removed);
        handle.release_write(list);
        r
    }
}

} // verus!

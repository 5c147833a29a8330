//! Messages the user interface shows after an operation or a background event.
use vstd::prelude::*;

verus! {

/// A non-fatal message for the user. None of these ends the program.
#[derive(Debug)]
pub enum Notice {
    /// The store watcher could not decode part of the store.
    DecodeError(String),
    /// The store watcher has stopped; the list will not change by itself any more.
    WatcherStopped,
    /// The remote pull failed; the list was still re-read from disk.
    PullFailed(String),
    /// The remote push failed.
    PushFailed(String),
    /// The store could not be re-read from disk; the list was left as it was.
    ReloadFailed(String),
    /// The entry was written to disk, but reading it back failed: it shows up
    /// only after the next full re-read.
    CreatedNotLoaded(String),
    /// Writing new content for an entry failed.
    UpdateFailed(String),
    /// Removing an entry from disk failed; it stays in the list.
    DeleteFailed(String),
    /// The recipients could not be read, added or removed.
    RecipientError(String),
}

/// What the user is told after a remote push; the password list is never
/// touched by a push.
pub fn push_outcome(pushed: &Result<(), String>) -> (r: Option<Notice>)
    ensures
        pushed is Ok ==> r is None,
        (*pushed) matches Err(m) ==> r == Some(Notice::PushFailed(m)),
{
    match pushed {
        Ok(_) => None,
        Err(m) => Some(Notice::PushFailed(m.clone())),
    }
}

/// What the user is told after new content was written for an entry. The
/// list keeps the entry's committer and date as they were until the next
/// full re-read, which is why this takes no list.
pub fn update_outcome(updated: &Result<(), String>) -> (r: Option<Notice>)
    ensures
        updated is Ok ==> r is None,
        (*updated) matches Err(m) ==> r == Some(Notice::UpdateFailed(m)),
{
    match updated {
        Ok(_) => None,
        Err(m) => Some(Notice::UpdateFailed(m.clone())),
    }
}

} // verus!

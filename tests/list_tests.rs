use ripasso_core::{ChangeEvent, Notice, PasswordEntry, PasswordList, SharedPasswordList};

fn entry(path: &str, name: &str) -> PasswordEntry {
    PasswordEntry::new(name.to_string(), path.to_string())
}

fn paths(v: &[PasswordEntry]) -> Vec<String> {
    v.iter().map(|e| e.path.clone()).collect()
}

fn names(v: &[PasswordEntry]) -> Vec<String> {
    v.iter().map(|e| e.name.clone()).collect()
}

#[test]
fn from_entries_keeps_last_entry_per_path() {
    let l = PasswordList::from_entries(&vec![
        entry("a", "a1"),
        entry("b", "b1"),
        entry("a", "a2"),
        entry("c", "c1"),
    ]);
    let s = l.snapshot();
    assert_eq!(paths(&s), vec!["b", "a", "c"]);
    assert_eq!(names(&s), vec!["b1", "a2", "c1"]);
    assert_eq!(l.len(), 3);
}

#[test]
fn resync_sequence_matches_last_event() {
    let mut l = PasswordList::new();
    let events = vec![
        ChangeEvent::Resynced(vec![entry("x", "x1"), entry("y", "y1")]),
        ChangeEvent::Error("bad file".to_string()),
        ChangeEvent::Resynced(vec![entry("y", "y2"), entry("z", "z1"), entry("y", "y3")]),
        ChangeEvent::Error("other".to_string()),
    ];
    let notices = l.apply_drained(&events, false);
    let s = l.snapshot();
    assert_eq!(paths(&s), vec!["z", "y"]);
    assert_eq!(names(&s), vec!["z1", "y3"]);
    assert_eq!(notices.len(), 2);
    assert!(matches!(&notices[0], Notice::DecodeError(m) if m == "bad file"));
    assert!(matches!(&notices[1], Notice::DecodeError(m) if m == "other"));
}

#[test]
fn drained_channel_closed_is_reported() {
    let mut l = PasswordList::from_entries(&vec![entry("a", "a")]);
    let notices = l.apply_drained(&vec![], true);
    assert_eq!(notices.len(), 1);
    assert!(matches!(notices[0], Notice::WatcherStopped));
    assert_eq!(paths(&l.snapshot()), vec!["a"]);
}

#[test]
fn decode_error_leaves_list() {
    let mut l = PasswordList::from_entries(&vec![entry("a", "a"), entry("b", "b")]);
    let n = l.apply(&ChangeEvent::Error("oops".to_string()));
    assert!(matches!(n, Some(Notice::DecodeError(ref m)) if m == "oops"));
    assert_eq!(paths(&l.snapshot()), vec!["a", "b"]);
}

#[test]
fn create_then_delete_round_trip() {
    let mut l = PasswordList::from_entries(&vec![entry("c", "c"), entry("d", "d")]);
    let before = l.len();
    let n = l.record_created(Ok(entry("a/b", "a/b")));
    assert!(n.is_none());
    let s = l.snapshot();
    assert_eq!(s.iter().filter(|e| e.path == "a/b").count(), 1);
    assert_eq!(l.len(), before + 1);
    let n = l.record_deleted(&"a/b".to_string(), &Ok(()));
    assert!(n.is_none());
    assert_eq!(l.len(), before);
    assert!(l.snapshot().iter().all(|e| e.path != "a/b"));
    assert_eq!(paths(&l.snapshot()), vec!["c", "d"]);
}

#[test]
fn create_of_existing_path_replaces_in_place() {
    let mut l = PasswordList::from_entries(&vec![entry("a", "old"), entry("b", "b")]);
    l.record_created(Ok(entry("a", "new")));
    assert_eq!(names(&l.snapshot()), vec!["new", "b"]);
}

#[test]
fn create_with_failed_reload_leaves_list() {
    let mut l = PasswordList::from_entries(&vec![entry("c", "c")]);
    let n = l.record_created(Err("cannot read back".to_string()));
    assert!(matches!(n, Some(Notice::CreatedNotLoaded(ref m)) if m == "cannot read back"));
    assert_eq!(paths(&l.snapshot()), vec!["c"]);
}

#[test]
fn failed_delete_leaves_entry_visible() {
    let mut l = PasswordList::from_entries(&vec![entry("a", "a"), entry("b", "b")]);
    let n = l.record_deleted(&"a".to_string(), &Err("denied".to_string()));
    assert!(matches!(n, Some(Notice::DeleteFailed(ref m)) if m == "denied"));
    assert_eq!(paths(&l.snapshot()), vec!["a", "b"]);
}

#[test]
fn delete_of_missing_path_changes_nothing() {
    let mut l = PasswordList::from_entries(&vec![entry("a", "a")]);
    assert!(!l.remove_entry(&"zz".to_string()));
    assert_eq!(l.len(), 1);
}

#[test]
fn failed_pull_still_reloads_from_disk() {
    let mut l = PasswordList::from_entries(&vec![entry("old", "old")]);
    let notices = l.finish_pull(
        &Err("network down".to_string()),
        &Ok(vec![entry("p", "p"), entry("q", "q")]),
    );
    assert_eq!(paths(&l.snapshot()), vec!["p", "q"]);
    assert_eq!(notices.len(), 1);
    assert!(matches!(&notices[0], Notice::PullFailed(m) if m == "network down"));
}

#[test]
fn failed_reload_after_pull_keeps_list() {
    let mut l = PasswordList::from_entries(&vec![entry("old", "old")]);
    let notices = l.finish_pull(&Ok(()), &Err("unreadable".to_string()));
    assert_eq!(paths(&l.snapshot()), vec!["old"]);
    assert_eq!(notices.len(), 1);
    assert!(matches!(&notices[0], Notice::ReloadFailed(m) if m == "unreadable"));
}

#[test]
fn position_of_finds_path() {
    let l = PasswordList::from_entries(&vec![entry("a", "a"), entry("b", "b")]);
    assert_eq!(l.position_of(&"b".to_string()), Some(1));
    assert_eq!(l.position_of(&"c".to_string()), None);
}

#[test]
fn shared_list_applies_and_snapshots() {
    let shared = SharedPasswordList::new(&vec![entry("a", "a"), entry("a", "a2")]);
    assert_eq!(names(&shared.snapshot()), vec!["a2"]);
    let n = shared.apply(&ChangeEvent::Resynced(vec![entry("x", "x"), entry("y", "y")]));
    assert!(n.is_none());
    assert_eq!(paths(&shared.snapshot()), vec!["x", "y"]);
    let n = shared.apply(&ChangeEvent::Error("e".to_string()));
    assert!(matches!(n, Some(Notice::DecodeError(_))));
    assert_eq!(paths(&shared.snapshot()), vec!["x", "y"]);
}

#[test]
fn shared_list_snapshot_is_before_or_after_event() {
    let a = vec![entry("a1", "a1"), entry("a2", "a2")];
    let b = vec![entry("b1", "b1"), entry("b2", "b2"), entry("b3", "b3")];
    let shared = SharedPasswordList::new(&a);
    let before = shared.snapshot();
    shared.apply(&ChangeEvent::Resynced(b));
    let after = shared.snapshot();
    assert_eq!(paths(&before), vec!["a1", "a2"]);
    assert_eq!(paths(&after), vec!["b1", "b2", "b3"]);
    // a snapshot is a copy: the earlier one is not changed by the event
    assert_eq!(before.len(), 2);
}

#[test]
fn shared_list_mutations() {
    let shared = SharedPasswordList::new(&vec![entry("a", "a")]);
    assert!(shared.record_created(Ok(entry("n", "n"))).is_none());
    assert_eq!(paths(&shared.snapshot()), vec!["a", "n"]);
    assert!(shared.record_deleted(&"a".to_string(), &Ok(())).is_none());
    assert_eq!(paths(&shared.snapshot()), vec!["n"]);
    let notices = shared.finish_pull(&Err("x".to_string()), &Ok(vec![entry("z", "z")]));
    assert_eq!(notices.len(), 1);
    assert_eq!(paths(&shared.snapshot()), vec!["z"]);
    let notices = shared.apply_drained(&vec![ChangeEvent::Resynced(vec![])], true);
    assert_eq!(notices.len(), 1);
    assert!(shared.snapshot().is_empty());
}

#[test]
fn shared_list_errors_only_leave_list() {
    let shared = SharedPasswordList::new(&vec![entry("a", "a"), entry("b", "b")]);
    let notices = shared.apply_drained(&vec![ChangeEvent::Error("x".to_string())], false);
    assert_eq!(notices.len(), 1);
    assert_eq!(paths(&shared.snapshot()), vec!["a", "b"]);
    let notices = shared.apply_drained(
        &vec![
            ChangeEvent::Resynced(vec![entry("p", "p1")]),
            ChangeEvent::Error("y".to_string()),
            ChangeEvent::Resynced(vec![entry("q", "q"), entry("q", "q2")]),
        ],
        false,
    );
    assert_eq!(notices.len(), 1);
    assert_eq!(names(&shared.snapshot()), vec!["q2"]);
}

use ripasso_core::{ClipboardGuard, EXPOSURE_SECS};

#[test]
fn copy_then_window_leaves_clipboard_empty() {
    for secret in ["hunter2", "", "pässwörd-密码-🔑"] {
        let mut g = ClipboardGuard::new();
        let due = g.copy(secret, 1000);
        assert_eq!(due, 1040);
        assert_eq!(g.is_empty(), secret.is_empty());
        assert_eq!(g.pending_wipes(), 1);
        assert!(!g.fire_due(1039));
        assert_eq!(g.is_empty(), secret.is_empty());
        assert!(g.fire_due(1000 + EXPOSURE_SECS));
        assert!(g.is_empty());
        assert_eq!(g.pending_wipes(), 0);
    }
}

#[test]
fn overlapping_copies_race() {
    let mut g = ClipboardGuard::new();
    assert!(g.is_empty());
    g.copy("S1", 100);
    g.copy("S2", 110);
    // the second secret is current; the first wipe is still pending
    assert!(!g.is_empty());
    assert_eq!(g.pending_wipes(), 2);
    // the first copy's wipe fires while the second secret is current
    assert!(g.fire_due(140));
    assert!(g.is_empty());
    assert_eq!(g.pending_wipes(), 1);
    assert!(g.fire_due(150));
    assert!(g.is_empty());
    assert_eq!(g.pending_wipes(), 0);
}

#[test]
fn copy_near_end_of_time_saturates() {
    let mut g = ClipboardGuard::new();
    assert_eq!(g.copy("s", u64::MAX - 1), u64::MAX);
    assert!(g.fire_due(u64::MAX));
    assert!(g.is_empty());
}

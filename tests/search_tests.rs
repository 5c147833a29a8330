use ripasso_core::{
    PasswordEntry, contains_chars, delete_last_word, delete_last_word_and_search, matches_folded,
    search, substr,
};

fn entry(name: &str) -> PasswordEntry {
    PasswordEntry::new(name.to_string(), name.to_string())
}

fn names(v: &[PasswordEntry]) -> Vec<String> {
    v.iter().map(|e| e.name.clone()).collect()
}

#[test]
fn empty_query_returns_snapshot_in_order() {
    let snap = vec![entry("zeta"), entry("alpha"), entry("mid/beta")];
    assert_eq!(names(&search(&snap, "")), vec!["zeta", "alpha", "mid/beta"]);
    assert!(search(&vec![], "").is_empty());
}

#[test]
fn query_matches_substring_in_order() {
    let snap = vec![
        entry("web/github"),
        entry("mail/gmail"),
        entry("web/gitlab"),
        entry("bank"),
    ];
    assert_eq!(names(&search(&snap, "git")), vec!["web/github", "web/gitlab"]);
    assert_eq!(names(&search(&snap, "web/")), vec!["web/github", "web/gitlab"]);
    assert!(search(&snap, "nothing").is_empty());
}

#[test]
fn query_ignores_case() {
    let snap = vec![entry("Work/VPN"), entry("home/wifi")];
    assert_eq!(names(&search(&snap, "vpn")), vec!["Work/VPN"]);
    assert_eq!(names(&search(&snap, "WIFI")), vec!["home/wifi"]);
    assert_eq!(names(&search(&snap, "ÄÖ")), Vec::<String>::new());
    let snap2 = vec![entry("bank/äöü")];
    assert_eq!(names(&search(&snap2, "ÄÖÜ")), vec!["bank/äöü"]);
}

#[test]
fn contains_chars_cases() {
    let hay: Vec<char> = "hello".chars().collect();
    assert!(contains_chars(&hay, &['e', 'l']));
    assert!(contains_chars(&hay, &[]));
    assert!(contains_chars(&hay, &['h', 'e', 'l', 'l', 'o']));
    assert!(!contains_chars(&hay, &['l', 'e']));
    assert!(!contains_chars(&['a'], &['a', 'a']));
}

#[test]
fn matches_folded_cases() {
    assert!(matches_folded("web/github", "hub"));
    assert!(!matches_folded("web/github", "HUB"));
    assert!(matches_folded("x", ""));
}

#[test]
fn substr_cases() {
    assert_eq!(substr(&"hello world".to_string(), 0, 5), "hello");
    assert_eq!(substr(&"hello".to_string(), 3, 10), "lo");
    assert_eq!(substr(&"hello".to_string(), 7, 2), "");
    assert_eq!(substr(&"Jöhn Döe Ünïcode Name".to_string(), 0, 15), "Jöhn Döe Ünïcod");
}

#[test]
fn delete_last_word_cases() {
    assert_eq!(delete_last_word("foo bar"), "foo ");
    assert_eq!(delete_last_word("foo bar  "), "foo ");
    assert_eq!(delete_last_word("foo"), "");
    assert_eq!(delete_last_word(""), "");
    assert_eq!(delete_last_word("a b c"), "a b ");
}

#[test]
fn delete_last_word_skips_trailing_white_space() {
    assert_eq!(delete_last_word("foo \t"), "");
    assert_eq!(delete_last_word("foo bar\t\n"), "foo ");
    assert_eq!(delete_last_word("foo\tbar"), "");
    assert_eq!(delete_last_word("a b\u{3000}\u{a0}"), "a ");
    assert_eq!(delete_last_word(" \t "), "");
}

#[test]
fn delete_last_word_then_search() {
    let snap = vec![entry("web/github"), entry("mail"), entry("web/gitlab")];
    let (q, found) = delete_last_word_and_search(&snap, "web hub");
    assert_eq!(q, "web ");
    assert_eq!(names(&found), Vec::<String>::new());
    let (q, found) = delete_last_word_and_search(&snap, "git\t");
    assert_eq!(q, "");
    assert_eq!(names(&found), vec!["web/github", "mail", "web/gitlab"]);
}

use ripasso_core::{catalog_candidates, push_catalog_files_for};

fn strings(v: &[&str]) -> Vec<String> {
    v.iter().map(|s| s.to_string()).collect()
}

#[test]
fn catalog_files_for_each_directory() {
    let mut out = strings(&["first"]);
    push_catalog_files_for(&mut out, "sv", &strings(&["./res", "/usr/share/ripasso"]));
    assert_eq!(out, strings(&["first", "./res/sv.mo", "/usr/share/ripasso/sv.mo"]));
}

#[test]
fn catalog_candidates_use_language_subtag() {
    let dirs = strings(&["/a", "/b"]);
    let r = catalog_candidates(&strings(&["en-US", "not a tag!", "fr"]), &dirs);
    assert_eq!(r, strings(&["/a/en.mo", "/b/en.mo", "/a/fr.mo", "/b/fr.mo"]));
    assert!(catalog_candidates(&vec![], &dirs).is_empty());
}

use ripasso_core::{
    CommitDate, CreateError, InputField, InputForm, Notice, PasswordEntry, Recipient,
    RecipientList, SignatureStatus, create_label, entry_file_components, get_value_from_input,
    push_outcome, read_new_entry, update_outcome, validate_new_entry,
};

fn form(fields: &[(&str, &str)]) -> InputForm {
    InputForm {
        fields: fields
            .iter()
            .map(|(n, c)| InputField { name: n.to_string(), content: c.to_string() })
            .collect(),
    }
}

#[test]
fn get_value_from_input_finds_first_field() {
    let f = form(&[("a", "1"), ("b", "2"), ("a", "3")]);
    assert_eq!(get_value_from_input(&f, "a").as_deref(), Some("1"));
    assert_eq!(get_value_from_input(&f, "b").as_deref(), Some("2"));
    assert_eq!(get_value_from_input(&f, "c"), None);
}

#[test]
fn validate_new_entry_cases() {
    assert_eq!(validate_new_entry("a/b", "x"), Ok(()));
    assert_eq!(validate_new_entry("", "x"), Err(CreateError::EmptyPath));
    assert_eq!(validate_new_entry("a/b", ""), Err(CreateError::EmptySecret));
    assert_eq!(validate_new_entry("", ""), Err(CreateError::EmptySecret));
}

#[test]
fn read_new_entry_cases() {
    let ok = form(&[("new_path_input", "a/b"), ("new_password_input", "x")]);
    let e = read_new_entry(&ok, "new_path_input", "new_password_input").unwrap();
    assert_eq!(e.path, "a/b");
    assert_eq!(e.secret, "x");
    let missing = form(&[("new_path_input", "a/b")]);
    assert!(matches!(
        read_new_entry(&missing, "new_path_input", "new_password_input"),
        Err(CreateError::MissingInput)
    ));
    let empty_path = form(&[("new_path_input", ""), ("new_password_input", "x")]);
    assert!(matches!(
        read_new_entry(&empty_path, "new_path_input", "new_password_input"),
        Err(CreateError::EmptyPath)
    ));
    let empty_secret = form(&[("new_path_input", "a"), ("new_password_input", "")]);
    assert!(matches!(
        read_new_entry(&empty_secret, "new_path_input", "new_password_input"),
        Err(CreateError::EmptySecret)
    ));
}

#[test]
fn entry_file_components_cases() {
    assert_eq!(entry_file_components("a/b"), vec!["a", "b.gpg"]);
    assert_eq!(entry_file_components("site"), vec!["site.gpg"]);
    assert_eq!(entry_file_components("x/y/z"), vec!["x", "y", "z.gpg"]);
    assert_eq!(entry_file_components(""), vec![".gpg"]);
}

#[test]
fn create_label_full_entry() {
    let mut e = PasswordEntry::new("web/github".to_string(), "web/github".to_string());
    e.committed_by = Some("Alexander Kjäll Extra".to_string());
    e.updated = Some(CommitDate { year: 2019, month: 3, day: 7 });
    e.signature_status = Some(SignatureStatus::GoodSignature);
    let l = create_label(&e, 50, "n/a");
    assert_eq!(l, "web/github     🔒 Alexander Kjäll 2019-03-07");
}

#[test]
fn create_label_missing_metadata() {
    let e = PasswordEntry::new("bank".to_string(), "bank".to_string());
    assert_eq!(create_label(&e, 40, "n/a"), "bank   n/a n/a");
    let mut b = PasswordEntry::new("b".to_string(), "b".to_string());
    b.signature_status = Some(SignatureStatus::BadSignature);
    assert_eq!(create_label(&b, 10, "-"), "b ⛔ - -");
    b.signature_status = Some(SignatureStatus::AlmostGoodSignature);
    b.updated = Some(CommitDate { year: 5, month: 12, day: 31 });
    assert_eq!(create_label(&b, 37, "-"), "b 🔓 - 0005-12-31");
}

#[test]
fn recipient_list_operations() {
    let r = |k: &str, n: &str| Recipient { key_id: k.to_string(), name: n.to_string() };
    let mut l = RecipientList::from_loaded(Ok(vec![r("AAAA", "Alice"), r("BBBB", "Bob")])).unwrap();
    assert_eq!(l.labels(), vec!["AAAA Alice", "BBBB Bob"]);
    assert!(l.record_added(r("CCCC", "Carol"), &Ok(())).is_none());
    assert_eq!(l.len(), 3);
    let n = l.record_added(r("DDDD", "Dan"), &Err("bad key".to_string()));
    assert!(matches!(n, Some(Notice::RecipientError(ref m)) if m == "bad key"));
    assert_eq!(l.len(), 3);
    assert_eq!(l.get(1).key_id, "BBBB");
    assert_eq!(l.get(2).name, "Carol");
    assert!(l.record_removed(0, &Ok(())).is_none());
    assert_eq!(l.labels(), vec!["BBBB Bob", "CCCC Carol"]);
    assert!(l.record_removed(0, &Err("no".to_string())).is_some());
    assert_eq!(l.len(), 2);
    assert!(matches!(
        RecipientList::from_loaded(Err("missing .gpg-id".to_string())),
        Err(Notice::RecipientError(_))
    ));
}

#[test]
fn push_and_update_outcomes() {
    assert!(push_outcome(&Ok(())).is_none());
    assert!(matches!(push_outcome(&Err("rejected".to_string())), Some(Notice::PushFailed(ref m)) if m == "rejected"));
    assert!(update_outcome(&Ok(())).is_none());
    assert!(matches!(update_outcome(&Err("gpg".to_string())), Some(Notice::UpdateFailed(_))));
}

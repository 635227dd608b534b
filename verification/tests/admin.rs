use article_store::admin::{
    admin_main, is_admin, new_article, AdminGate, AdminPage, ADMIN_COOKIE, ADMIN_COOKIE_VALUE,
};

#[test]
fn login_accepts_the_password_behind_the_digest() {
    let gate = AdminGate::new("5baa61e4c9b93f3f0682250b6cf8331b7ee68fd8".to_string());
    assert!(gate.login_admin("password"));
}

#[test]
fn login_refuses_any_other_password() {
    let gate = AdminGate::new("5baa61e4c9b93f3f0682250b6cf8331b7ee68fd8".to_string());
    assert!(!gate.login_admin("Password"));
    assert!(!gate.login_admin("password "));
    assert!(!gate.login_admin(""));
    assert!(!gate.login_admin("5baa61e4c9b93f3f0682250b6cf8331b7ee68fd8"));
}

#[test]
fn login_hashes_with_sha1_in_lower_case_hex() {
    let hello = AdminGate::new("2aae6c35c94fcfb415dbe95f408b9ce91ee846ed".to_string());
    assert!(hello.login_admin("hello world"));
    let empty = AdminGate::new("da39a3ee5e6b4b0d3255bfef95601890afd80709".to_string());
    assert!(empty.login_admin(""));
    let upper = AdminGate::new("2AAE6C35C94FCFB415DBE95F408B9CE91EE846ED".to_string());
    assert!(!upper.login_admin("hello world"));
}

#[test]
fn login_hashes_the_utf8_bytes_of_the_password() {
    let gate = AdminGate::new("0b19e0cb3bd49c4ba3bfd1a0b3f7e9e648e4f8c0".to_string());
    assert!(!gate.login_admin("h\u{e9}llo"));
    let abc = AdminGate::new("a9993e364706816aba3e25717850c26c9cd0d89d".to_string());
    assert!(abc.login_admin("abc"));
}

#[test]
fn gate_compares_digests_exactly() {
    let gate = AdminGate::new("abc".to_string());
    assert!(gate.accepts_digest("abc"));
    assert!(!gate.accepts_digest("ABC"));
    assert!(!gate.accepts_digest("abcd"));
    assert!(!gate.accepts_digest(""));
}

#[test]
fn admin_cookie_must_say_true() {
    assert!(is_admin(Some("true")));
    assert!(is_admin(Some(ADMIN_COOKIE_VALUE)));
    assert!(!is_admin(Some("false")));
    assert!(!is_admin(Some("True")));
    assert!(!is_admin(Some("true ")));
    assert!(!is_admin(Some("")));
    assert!(!is_admin(None));
}

#[test]
fn admin_cookie_has_its_name_and_value() {
    assert_eq!(ADMIN_COOKIE, "admin");
    assert_eq!(ADMIN_COOKIE_VALUE, "true");
}

#[test]
fn admin_pages_are_for_administrators_only() {
    assert_eq!(admin_main(true), AdminPage::Main);
    assert_eq!(admin_main(false), AdminPage::Login);
    assert_eq!(new_article(true), AdminPage::NewArticle);
    assert_eq!(new_article(false), AdminPage::Login);
}

use calligraphy::identity::{resolve, Disposition, COOKIE_NAME};

#[test]
fn test_resolve_recognizes_valid_cookie() {
    let cookie = "550e8400-e29b-41d4-a716-446655440000";
    let r1 = resolve(Some(cookie));
    let r2 = resolve(Some(cookie));

    assert_eq!(r1.disposition, Disposition::Recognized);
    assert_eq!(r2.disposition, Disposition::Recognized);
    assert_eq!(r1.user.id, r2.user.id);
    assert_eq!(r1.user.id, 0x550e8400_e29b_41d4_a716_446655440000);
    assert!(r1.set_cookie.is_none());
}

#[test]
fn test_resolve_issues_fresh_identities_without_cookie() {
    let r1 = resolve(None);
    let r2 = resolve(None);

    assert_eq!(r1.disposition, Disposition::Issued);
    assert_eq!(r2.disposition, Disposition::Issued);
    assert_ne!(r1.user.id, r2.user.id);

    let directive = r1.set_cookie.expect("an issued identity must set a cookie");
    assert_eq!(directive.name, COOKIE_NAME);
    assert!(directive.http_only);
    assert_eq!(directive.path, "/");
    assert_eq!(directive.max_age_days, 365);
    assert_eq!(directive.value.len(), 36);
}

#[test]
fn test_resolve_ignores_malformed_cookie() {
    let r = resolve(Some("not-a-token"));
    assert_eq!(r.disposition, Disposition::Issued);
    assert!(r.set_cookie.is_some());
}

#[test]
fn test_issued_cookie_round_trips() {
    let issued = resolve(None);
    let directive = issued.set_cookie.expect("an issued identity must set a cookie");

    // Feeding the issued cookie value back must recognize the same identity.
    let replayed = resolve(Some(directive.value.as_str()));
    assert_eq!(replayed.disposition, Disposition::Recognized);
    assert_eq!(replayed.user.id, issued.user.id);
    assert!(replayed.set_cookie.is_none());
}

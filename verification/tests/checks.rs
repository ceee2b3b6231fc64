use csv_lint::checks::Check;

#[test]
fn test_list_keys() {
    assert_eq!(Check::list_keys(), vec!["email"]);
}

#[test]
fn test_get_known_and_unknown() {
    let check = Check::get("email").expect("the registry has the email check");
    assert_eq!(check.key, "email");
    assert_eq!(check.columns, vec!["email".to_string(), "email_address".to_string()]);
    assert!(Check::get("phone").is_none());
    assert_eq!(Check::get_key("email"), Some("email"));
    assert!(Check::get_key("bogus").is_none());
}

#[test]
fn test_get_for_column() {
    assert_eq!(Check::get_for_column("email").len(), 1);
    assert_eq!(Check::get_for_column("email_address").len(), 1);
    assert!(Check::get_for_column("phone").is_empty());
    // alias matching is case-sensitive exact matching
    assert!(Check::get_for_column("Email").is_empty());
}

#[test]
fn test_email_check_accepts_matching_values() {
    let check = Check::get("email").unwrap();
    assert!(check.run("foo@example.com").is_ok());
    assert!(check.run("a.b-c_d@mail.example.org").is_ok());
    assert!(check.run("user@[192.168.1.1]").is_ok());
}

#[test]
fn test_email_check_empty_cell_passes() {
    let check = Check::get("email").unwrap();
    assert!(check.run("").is_ok());
}

#[test]
fn test_email_check_rejects_with_verbatim_message() {
    let check = Check::get("email").unwrap();
    let err = check.run("foo").unwrap_err();
    assert_eq!(err, "Invalid email address: foo");
    let err = check.run("no at sign").unwrap_err();
    assert!(err.contains("no at sign"));
}

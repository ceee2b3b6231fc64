use csv_lint::lint_error::LintError;
use csv_lint::linter_builder::LinterBuilder;

fn run(data: &str) -> Result<(), String> {
    let mut linter = LinterBuilder::default().build()?;
    linter.checks = vec!["email".to_string()];
    linter.run(data.as_bytes())
}

#[test]
fn test_lint() -> Result<(), String> {
    run("a,b,c\n1,2,3\n4,5,6")
}

#[test]
fn test_lint_empty() -> Result<(), String> {
    run("")
}

#[test]
fn test_lint_empty_line() -> Result<(), String> {
    run("\n")
}

#[test]
fn test_lint_valid_email() -> Result<(), String> {
    run("id,email,phone\n1,foo@example.com,1234567890")
}

#[test]
fn test_lint_invalid_email() -> Result<(), String> {
    let res = run("id,email,phone\n1,foo,1234567890");
    assert!(res.is_err());
    Ok(())
}

#[test]
fn test_lint_empty_email() -> Result<(), String> {
    run("id,email_address,phone\n1,,1234567890")
}

#[test]
fn test_header_only_passes() {
    let mut linter = LinterBuilder::default().build().unwrap();
    linter.checks = vec!["email".to_string()];
    assert!(linter.run(b"id,email,phone").is_ok());
    assert!(linter.errors.is_empty());
}

#[test]
fn test_invalid_email_error_details() {
    let mut builder = LinterBuilder::default();
    builder.filename = "data.csv".to_string();
    let mut linter = builder.build().unwrap();
    linter.checks = vec!["email".to_string()];
    let res = linter.run(b"id,email,phone\n1,foo,1234567890");
    assert_eq!(res, Err("data.csv is invalid".to_string()));
    assert_eq!(linter.errors.len(), 1);
    match &linter.errors[0] {
        LintError::Check { filename, line, record, message } => {
            assert_eq!(filename, "data.csv");
            assert_eq!(*line, 1);
            assert_eq!(record, "1,foo,1234567890");
            assert_eq!(message, "Invalid email address: foo");
            assert!(message.contains("foo"));
        }
        LintError::Csv { .. } => panic!("expected a check error, got a structural one"),
    }
}

#[test]
fn test_errors_accumulate_in_order() {
    let mut linter = LinterBuilder::default().build().unwrap();
    linter.checks = vec!["email".to_string()];
    let res = linter.run(b"email,email_address\nfoo,bar\nbaz@example.com,qux");
    assert!(res.is_err());
    assert_eq!(linter.errors.len(), 3);
    let details: Vec<(usize, String)> = linter
        .errors
        .iter()
        .map(|e| match e {
            LintError::Check { line, message, .. } => (*line, message.clone()),
            LintError::Csv { .. } => panic!("expected check errors only"),
        })
        .collect();
    assert_eq!(
        details,
        vec![
            (1, "Invalid email address: foo".to_string()),
            (1, "Invalid email address: bar".to_string()),
            (2, "Invalid email address: qux".to_string()),
        ]
    );
}

#[test]
fn test_structural_error_recorded_and_run_continues() {
    let mut linter = LinterBuilder::default().build().unwrap();
    linter.checks = vec!["email".to_string()];
    let res = linter.run(b"id,email\n1\n2,foo@example.com");
    assert!(res.is_err());
    assert_eq!(linter.errors.len(), 1);
    assert!(matches!(&linter.errors[0], LintError::Csv { .. }));
}

#[test]
fn test_no_checks_enabled_passes_anything() {
    let mut linter = LinterBuilder::default().build().unwrap();
    assert!(linter.run(b"email,b\nnot-an-email,2").is_ok());
    assert!(linter.errors.is_empty());
}

#[test]
fn test_delimiter_override() {
    let mut linter = LinterBuilder::default().build().unwrap();
    linter.checks = vec!["email".to_string()];
    linter.delimiter = Some(b';');
    let res = linter.run(b"id;email\n1;foo");
    assert!(res.is_err());
    assert_eq!(linter.errors.len(), 1);
    match &linter.errors[0] {
        LintError::Check { record, message, .. } => {
            // the rendered record always joins cells by a comma
            assert_eq!(record, "1,foo");
            assert_eq!(message, "Invalid email address: foo");
        }
        LintError::Csv { .. } => panic!("expected a check error"),
    }
}

#[test]
fn test_quoted_field_with_delimiter() -> Result<(), String> {
    run("email,note\nfoo@example.com,\"a,b\"")
}

#[test]
fn test_binding_deterministic_across_runs() {
    let messages = |data: &[u8]| -> Vec<String> {
        let mut linter = LinterBuilder::default().build().unwrap();
        linter.checks = vec!["email".to_string()];
        let _ = linter.run(data);
        linter
            .errors
            .iter()
            .map(|e| match e {
                LintError::Check { message, .. } => message.clone(),
                LintError::Csv { message } => message.clone(),
            })
            .collect()
    };
    let data = b"email,email,other\nfoo,bar,baz";
    assert_eq!(messages(data), messages(data));
}

#[test]
fn test_display_record() {
    let mut builder = LinterBuilder::default();
    builder.filename = "f.csv".to_string();
    let linter = builder.build().unwrap();
    let record = vec!["a".to_string(), "b".to_string()];
    assert_eq!(linter.display_record(12, &record), "f.csv[12]: a,b");
    assert_eq!(linter.display_record(305, &record), "f.csv[305]: a,b");
}

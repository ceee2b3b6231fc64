use csv_lint::cli::Cli;
use csv_lint::linter_builder::LinterBuilder;

// File reading stays with the caller of the library, so these tests hand
// the file contents in directly, keeping the path as the target identifier.

fn lint_file(cli: &Cli, filename: &str, contents: &str) -> Result<(), String> {
    let mut linter = LinterBuilder::from_cli(cli, filename.to_string()).build()?;
    linter.run(contents.as_bytes())
}

#[test]
fn test_good_csv() -> Result<(), String> {
    let cli = Cli::default();
    lint_file(&cli, "examples/data/good.csv", "id,email,phone\n1,foo@example.com,1234567890\n")
}

#[test]
fn test_bad_csv() -> Result<(), String> {
    let cli = Cli::default();
    // a ragged second row: the stream layer records a structural error
    let res = lint_file(&cli, "examples/data/bad.csv", "id,email,phone\n1,foo@bar@baz.com\n");
    assert!(res.is_err());
    Ok(())
}

#[test]
fn test_from_cli_check_all_enables_every_registry_key() {
    let mut cli = Cli::default();
    cli.check_all = true;
    let builder = LinterBuilder::from_cli(&cli, "t.csv".to_string());
    assert_eq!(builder.checks, vec!["email".to_string()]);
    assert_eq!(builder.filename, "t.csv");
}

#[test]
fn test_from_cli_explicit_checks() {
    let mut cli = Cli::default();
    cli.checks = vec!["email".to_string()];
    cli.show_all = true;
    let builder = LinterBuilder::from_cli(&cli, "t.csv".to_string());
    assert_eq!(builder.checks, vec!["email".to_string()]);
    assert!(builder.show_all);
}

#[test]
fn test_unknown_check_fails_configuration() {
    let mut builder = LinterBuilder::default();
    builder.checks = vec!["bogus".to_string()];
    let res = builder.build();
    match res {
        Ok(_) => panic!("an unknown check key must fail configuration"),
        Err(message) => assert_eq!(message, "Unknown check: bogus"),
    }
}

#[test]
fn test_show_all_builder() {
    let builder = LinterBuilder::default().show_all(true);
    assert!(builder.show_all);
    let linter = builder.build().unwrap();
    assert!(linter.show_all);
}

use aws_assume_role::cli::{Cli, RoleSource, SerialSource, UsageError};
use aws_assume_role::config::ConfigError;
use aws_assume_role::ini::IniSection;
use aws_assume_role::mfa::MfaError;
use aws_assume_role::profiles::ProfileTable;

fn empty_cli() -> Cli {
    Cli {
        aws_profile: None,
        profile_name: None,
        role_arn: None,
        config: None,
        duration: 3600,
        serial_number: None,
        totp_secret: None,
        totp_code: None,
        format: None,
        verbose: false,
        args: vec![],
    }
}

fn some(s: &str) -> Option<String> {
    Some(s.to_string())
}

#[test]
fn no_arguments() {
    let cli = empty_cli();
    let r = cli.validate_arguments();
    assert!(!r.is_ok());
    assert_eq!(r, Err(UsageError::MissingArguments));
    assert_eq!(UsageError::MissingArguments.message(), "Required arguments are missing");
}

#[test]
fn serial_number_without_code() {
    let mut cli = empty_cli();
    cli.serial_number = some("test_serial_number");
    assert_eq!(cli.validate_arguments(), Err(UsageError::MissingMfaCode));
}

#[test]
fn serial_number_with_code() {
    let mut cli = empty_cli();
    cli.serial_number = some("test_serial_number");
    cli.totp_code = some("123456");
    assert!(cli.validate_arguments().is_ok());
}

#[test]
fn serial_number_with_secret() {
    let mut cli = empty_cli();
    cli.serial_number = some("test_serial_number");
    cli.totp_secret = some("secret");
    assert!(cli.validate_arguments().is_ok());
}

#[test]
fn role_with_profile_name_conflicts() {
    let mut cli = empty_cli();
    cli.profile_name = some("test");
    cli.role_arn = some("arn:aws:iam...");
    assert_eq!(cli.validate_arguments(), Err(UsageError::RoleConflict));
}

#[test]
fn role_with_config_conflicts() {
    let mut cli = empty_cli();
    cli.config = some("tests/fixtures/config.toml");
    cli.role_arn = some("arn:aws:iam...");
    assert_eq!(cli.validate_arguments(), Err(UsageError::RoleConflict));
}

#[test]
fn code_with_secret_conflicts() {
    let mut cli = empty_cli();
    cli.role_arn = some("arn:aws:iam...");
    cli.totp_secret = some("secret");
    cli.totp_code = some("123456");
    assert_eq!(cli.validate_arguments(), Err(UsageError::CodeAndSecret));
}

#[test]
fn role_without_mfa_input_is_usage_error() {
    let mut cli = empty_cli();
    cli.role_arn = some("test-role");
    assert_eq!(cli.validate_arguments(), Err(UsageError::MissingMfa));
    cli.aws_profile = some("jump");
    cli.totp_code = some("123456");
    assert!(cli.validate_arguments().is_ok());
}

#[test]
fn every_usage_error_has_its_message() {
    assert_eq!(
        UsageError::MissingMfa.message(),
        "Require --serial-number or --aws-profile, and --totp-code or --totp-secret"
    );
    assert_eq!(
        UsageError::RoleConflict.message(),
        "--role-arn cannot be used with --profile-name or --config"
    );
}

#[test]
fn explicit_role_wins_over_table() {
    let mut cli = empty_cli();
    cli.role_arn = some("arn:aws:iam::123456789012:role/TestUser");
    let table = ProfileTable::from_pairs(vec![(
        "test".to_string(),
        "arn:aws:iam::987654321234:role/Other".to_string(),
    )]);
    match cli.role_source() {
        RoleSource::Explicit(a) => assert_eq!(a, "arn:aws:iam::123456789012:role/TestUser"),
        _ => panic!("explicit role expected"),
    }
    assert_eq!(
        cli.role_from_table(&table, Some("picked".to_string())).ok(),
        some("arn:aws:iam::123456789012:role/TestUser")
    );
}

#[test]
fn profile_name_is_looked_up() {
    let mut cli = empty_cli();
    cli.profile_name = some("test");
    let table = ProfileTable::from_pairs(vec![(
        "test".to_string(),
        "arn:aws:iam::987654321234:role/TestUser".to_string(),
    )]);
    assert_eq!(
        cli.role_from_table(&table, None).ok(),
        some("arn:aws:iam::987654321234:role/TestUser")
    );
}

#[test]
fn missing_profile_is_named() {
    let mut cli = empty_cli();
    cli.profile_name = some("no_such_profile");
    let table = ProfileTable::from_pairs(vec![(
        "test".to_string(),
        "arn:aws:iam::987654321234:role/TestUser".to_string(),
    )]);
    match cli.role_from_table(&table, None) {
        Err(ConfigError::ProfileNotFound(n)) => assert_eq!(n, "no_such_profile"),
        _ => panic!("ProfileNotFound expected"),
    }
}

#[test]
fn picker_result_is_used_or_cancelled() {
    let cli = empty_cli();
    let table = ProfileTable::new();
    assert_eq!(cli.role_from_table(&table, some("arn:picked")).ok(), some("arn:picked"));
    assert!(matches!(
        cli.role_from_table(&table, None),
        Err(ConfigError::SelectionCancelled)
    ));
    assert!(matches!(
        cli.role_from_table(&table, some("")),
        Err(ConfigError::SelectionCancelled)
    ));
}

#[test]
fn serial_sources_in_order() {
    let mut cli = empty_cli();
    assert!(matches!(cli.serial_source(), SerialSource::Missing));
    cli.aws_profile = some("jump");
    assert!(matches!(cli.serial_source(), SerialSource::DefaultFile { profile } if profile == "jump"));
    cli.config = some("tests/fixtures/config");
    assert!(matches!(
        cli.serial_source(),
        SerialSource::File { path, profile } if path == "tests/fixtures/config" && profile == "jump"
    ));
    cli.config = some("tests/fixtures/config.toml");
    assert!(matches!(cli.serial_source(), SerialSource::DefaultFile { .. }));
    cli.serial_number = some("arn:serial");
    assert!(matches!(cli.serial_source(), SerialSource::Explicit(s) if s == "arn:serial"));
}

#[test]
fn serial_number_from_sections() {
    let mut cli = empty_cli();
    cli.aws_profile = some("jump");
    let sections = vec![IniSection {
        name: some("profile jump"),
        properties: vec![(
            "serial_number".to_string(),
            "arn:aws:iam::123456789012:mfa/serialnumber".to_string(),
        )],
    }];
    let source = cli.serial_source();
    assert_eq!(
        cli.serial_number_from(&source, &sections).ok(),
        some("arn:aws:iam::123456789012:mfa/serialnumber")
    );
    assert!(matches!(
        cli.serial_number_from(&SerialSource::Missing, &sections),
        Err(ConfigError::NoSerialSource)
    ));
}

#[test]
fn code_given_is_used_verbatim() {
    let mut cli = empty_cli();
    cli.totp_code = some("123456");
    assert_eq!(cli.totp_code(59).ok(), some("123456"));
}

#[test]
fn no_code_and_no_secret_fails() {
    let cli = empty_cli();
    assert_eq!(cli.totp_code(59), Err(MfaError::Missing));
}

use aws_assume_role::broker::{BrokerStep, ExchangeOutcome, RetryPolicy, TemporaryCredentials};
use aws_assume_role::cli::{Cli, Format};
use aws_assume_role::duration::parse_duration;
use aws_assume_role::profiles::ProfileTable;
use aws_assume_role::sink::{credential_env, render};

fn scenario_cli(format: Format) -> Cli {
    Cli {
        aws_profile: None,
        profile_name: None,
        role_arn: Some("arn:aws:iam::123456789012:role/TestUser".to_string()),
        config: None,
        duration: parse_duration("12h").unwrap(),
        serial_number: Some("fake".to_string()),
        totp_secret: None,
        totp_code: Some("123456".to_string()),
        format: Some(format),
        verbose: false,
        args: vec![],
    }
}

fn issued() -> TemporaryCredentials {
    TemporaryCredentials {
        access_key_id: "SECRET-REDACTED".to_string(),
        secret_access_key: "wJalrXUtnFEMIK7MDENGbPxRfiCYEXAMPLEKEY".to_string(),
        session_token: "FwoGZXIvYXdzEXAMPLE".to_string(),
        expiration_millis: 1715803200123,
    }
}

fn run(cli: &Cli) -> String {
    assert!(cli.validate_arguments().is_ok());
    let role = cli.role_from_table(&ProfileTable::new(), None).unwrap();
    assert_eq!(role, "arn:aws:iam::123456789012:role/TestUser");
    assert_eq!(cli.duration, 43200);
    assert_eq!(cli.totp_code(0).unwrap(), "123456");
    let mut policy = RetryPolicy::new();
    let credentials = match policy.on_outcome(ExchangeOutcome::Issued(issued())) {
        BrokerStep::Done(c) => c,
        _ => panic!("credentials expected"),
    };
    let env = credential_env(&credentials).unwrap();
    render(cli.format.unwrap(), &env).unwrap()
}

#[test]
fn scenario_json_output() {
    let out = run(&scenario_cli(Format::Json));
    let v: serde_json::Value = serde_json::from_str(&out).unwrap();
    let o = v.as_object().unwrap();
    assert_eq!(o.len(), 4);
    assert_eq!(o["AWS_ACCESS_KEY_ID"], "SECRET-REDACTED");
    let exp = o["AWS_EXPIRATION"].as_str().unwrap();
    assert!(exp.starts_with("20"));
    assert_eq!(exp, "2024-05-15T20:00:00.123+00:00");
    assert!(!o["AWS_SESSION_TOKEN"].as_str().unwrap().is_empty());
}

#[test]
fn scenario_bash_output() {
    let out = run(&scenario_cli(Format::Bash));
    for name in ["AWS_ACCESS_KEY_ID", "AWS_SECRET_ACCESS_KEY", "AWS_SESSION_TOKEN", "AWS_EXPIRATION"] {
        assert!(out.lines().any(|l| l.starts_with(&format!("export {}=\"", name)) && l.ends_with('"')));
    }
    assert!(out.lines().any(|l| l == "export AWS_SESSION_TOKEN=\"FwoGZXIvYXdzEXAMPLE\""));
}

#[test]
fn scenario_no_mfa_inputs_is_usage_error() {
    let mut cli = scenario_cli(Format::Json);
    cli.serial_number = None;
    cli.totp_code = None;
    cli.format = None;
    assert!(cli.validate_arguments().is_err());
}

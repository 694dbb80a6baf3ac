use aws_assume_role::broker::{
    answer_outcome, classify_failure, CredentialsBlock, session_name, BrokerStep, CallFailure, ExchangeError, ExchangeOutcome,
    RetryPolicy, TemporaryCredentials,
};

fn creds() -> TemporaryCredentials {
    TemporaryCredentials {
        access_key_id: "test_access_key_id".to_string(),
        secret_access_key: "test_secret_access_key".to_string(),
        session_token: "test_session_token".to_string(),
        expiration_millis: 1715803200000,
    }
}

/// Runs the policy over scripted outcomes; returns the final step and the
/// number of calls made.
fn drive(mut outcomes: Vec<ExchangeOutcome>) -> (BrokerStep, usize) {
    outcomes.reverse();
    let mut policy = RetryPolicy::new();
    let mut calls = 0;
    loop {
        let outcome = outcomes.pop().expect("script ran out");
        calls += 1;
        match policy.on_outcome(outcome) {
            BrokerStep::Retry { delay_ms } => {
                // 1 s, 2 s, 4 s, each with less than 1 s of jitter
                let floor = 1000u64 << (calls - 1);
                assert!(floor <= delay_ms && delay_ms < floor + 1000, "delay {}", delay_ms);
            }
            step => return (step, calls),
        }
    }
}

#[test]
fn two_transient_then_success() {
    let (step, calls) = drive(vec![
        ExchangeOutcome::Transient("timeout".to_string()),
        ExchangeOutcome::Transient("timeout".to_string()),
        ExchangeOutcome::Issued(creds()),
    ]);
    assert_eq!(calls, 3);
    match step {
        BrokerStep::Done(c) => {
            assert_eq!(c.access_key_id, "test_access_key_id");
            assert_eq!(c.secret_access_key, "test_secret_access_key");
            assert_eq!(c.session_token, "test_session_token");
        }
        _ => panic!("success expected"),
    }
}

#[test]
fn rejection_is_not_retried() {
    let (step, calls) = drive(vec![
        ExchangeOutcome::Rejected("invalid MFA code".to_string()),
        ExchangeOutcome::Issued(creds()),
    ]);
    assert_eq!(calls, 1);
    match step {
        BrokerStep::Failed(ExchangeError::Rejected(m)) => assert_eq!(m, "invalid MFA code"),
        _ => panic!("rejection expected"),
    }
}

#[test]
fn retries_are_bounded() {
    let outcomes = (0..5).map(|i| ExchangeOutcome::Transient(format!("t{}", i))).collect();
    let (step, calls) = drive(outcomes);
    assert_eq!(calls, 4);
    match step {
        BrokerStep::Failed(ExchangeError::RetriesExhausted(m)) => assert_eq!(m, "t3"),
        _ => panic!("exhaustion expected"),
    }
}

#[test]
fn success_without_credentials_fails() {
    let (step, calls) = drive(vec![ExchangeOutcome::NoCredentials]);
    assert_eq!(calls, 1);
    assert!(matches!(step, BrokerStep::Failed(ExchangeError::NoCredentials)));
    assert_eq!(
        ExchangeError::NoCredentials.message(),
        "Unable to fetch temporary credentials"
    );
}

#[test]
fn failures_are_classified() {
    assert!(matches!(classify_failure(CallFailure::Timeout), ExchangeOutcome::Transient(_)));
    assert!(matches!(
        classify_failure(CallFailure::Dispatch("connection refused".to_string())),
        ExchangeOutcome::Transient(_)
    ));
    assert!(matches!(
        classify_failure(CallFailure::Service {
            code: Some("Throttling".to_string()),
            message: "Rate exceeded".to_string()
        }),
        ExchangeOutcome::Transient(m) if m == "Rate exceeded"
    ));
    assert!(matches!(
        classify_failure(CallFailure::Service {
            code: Some("AccessDenied".to_string()),
            message: "MultiFactorAuthentication failed".to_string()
        }),
        ExchangeOutcome::Rejected(m) if m == "MultiFactorAuthentication failed"
    ));
    assert!(matches!(
        classify_failure(CallFailure::Service { code: None, message: "x".to_string() }),
        ExchangeOutcome::Rejected(_)
    ));
}

#[test]
fn session_name_carries_time() {
    assert_eq!(session_name(1715803200123), "1715803200123-session");
    assert_eq!(session_name(0), "0-session");
    assert_eq!(session_name(-42), "-42-session");
    assert_eq!(session_name(i64::MIN), format!("{}-session", i64::MIN));
}

#[test]
fn answers_become_outcomes() {
    let block = |exp: Option<i64>| CredentialsBlock {
        access_key_id: "id".to_string(),
        secret_access_key: "secret".to_string(),
        session_token: "token".to_string(),
        expiration_millis: exp,
    };
    match answer_outcome(Some(block(Some(1715803200000)))) {
        ExchangeOutcome::Issued(c) => {
            assert_eq!(c.access_key_id, "id");
            assert_eq!(c.expiration_millis, 1715803200000);
        }
        _ => panic!("credentials expected"),
    }
    assert!(matches!(answer_outcome(Some(block(None))), ExchangeOutcome::NoCredentials));
    assert!(matches!(answer_outcome(None), ExchangeOutcome::NoCredentials));
}

use session_engine::connector::{DEFAULT_MAX_RETRIES, DEFAULT_RETRY_DELAY_SECS};
use session_engine::{ConnectDecision, ConnectError, Connector};

const TARGET: &str = "ws://127.0.0.1:8080";

#[test]
fn valid_url_gives_default_connector() {
    let c = Connector::new(TARGET).unwrap();
    assert_eq!(c.url, TARGET);
    assert_eq!(c.max_retries, 5);
    assert_eq!(c.max_retries, DEFAULT_MAX_RETRIES);
    assert_eq!(c.retry_delay_secs, 2);
    assert_eq!(c.retry_delay_secs, DEFAULT_RETRY_DELAY_SECS);
    assert_eq!(c.failures, 0);
}

#[test]
fn invalid_url_is_rejected() {
    let r = Connector::new("not a url");
    assert_eq!(r.err(), Some(ConnectError::InvalidUrl));
    let r = Connector::with_limits("127.0.0.1:8080/no-scheme", 3, 1);
    assert!(matches!(r, Err(ConnectError::InvalidUrl)));
}

#[test]
fn failure_within_bound_decides_retry_with_fixed_delay() {
    let mut c = Connector::new(TARGET).unwrap();
    let d = c.on_failure(String::from("connection refused"));
    assert_eq!(
        d,
        ConnectDecision::Retry {
            failures: 1,
            delay_secs: 2,
            error: String::from("connection refused"),
        }
    );
    assert_eq!(c.failures, 1);
}

#[test]
fn all_attempts_fail_exhausts_after_max_retries_plus_one() {
    // maxRetries = 3: exactly 4 attempts occur, then ConnectionExhausted{attempts: 4}.
    let mut c = Connector::with_limits(TARGET, 3, 2).unwrap();
    let outcomes = vec![false, false, false, false];
    let d = c.run_attempts(&outcomes);
    match &d {
        ConnectDecision::Exhausted { attempts, .. } => assert_eq!(*attempts, 4),
        other => panic!("expected exhaustion, got {:?}", other),
    }
    assert_eq!(d.recovery_retries(), None);
    let err = d.into_exhausted_error();
    assert!(matches!(
        err,
        Some(ConnectError::Exhausted { attempts: 4, .. })
    ));
}

#[test]
fn zero_retries_means_a_single_attempt() {
    let mut c = Connector::with_limits(TARGET, 0, 1).unwrap();
    let d = c.run_attempts(&vec![false]);
    assert!(matches!(
        d,
        ConnectDecision::Exhausted { attempts: 1, .. }
    ));
}

#[test]
fn first_attempt_success_makes_one_attempt_and_no_recovery_event() {
    let mut c = Connector::new(TARGET).unwrap();
    let d = c.run_attempts(&vec![true]);
    assert_eq!(d, ConnectDecision::Connected { attempts: 1 });
    assert_eq!(d.recovery_retries(), None);
}

#[test]
fn kth_attempt_success_makes_k_attempts_and_recovery_fires() {
    // k = 4 <= maxRetries = 5: exactly 4 attempts, recovered event fires with 3 retries.
    let mut c = Connector::new(TARGET).unwrap();
    let d = c.run_attempts(&vec![false, false, false, true]);
    assert_eq!(d, ConnectDecision::Connected { attempts: 4 });
    assert_eq!(d.recovery_retries(), Some(3));
    assert_eq!(d.into_exhausted_error(), None);
}

#[test]
fn unreachable_twice_then_reachable_connects_on_third_attempt() {
    // Target unreachable on the first two attempts, reachable on the third:
    // a usable handle after exactly 3 attempts, one recovery event with count 2.
    let mut c = Connector::new(TARGET).unwrap();
    let d = c.run_attempts(&vec![false, false, true]);
    assert_eq!(d, ConnectDecision::Connected { attempts: 3 });
    assert_eq!(d.recovery_retries(), Some(2));
}

#[test]
fn per_attempt_decisions_match_the_trace_runner() {
    let mut c = Connector::with_limits(TARGET, 1, 7).unwrap();
    let d1 = c.on_failure(String::from("timed out"));
    assert!(matches!(
        d1,
        ConnectDecision::Retry {
            failures: 1,
            delay_secs: 7,
            ..
        }
    ));
    let d2 = c.on_failure(String::from("refused"));
    assert_eq!(
        d2,
        ConnectDecision::Exhausted {
            attempts: 2,
            last_error: String::from("refused"),
        }
    );
}

#[test]
fn success_after_failures_counts_prior_failures() {
    let mut c = Connector::new(TARGET).unwrap();
    c.on_failure(String::from("refused"));
    c.on_failure(String::from("refused"));
    let d = c.on_success();
    assert_eq!(d, ConnectDecision::Connected { attempts: 3 });
    assert_eq!(d.recovery_retries(), Some(2));
}

use booru_ingest::auth::{build_auth_header, token_header, AuthConfig};
use booru_ingest::retry::{RetryPolicy, TransportNext};

#[test]
fn auth_header_is_the_encoded_credentials() {
    assert_eq!(build_auth_header("user", "token"), "Token dXNlcjp0b2tlbg==");
    assert_eq!(build_auth_header("us\u{e9}r", "t0k"), "Token dXPDqXI6dDBr");
    assert_eq!(build_auth_header("", ""), "Token Og==");
    assert_eq!(token_header("abc"), "Token abc");
}

#[test]
fn auth_config_holds_the_interface_address() {
    let auth = AuthConfig::new("https://booru.example", "user", "token");
    assert_eq!(auth.api_url, "https://booru.example/api");
    assert_eq!(auth.auth_header, "Token dXNlcjp0b2tlbg==");
}

#[test]
fn a_failing_request_is_attempted_as_often_as_the_policy_says() {
    let policy = RetryPolicy { backoff_ms: 250, max_attempts: 3 };
    let mut attempts: u8 = 0;
    let mut waits = Vec::new();
    let mut next = policy.begin();
    while let TransportNext::Attempt { wait_ms } = next {
        waits.push(wait_ms);
        attempts += 1;
        next = policy.after_attempt(attempts, false);
    }
    assert_eq!(attempts, 3);
    assert_eq!(waits, vec![0, 250, 250]);
    assert_eq!(next, TransportNext::GiveUp);
}

#[test]
fn a_success_ends_the_attempts() {
    let policy = RetryPolicy { backoff_ms: 250, max_attempts: 3 };
    assert_eq!(policy.begin(), TransportNext::Attempt { wait_ms: 0 });
    assert_eq!(policy.after_attempt(1, false), TransportNext::Attempt { wait_ms: 250 });
    assert_eq!(policy.after_attempt(2, true), TransportNext::Done);
    assert_eq!(policy.after_attempt(3, false), TransportNext::GiveUp);
}

#[test]
fn a_policy_without_attempts_gives_up_at_once() {
    let policy = RetryPolicy { backoff_ms: 1, max_attempts: 0 };
    assert_eq!(policy.begin(), TransportNext::GiveUp);
}

use byetype::retry::{
    backoff_ms, is_non_retryable_client_error, next_retry_action, parse_u16, AttemptOutcome, RetryAction,
};

fn chars(s: &str) -> Vec<char> {
    s.chars().collect()
}

#[test]
fn parses_numbers_as_str_parse_does() {
    assert_eq!(parse_u16(&chars("404")), Some(404));
    assert_eq!(parse_u16(&chars("+7")), Some(7));
    assert_eq!(parse_u16(&chars("65535")), Some(65535));
    assert_eq!(parse_u16(&chars("65536")), None);
    assert_eq!(parse_u16(&chars("")), None);
    assert_eq!(parse_u16(&chars("+")), None);
    assert_eq!(parse_u16(&chars("4O4")), None);
    for s in ["0", "12", "+500", "99999", "-1", " 1"] {
        assert_eq!(parse_u16(&chars(s)), s.parse::<u16>().ok(), "{}", s);
    }
}

#[test]
fn client_errors_other_than_timeout_and_rate_limit_are_final() {
    assert!(is_non_retryable_client_error("Gemini API error (400): bad"));
    assert!(!is_non_retryable_client_error("Gemini API error (400 Bad Request): bad"));
    assert!(is_non_retryable_client_error("DeepSeek API error ( 401 ): no"));
    assert!(!is_non_retryable_client_error("Gemini API error (408): slow"));
    assert!(!is_non_retryable_client_error("Gemini API error (429): busy"));
    assert!(!is_non_retryable_client_error("Gemini API error (500): down"));
    assert!(!is_non_retryable_client_error("network unreachable"));
    assert!(!is_non_retryable_client_error("error (4xx)"));
}

#[test]
fn backoff_doubles_from_half_a_second() {
    assert_eq!(backoff_ms(0), 500);
    assert_eq!(backoff_ms(1), 1000);
    assert_eq!(backoff_ms(3), 4000);
    assert_eq!(backoff_ms(62), u64::MAX);
    assert_eq!(backoff_ms(100), u64::MAX);
}

#[test]
fn success_returns_the_result() {
    assert_eq!(next_retry_action(0, 3, &AttemptOutcome::Succeeded), RetryAction::ReturnResult);
}

#[test]
fn failures_are_retried_until_the_last_attempt() {
    let e = AttemptOutcome::Failed("Gemini API error (503): busy".to_string());

    assert_eq!(
        next_retry_action(0, 3, &e),
        RetryAction::Retry { next_attempt: 1, backoff_ms: 500 }
    );
    assert_eq!(
        next_retry_action(3, 3, &e),
        RetryAction::ReturnError("Gemini API error (503): busy".to_string())
    );
}

#[test]
fn client_error_is_not_retried() {
    let e = AttemptOutcome::Failed("Gemini API error (403): denied".to_string());

    assert_eq!(
        next_retry_action(0, 3, &e),
        RetryAction::ReturnError("Gemini API error (403): denied".to_string())
    );
}

#[test]
fn last_timeout_reports_request_timed_out() {
    assert_eq!(
        next_retry_action(2, 2, &AttemptOutcome::TimedOut),
        RetryAction::ReturnError("Request timed out".to_string())
    );
    assert_eq!(
        next_retry_action(1, 2, &AttemptOutcome::TimedOut),
        RetryAction::Retry { next_attempt: 2, backoff_ms: 1000 }
    );
}

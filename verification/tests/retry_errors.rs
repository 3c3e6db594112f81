use flowgrid::error::ProviderKind;
use flowgrid::error::{clu, oai};
use flowgrid::retry::{
    backoff, body_snippet, parse_retry_after, retry_status, sleep_before_retry, AttemptOutcome,
    RetryDecision, RetryState,
};

fn s(x: &str) -> String {
    x.to_string()
}

#[test]
fn retryable_statuses() {
    for st in [408u16, 409, 429, 500, 503, 599] {
        assert!(retry_status(ProviderKind::OpenAi, st));
    }
    for st in [200u16, 400, 401, 404, 422] {
        assert!(!retry_status(ProviderKind::OpenAi, st));
    }
    assert!(retry_status(ProviderKind::Anthropic, 529));
}

#[test]
fn backoff_doubles_up_to_two_seconds() {
    assert_eq!(backoff(0), 50);
    assert_eq!(backoff(1), 50);
    assert_eq!(backoff(2), 100);
    assert_eq!(backoff(3), 200);
    assert_eq!(backoff(6), 1600);
    assert_eq!(backoff(7), 2000);
    assert_eq!(backoff(u32::MAX), 2000);
}

#[test]
fn retry_after_values() {
    assert_eq!(parse_retry_after(" 3 ", 0), Some(3_000_000_000));
    assert_eq!(parse_retry_after("", 0), None);
    assert_eq!(parse_retry_after("soon", 0), None);
    let date = "Sun, 06 Nov 1994 08:49:37 GMT";
    let at: i128 = 784_111_777 * 1_000_000_000;
    assert_eq!(parse_retry_after(date, at - 5_000_000_000), Some(5_000_000_000));
    assert_eq!(parse_retry_after(date, at + 1), Some(0));
    assert_eq!(parse_retry_after(date, -1_000_000_000), Some(784_111_778 * 1_000_000_000));
    assert_eq!(parse_retry_after(date, i128::MIN), Some(784_111_777 * 1_000_000_000 + (1u128 << 127)));
    assert_eq!(parse_retry_after("7", -5), Some(7_000_000_000));
}

#[test]
fn sleep_is_capped() {
    assert_eq!(sleep_before_retry(Some(600_000_000_000), 1, 400_000_000), 400_000_000);
    assert_eq!(sleep_before_retry(None, 2, 2_000_000_000), 100_000_000);
    assert_eq!(sleep_before_retry(Some(5), 9, 2_000_000_000), 5);
}

#[test]
fn retry_state_decisions() {
    let mut st = RetryState::new(2, 400_000_000, ProviderKind::OpenAi);
    let busy = AttemptOutcome::Response { status: 429, custom_retry: None, retry_after: Some(600_000_000_000) };
    assert_eq!(st.decide(busy), RetryDecision::Retry(400_000_000));
    let down = AttemptOutcome::Failure { transient: true };
    assert_eq!(st.decide(down), RetryDecision::Retry(100_000_000));
    let busy = AttemptOutcome::Response { status: 429, custom_retry: None, retry_after: None };
    assert_eq!(st.decide(busy), RetryDecision::Stop);
    let mut st = RetryState::new(3, 2_000_000_000, ProviderKind::Anthropic);
    let ok = AttemptOutcome::Response { status: 200, custom_retry: Some(true), retry_after: None };
    assert_eq!(st.decide(ok), RetryDecision::Retry(50_000_000));
    let bad = AttemptOutcome::Response { status: 500, custom_retry: Some(false), retry_after: None };
    assert_eq!(st.decide(bad), RetryDecision::Stop);
    assert_eq!(st.decide(AttemptOutcome::Failure { transient: false }), RetryDecision::Stop);
}

#[test]
fn retries_never_exceed_max_retries() {
    for max in [0u32, 1, 2, 5] {
        let mut st = RetryState::new(max, 2_000_000_000, ProviderKind::OpenAi);
        let mut retries = 0u32;
        for _ in 0..20 {
            match st.decide(AttemptOutcome::Failure { transient: true }) {
                RetryDecision::Retry(w) => {
                    assert!(w <= 2_000_000_000);
                    retries += 1;
                }
                RetryDecision::Stop => break,
            }
        }
        assert_eq!(retries, max);
    }
}

#[test]
fn snippets() {
    assert_eq!(body_snippet(""), None);
    assert_eq!(body_snippet("abc").as_deref(), Some("abc"));
    let long: String = "é".repeat(600);
    assert_eq!(body_snippet(&long).unwrap().chars().count(), 512);
}

#[test]
fn openai_error_kinds_and_fields() {
    let headers = vec![(s("x-request-id"), b"req_9".to_vec()), (s("retry-after"), b"1".to_vec())];
    let e = oai::ApiError::from_response(429, "{\"error\":{}}", headers, None);
    assert_eq!(e.kind(), oai::ApiErrorKind::RateLimit);
    assert_eq!(e.request_id.as_deref(), Some("req_9"));
    assert_eq!(e.retry_after, Some(1_000_000_000));
    assert_eq!(e.raw_body.as_deref(), Some("{\"error\":{}}"));
    assert_eq!(e.body_snippet.as_deref(), Some("{\"error\":{}}"));
    assert_eq!(e.provider, ProviderKind::OpenAi);
    let kinds = [
        (400, oai::ApiErrorKind::BadRequest),
        (401, oai::ApiErrorKind::Authentication),
        (403, oai::ApiErrorKind::PermissionDenied),
        (404, oai::ApiErrorKind::NotFound),
        (422, oai::ApiErrorKind::UnprocessableEntity),
        (500, oai::ApiErrorKind::InternalServerError),
        (529, oai::ApiErrorKind::InternalServerError),
        (418, oai::ApiErrorKind::Other),
    ];
    for (st, k) in kinds {
        assert_eq!(oai::ApiError::from_response(st, "", vec![], None).kind(), k);
    }
    assert_eq!(oai::ApiError::from_response(500, "", vec![], None).body_snippet, None);
}

#[test]
fn anthropic_error_kinds_and_request_id() {
    let e = clu::ApiError::from_response(529, "x", vec![(s("x-request-id"), b"b".to_vec()), (s("request-id"), b"a".to_vec())], None);
    assert_eq!(e.kind(), clu::ApiErrorKind::Overloaded);
    assert_eq!(e.request_id.as_deref(), Some("a"));
    assert_eq!(e.provider, ProviderKind::Anthropic);
    let e = clu::ApiError::from_response(503, "x", vec![(s("x-request-id"), b"b".to_vec())], None);
    assert_eq!(e.kind(), clu::ApiErrorKind::InternalServerError);
    assert_eq!(e.request_id.as_deref(), Some("b"));
    let e = clu::ApiError::from_response(400, "x", vec![(s("request-id"), vec![1]), (s("x-request-id"), b"b".to_vec())], None);
    assert_eq!(e.request_id, None);
    assert_eq!(e.kind(), clu::ApiErrorKind::BadRequest);
    assert_eq!(clu::ApiError::from_response(422, "", vec![], None).kind(), clu::ApiErrorKind::Other);
}

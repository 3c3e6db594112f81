use flowgrid::config::{AnthropicBuilder, AzureClientBuilder, ClientBuilder};
use flowgrid::error::ProviderKind;
use flowgrid::transport::{
    anthropic_default_headers, header_value_valid, is_success, openai_default_headers,
    response_meta, user_agent,
};
use flowgrid::urls::{normalize_base_url, request_url, with_query};

fn s(x: &str) -> String {
    x.to_string()
}

fn pairs(v: &[(&str, &str)]) -> Vec<(String, String)> {
    v.iter().map(|(a, b)| (s(a), s(b))).collect()
}

#[test]
fn header_values() {
    assert!(header_value_valid("Bearer abc"));
    assert!(header_value_valid("tab\tok"));
    assert!(header_value_valid("héllo"));
    assert!(!header_value_valid("new\nline"));
    assert!(!header_value_valid("del\u{7f}"));
}

#[test]
fn user_agents() {
    assert_eq!(user_agent(ProviderKind::OpenAi, &None), "flowgrid/0.1.0 openai rust-reqwest");
    assert_eq!(
        user_agent(ProviderKind::Anthropic, &Some(s("my-app/2"))),
        "flowgrid/0.1.0 anthropic rust-reqwest my-app/2"
    );
    assert_eq!(user_agent(ProviderKind::OpenAi, &Some(s("bad\n"))), "flowgrid");
}

#[test]
fn openai_headers() {
    let c = ClientBuilder::new()
        .api_key(s("sk"))
        .organization(s("org"))
        .project(s("bad\nproj"))
        .build()
        .unwrap();
    assert_eq!(
        openai_default_headers(&c),
        pairs(&[
            ("authorization", "Bearer sk"),
            ("accept", "application/json"),
            ("user-agent", "flowgrid/0.1.0 openai rust-reqwest"),
            ("openai-organization", "org"),
        ])
    );
    let az = AzureClientBuilder::new()
        .api_key(s("ak"))
        .endpoint(s("https://r.example/openai"))
        .build()
        .unwrap();
    assert_eq!(
        openai_default_headers(&az),
        pairs(&[
            ("api-key", "ak"),
            ("accept", "application/json"),
            ("user-agent", "flowgrid/0.1.0 openai rust-reqwest azure-openai"),
        ])
    );
}

#[test]
fn anthropic_headers() {
    let c = AnthropicBuilder::new().api_key(s("k")).anthropic_beta(s("b1")).build().unwrap();
    assert_eq!(
        anthropic_default_headers(&c, "text/event-stream"),
        pairs(&[
            ("x-api-key", "k"),
            ("anthropic-version", "2023-06-01"),
            ("anthropic-beta", "b1"),
            ("accept", "text/event-stream"),
            ("user-agent", "flowgrid/0.1.0 anthropic rust-reqwest"),
        ])
    );
}

#[test]
fn success_statuses() {
    assert!(is_success(200));
    assert!(is_success(299));
    assert!(!is_success(199));
    assert!(!is_success(300));
    assert!(!is_success(429));
}

#[test]
fn response_meta_headers() {
    let h = vec![
        (s("x-request-id"), b"req_1".to_vec()),
        (s("request-id"), b"req_2".to_vec()),
        (s("x-ratelimit-remaining-requests"), b"99".to_vec()),
        (s("anthropic-ratelimit-requests-reset"), b"2024-01-01T00:00:00Z".to_vec()),
        (s("retry-after"), b"3".to_vec()),
    ];
    let m = response_meta(ProviderKind::OpenAi, 200, h.clone());
    assert_eq!(m.request_id.as_deref(), Some("req_1"));
    assert_eq!(m.rate_limit_remaining_requests.as_deref(), Some("99"));
    assert_eq!(m.rate_limit_reset_requests, None);
    assert_eq!(m.retry_after, Some(3_000_000_000));
    assert_eq!(m.status, 200);
    let m = response_meta(ProviderKind::Anthropic, 429, h);
    assert_eq!(m.request_id.as_deref(), Some("req_2"));
    assert_eq!(m.rate_limit_remaining_requests, None);
    assert_eq!(m.rate_limit_reset_requests.as_deref(), Some("2024-01-01T00:00:00Z"));
    let m = response_meta(ProviderKind::Anthropic, 200, vec![(s("x-request-id"), b"only".to_vec())]);
    assert_eq!(m.request_id.as_deref(), Some("only"));
    assert_eq!(m.retry_after, None);
}

#[test]
fn urls_resolve_under_the_base() {
    let base = normalize_base_url("https://api.openai.com/v1");
    assert_eq!(base, "https://api.openai.com/v1/");
    assert_eq!(normalize_base_url("https://api.openai.com/v1/"), "https://api.openai.com/v1/");
    assert_eq!(
        request_url(&base, "/chat/completions", &vec![]).unwrap(),
        "https://api.openai.com/v1/chat/completions"
    );
    assert_eq!(
        request_url(&base, "models", &pairs(&[("api-version", "2024-02-15-preview")])).unwrap(),
        "https://api.openai.com/v1/models?api-version=2024-02-15-preview"
    );
    assert_eq!(
        with_query("https://h/v1/threads?api-version=1", &pairs(&[("limit", "2"), ("after", "a b")])),
        "https://h/v1/threads?api-version=1&limit=2&after=a+b"
    );
    assert_eq!(with_query("https://h/x", &vec![]), "https://h/x");
}

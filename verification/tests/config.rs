use flowgrid::config::{AnthropicBuilder, AnthropicConfig, AzureClientBuilder, BuildError, ClientBuilder, EnvKey, OpenAiConfig};

fn s(x: &str) -> String {
    x.to_string()
}

#[test]
fn openai_build_requires_api_key() {
    let e = ClientBuilder::new().build().err().unwrap();
    assert!(matches!(e, BuildError::MissingApiKey));
    assert_eq!(e.message().as_deref(), Some("api_key is required"));
}

#[test]
fn openai_build_defaults() {
    let c = ClientBuilder::new().api_key(s("k")).build().unwrap();
    assert_eq!(c.api_key, "k");
    assert_eq!(c.base_url, "https://api.openai.com/v1/");
    assert!(!c.use_api_key_header);
    assert!(c.default_query.is_empty());
    assert_eq!(c.timeout_ns, 120_000_000_000);
    assert_eq!(c.max_retries, 2);
    assert_eq!(c.retry_after_max_ns, 2_000_000_000);
    assert_eq!(c.org_id, None);
    assert!(!c.rate_limit_aware_backoff);
}

#[test]
fn openai_build_keeps_settings() {
    let c = ClientBuilder::new()
        .api_key(s("k"))
        .base_url(s("http://localhost:8080/v1/"))
        .organization(s("org"))
        .project(s("proj"))
        .timeout(5)
        .max_retries(7)
        .user_agent_suffix(s("app/1"))
        .webhook_secret(s("whsec"))
        .rate_limit_aware_backoff(true)
        .build()
        .unwrap();
    assert_eq!(c.base_url, "http://localhost:8080/v1/");
    assert_eq!(c.org_id.as_deref(), Some("org"));
    assert_eq!(c.project_id.as_deref(), Some("proj"));
    assert_eq!(c.timeout_ns, 5);
    assert_eq!(c.max_retries, 7);
    assert_eq!(c.user_agent_suffix.as_deref(), Some("app/1"));
    assert_eq!(c.webhook_secret.as_deref(), Some("whsec"));
    assert!(c.rate_limit_aware_backoff);
}

#[test]
fn openai_build_rejects_bad_url() {
    let e = ClientBuilder::new().api_key(s("k")).base_url(s("not a url")).build().err().unwrap();
    assert!(matches!(e, BuildError::Url(_)));
    assert_eq!(e.message(), None);
}

#[test]
fn compatible_profile_caps_retries_at_two() {
    let b = ClientBuilder::new().max_retries(5).openai_http_compatible_profile();
    assert_eq!(b.max_retries, Some(2));
    let b = ClientBuilder::new().max_retries(1).openai_http_compatible_profile();
    assert_eq!(b.max_retries, Some(1));
    let b = ClientBuilder::new().openai_http_compatible_profile();
    assert_eq!(b.max_retries, Some(2));
}

#[test]
fn openai_from_env_values() {
    let e = OpenAiConfig::from_env_values(None, None, None, None, None).err().unwrap();
    assert!(matches!(e, BuildError::MissingEnvApiKey(EnvKey::OpenAi)));
    assert_eq!(e.message().as_deref(), Some("OPENAI_API_KEY not set"));
    let c = OpenAiConfig::from_env_values(Some(s("k")), None, Some(s("o")), None, Some(s("w"))).unwrap();
    assert_eq!(c.base_url, "https://api.openai.com/v1");
    assert_eq!(c.org_id.as_deref(), Some("o"));
    assert_eq!(c.webhook_secret.as_deref(), Some("w"));
    let b = ClientBuilder::from_env_values(Some(s("k")), Some(s("https://x.test/api")), None, None, None).unwrap();
    assert_eq!(b.base_url.as_deref(), Some("https://x.test/api"));
    assert_eq!(b.timeout_ns, Some(120_000_000_000));
    let c = b.build().unwrap();
    assert_eq!(c.base_url, "https://x.test/api/");
}

#[test]
fn anthropic_build_defaults_and_errors() {
    let e = AnthropicBuilder::new().build().err().unwrap();
    assert!(matches!(e, BuildError::MissingApiKey));
    let c = AnthropicBuilder::new().api_key(s("k")).build().unwrap();
    assert_eq!(c.base_url, "https://api.anthropic.com/v1/");
    assert_eq!(c.anthropic_version, "2023-06-01");
    assert_eq!(c.anthropic_beta, None);
    assert_eq!(c.max_retries, 2);
    let c = AnthropicBuilder::new()
        .api_key(s("k"))
        .anthropic_version(s("2024-01-01"))
        .anthropic_beta(s("tools-2024"))
        .max_retries(0)
        .build()
        .unwrap();
    assert_eq!(c.anthropic_version, "2024-01-01");
    assert_eq!(c.anthropic_beta.as_deref(), Some("tools-2024"));
    assert_eq!(c.max_retries, 0);
    let e = AnthropicConfig::from_env_values(None, None, None, None).err().unwrap();
    assert_eq!(e.message().as_deref(), Some("ANTHROPIC_API_KEY not set"));
}

#[test]
fn azure_build() {
    let e = AzureClientBuilder::new().build().err().unwrap();
    assert_eq!(e.message().as_deref(), Some("Azure api_key is required"));
    let e = AzureClientBuilder::new().api_key(s("k")).build().err().unwrap();
    assert_eq!(e.message().as_deref(), Some("Azure endpoint is required"));
    let e = AzureClientBuilder::new().api_key(s("k")).endpoint(s("::")).build().err().unwrap();
    assert!(matches!(e, BuildError::AzureInvalidEndpoint(_)));
    let c = AzureClientBuilder::new()
        .api_key(s("k"))
        .endpoint(s("https://r.openai.azure.com/openai/deployments/d"))
        .build()
        .unwrap();
    assert!(c.use_api_key_header);
    assert_eq!(c.base_url, "https://r.openai.azure.com/openai/deployments/d/");
    assert_eq!(c.default_query, vec![(s("api-version"), s("2024-02-15-preview"))]);
    assert_eq!(c.user_agent_suffix.as_deref(), Some("azure-openai"));
    assert_eq!(c.webhook_secret, None);
}

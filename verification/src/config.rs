//! Client configuration: the builders of the OpenAI, Anthropic and Azure
//! clients and the settings they produce. Times are in nanoseconds.
use vstd::prelude::*;
use crate::urls::{base_url_spec, spec_parse_url};

verus! {

/// Default per-attempt timeout (120 s).
pub const DEFAULT_TIMEOUT_NS: u128 = 120_000_000_000;

/// Default ceiling on waits taken from `Retry-After` (2 s).
pub const DEFAULT_RETRY_AFTER_MAX_NS: u128 = 2_000_000_000;

/// Default number of retries after the first attempt.
pub const DEFAULT_MAX_RETRIES: u32 = 2;

/// Why a client could not be configured.
#[derive(Debug, Clone, Copy)]
pub enum BuildError {
    /// No API key was given to the builder.
    MissingApiKey,
    /// The API key variable of the environment is not set (its name is given).
    MissingEnvApiKey(EnvKey),
    /// The base URL does not parse.
    Url(url::ParseError),
    /// No API key was given to the Azure builder.
    AzureMissingApiKey,
    /// No endpoint was given to the Azure builder.
    AzureMissingEndpoint,
    /// The Azure endpoint does not parse.
    AzureInvalidEndpoint(url::ParseError),
}

/// The environment variable that holds an API key.
#[derive(Debug, Clone, Copy, PartialEq, Eq, Structural)]
pub enum EnvKey {
    /// `OPENAI_API_KEY`
    OpenAi,
    /// `ANTHROPIC_API_KEY`
    Anthropic,
}

impl BuildError {
    /// The error text, for the errors that carry no parse error (those are
    /// described by the parse error itself).
    pub fn message(&self) -> (s: Option<String>)
        ensures
            match *self {
                BuildError::MissingApiKey => s matches Some(t) && t@ == "api_key is required"@,
                BuildError::MissingEnvApiKey(EnvKey::OpenAi) => s matches Some(t) && t@
                    == "OPENAI_API_KEY not set"@,
                BuildError::MissingEnvApiKey(EnvKey::Anthropic) => s matches Some(t) && t@
                    == "ANTHROPIC_API_KEY not set"@,
                BuildError::AzureMissingApiKey => s matches Some(t) && t@ == "Azure api_key is required"@,
                BuildError::AzureMissingEndpoint => s matches Some(t) && t@
                    == "Azure endpoint is required"@,
                _ => s is None,
            },
    {
        match self {
            BuildError::MissingApiKey => Some(String::from_str("api_key is required")),
            BuildError::MissingEnvApiKey(EnvKey::OpenAi) => Some(
                String::from_str("OPENAI_API_KEY not set"),
            ),
            BuildError::MissingEnvApiKey(EnvKey::Anthropic) => Some(
                String::from_str("ANTHROPIC_API_KEY not set"),
            ),
            BuildError::AzureMissingApiKey => Some(String::from_str("Azure api_key is required")),
            BuildError::AzureMissingEndpoint => Some(String::from_str("Azure endpoint is required")),
            _ => None,
        }
    }
}

/// Settings of an OpenAI (or Azure OpenAI) client.
pub struct OpenAiConfig {
    /// API key (`Bearer` by default; Azure uses the `api-key` header).
    pub api_key: String,
    /// Base URL, serialized; its path ends with `/`.
    pub base_url: String,
    /// Send `api-key` instead of `Authorization: Bearer …` (Azure).
    pub use_api_key_header: bool,
    /// Query parameters added to every request (Azure `api-version`).
    pub default_query: Vec<(String, String)>,
    /// `OpenAI-Organization` header.
    pub org_id: Option<String>,
    /// `OpenAI-Project` header.
    pub project_id: Option<String>,
    /// Timeout of one attempt.
    pub timeout_ns: u128,
    /// Retries after the first attempt.
    pub max_retries: u32,
    /// Appended to the `User-Agent`.
    pub user_agent_suffix: Option<String>,
    /// Webhook signing secret.
    pub webhook_secret: Option<String>,
    /// Ceiling on waits taken from `Retry-After`.
    pub retry_after_max_ns: u128,
    /// Prefer rate-limit reset headers when `Retry-After` is absent.
    pub rate_limit_aware_backoff: bool,
}

/// Settings of an Anthropic client.
pub struct AnthropicConfig {
    /// API key (`x-api-key`).
    pub api_key: String,
    /// Base URL, serialized; its path ends with `/`.
    pub base_url: String,
    /// `anthropic-version` header.
    pub anthropic_version: String,
    /// `anthropic-beta` header (comma-separated feature flags).
    pub anthropic_beta: Option<String>,
    /// Timeout of one attempt.
    pub timeout_ns: u128,
    /// Retries after the first attempt.
    pub max_retries: u32,
    /// Appended to the `User-Agent`.
    pub user_agent_suffix: Option<String>,
    /// Ceiling on waits taken from `Retry-After`.
    pub retry_after_max_ns: u128,
    /// Prefer rate-limit reset headers when `Retry-After` is absent.
    pub rate_limit_aware_backoff: bool,
}

/// The value of an option, or a default.
pub open spec fn text_or(o: Option<String>, d: Seq<char>) -> Seq<char> {
    match o {
        Some(s) => s@,
        None => d,
    }
}

pub open spec fn openai_default_base() -> Seq<char> {
    "https://api.openai.com/v1"@
}

pub open spec fn anthropic_default_base() -> Seq<char> {
    "https://api.anthropic.com/v1"@
}

pub open spec fn anthropic_default_version() -> Seq<char> {
    "2023-06-01"@
}

pub open spec fn azure_default_api_version() -> Seq<char> {
    "2024-02-15-preview"@
}

/// Fluent builder of an OpenAI client.
#[derive(Clone)]
pub struct ClientBuilder {
    pub api_key: Option<String>,
    pub base_url: Option<String>,
    pub org_id: Option<String>,
    pub project_id: Option<String>,
    pub timeout_ns: Option<u128>,
    pub max_retries: Option<u32>,
    pub user_agent_suffix: Option<String>,
    pub rate_limit_aware_backoff: Option<bool>,
    pub webhook_secret: Option<String>,
}

/// What an OpenAI builder's `build` gives once the key is there and the
/// base URL (serialized as `base`) parsed.
pub open spec fn openai_built(c: OpenAiConfig, b: ClientBuilder, base: Seq<char>) -> bool {
    &&& c.api_key == b.api_key->0
    &&& c.base_url@ == base_url_spec(base)
    &&& !c.use_api_key_header
    &&& c.default_query@.len() == 0
    &&& c.org_id == b.org_id
    &&& c.project_id == b.project_id
    &&& c.timeout_ns == (match b.timeout_ns {
        Some(t) => t,
        None => DEFAULT_TIMEOUT_NS,
    })
    &&& c.max_retries == (match b.max_retries {
        Some(n) => n,
        None => DEFAULT_MAX_RETRIES,
    })
    &&& c.user_agent_suffix == b.user_agent_suffix
    &&& c.webhook_secret == b.webhook_secret
    &&& c.retry_after_max_ns == DEFAULT_RETRY_AFTER_MAX_NS
    &&& c.rate_limit_aware_backoff == (b.rate_limit_aware_backoff == Some(true))
}

impl ClientBuilder {
    /// Empty builder.
    pub fn new() -> (b: ClientBuilder)
        ensures
            b.api_key is None,
            b.base_url is None,
            b.org_id is None,
            b.project_id is None,
            b.timeout_ns is None,
            b.max_retries is None,
            b.user_agent_suffix is None,
            b.rate_limit_aware_backoff is None,
            b.webhook_secret is None,
    {
        ClientBuilder {
            api_key: None,
            base_url: None,
            org_id: None,
            project_id: None,
            timeout_ns: None,
            max_retries: None,
            user_agent_suffix: None,
            rate_limit_aware_backoff: None,
            webhook_secret: None,
        }
    }

    /// A builder filled from the environment's values (`OPENAI_API_KEY`,
    /// `OPENAI_BASE_URL`, `OPENAI_ORG_ID`, `OPENAI_PROJECT`,
    /// `OPENAI_WEBHOOK_SECRET`), as [`OpenAiConfig::from_env_values`] reads
    /// them.
    pub fn from_env_values(
        api_key: Option<String>,
        base_url: Option<String>,
        org_id: Option<String>,
        project_id: Option<String>,
        webhook_secret: Option<String>,
    ) -> (r: Result<ClientBuilder, BuildError>)
        ensures
            api_key is None ==> r matches Err(BuildError::MissingEnvApiKey(EnvKey::OpenAi)),
            api_key is Some && spec_parse_url(text_or(base_url, openai_default_base())) is None
                ==> r matches Err(BuildError::Url(_)),
            api_key is Some && spec_parse_url(text_or(base_url, openai_default_base())) is Some
                ==> (r matches Ok(b) && b.api_key == api_key && b.base_url is Some && b.base_url->0@
                == spec_parse_url(text_or(base_url, openai_default_base()))->0 && b.org_id == org_id
                && b.project_id == project_id && b.timeout_ns == Some(DEFAULT_TIMEOUT_NS)
                && b.max_retries == Some(DEFAULT_MAX_RETRIES) && b.user_agent_suffix is None
                && b.rate_limit_aware_backoff == Some(false) && b.webhook_secret == webhook_secret),
    {
        let c = match OpenAiConfig::from_env_values(api_key, base_url, org_id, project_id, webhook_secret) {
            Ok(c) => c,
            Err(e) => {
                return Err(e);
            },
        };
        Ok(ClientBuilder {
            api_key: Some(c.api_key),
            base_url: Some(c.base_url),
            org_id: c.org_id,
            project_id: c.project_id,
            timeout_ns: Some(c.timeout_ns),
            max_retries: Some(c.max_retries),
            user_agent_suffix: c.user_agent_suffix,
            rate_limit_aware_backoff: Some(c.rate_limit_aware_backoff),
            webhook_secret: c.webhook_secret,
        })
    }

    /// API key.
    pub fn api_key(self, key: String) -> (b: ClientBuilder)
        ensures
            b == (ClientBuilder { api_key: Some(key), ..self }),
    {
        ClientBuilder { api_key: Some(key), ..self }
    }

    /// Base URL (it should include the `/v1` path prefix, like the default).
    pub fn base_url(self, url: String) -> (b: ClientBuilder)
        ensures
            b == (ClientBuilder { base_url: Some(url), ..self }),
    {
        ClientBuilder { base_url: Some(url), ..self }
    }

    /// `OpenAI-Organization` header.
    pub fn organization(self, org_id: String) -> (b: ClientBuilder)
        ensures
            b == (ClientBuilder { org_id: Some(org_id), ..self }),
    {
        ClientBuilder { org_id: Some(org_id), ..self }
    }

    /// `OpenAI-Project` header.
    pub fn project(self, project_id: String) -> (b: ClientBuilder)
        ensures
            b == (ClientBuilder { project_id: Some(project_id), ..self }),
    {
        ClientBuilder { project_id: Some(project_id), ..self }
    }

    /// Timeout of one attempt.
    pub fn timeout(self, ns: u128) -> (b: ClientBuilder)
        ensures
            b == (ClientBuilder { timeout_ns: Some(ns), ..self }),
    {
        ClientBuilder { timeout_ns: Some(ns), ..self }
    }

    /// Retries after the first attempt (default 2).
    pub fn max_retries(self, n: u32) -> (b: ClientBuilder)
        ensures
            b == (ClientBuilder { max_retries: Some(n), ..self }),
    {
        ClientBuilder { max_retries: Some(n), ..self }
    }

    /// Suffix appended to the `User-Agent`.
    pub fn user_agent_suffix(self, s: String) -> (b: ClientBuilder)
        ensures
            b == (ClientBuilder { user_agent_suffix: Some(s), ..self }),
    {
        ClientBuilder { user_agent_suffix: Some(s), ..self }
    }

    /// Prefer rate-limit reset headers over plain backoff when `Retry-After`
    /// is absent.
    pub fn rate_limit_aware_backoff(self, enabled: bool) -> (b: ClientBuilder)
        ensures
            b == (ClientBuilder { rate_limit_aware_backoff: Some(enabled), ..self }),
    {
        ClientBuilder { rate_limit_aware_backoff: Some(enabled), ..self }
    }

    /// Conservative defaults for OpenAI-shaped servers: at most two retries.
    pub fn openai_http_compatible_profile(self) -> (b: ClientBuilder)
        ensures
            b == (ClientBuilder {
                max_retries: Some(
                    match self.max_retries {
                        Some(n) => if n < 2 {
                            n
                        } else {
                            2u32
                        },
                        None => 2u32,
                    },
                ),
                ..self
            }),
    {
        let n = match self.max_retries {
            Some(n) => n,
            None => 2,
        };
        let m = if n < 2 { n } else { 2 };
        ClientBuilder { max_retries: Some(m), ..self }
    }

    /// Default webhook signing secret.
    pub fn webhook_secret(self, secret: String) -> (b: ClientBuilder)
        ensures
            b == (ClientBuilder { webhook_secret: Some(secret), ..self }),
    {
        ClientBuilder { webhook_secret: Some(secret), ..self }
    }

    /// The client settings: the API key is required, the base URL defaults
    /// to `https://api.openai.com/v1` and must parse, and its path is made
    /// to end with `/`.
    pub fn build(self) -> (r: Result<OpenAiConfig, BuildError>)
        ensures
            self.api_key is None ==> r matches Err(BuildError::MissingApiKey),
            self.api_key is Some && spec_parse_url(text_or(self.base_url, openai_default_base())) is None
                ==> r matches Err(BuildError::Url(_)),
            self.api_key is Some && spec_parse_url(text_or(self.base_url, openai_default_base())) is Some
                ==> (r matches Ok(c) && openai_built(
                c,
                self,
                spec_parse_url(text_or(self.base_url, openai_default_base()))->0,
            )),
    {
        let ghost b0 = self;
        let api_key = match self.api_key {
            None => {
                return Err(BuildError::MissingApiKey);
            },
            Some(k) => k,
        };
        let base = match self.base_url {
            Some(s) => s,
            None => String::from_str("https://api.openai.com/v1"),
        };
        let parsed = match crate::urls::parse_url(base.as_str()) {
            Ok(u) => u,
            Err(e) => {
                return Err(BuildError::Url(e));
            },
        };
        let base_url = crate::urls::normalize_base_url(parsed.as_str());
        let timeout_ns = match self.timeout_ns {
            Some(t) => t,
            None => DEFAULT_TIMEOUT_NS,
        };
        let max_retries = match self.max_retries {
            Some(n) => n,
            None => DEFAULT_MAX_RETRIES,
        };
        let rate_limit_aware_backoff = match self.rate_limit_aware_backoff {
            Some(b) => b,
            None => false,
        };
        let c = OpenAiConfig {
            api_key,
            base_url,
            use_api_key_header: false,
            default_query: Vec::new(),
            org_id: self.org_id,
            project_id: self.project_id,
            timeout_ns,
            max_retries,
            user_agent_suffix: self.user_agent_suffix,
            webhook_secret: self.webhook_secret,
            retry_after_max_ns: DEFAULT_RETRY_AFTER_MAX_NS,
            rate_limit_aware_backoff,
        };
        assert(openai_built(c, b0, parsed@));
        Ok(c)
    }
}

impl OpenAiConfig {
    /// Settings from the environment's values: `OPENAI_API_KEY` (required),
    /// `OPENAI_BASE_URL` (default `https://api.openai.com/v1`, must parse),
    /// `OPENAI_ORG_ID`, `OPENAI_PROJECT`, `OPENAI_WEBHOOK_SECRET`; the rest
    /// takes the defaults.
    pub fn from_env_values(
        api_key: Option<String>,
        base_url: Option<String>,
        org_id: Option<String>,
        project_id: Option<String>,
        webhook_secret: Option<String>,
    ) -> (r: Result<OpenAiConfig, BuildError>)
        ensures
            api_key is None ==> r matches Err(BuildError::MissingEnvApiKey(EnvKey::OpenAi)),
            api_key is Some && spec_parse_url(text_or(base_url, openai_default_base())) is None
                ==> r matches Err(BuildError::Url(_)),
            api_key is Some && spec_parse_url(text_or(base_url, openai_default_base())) is Some
                ==> (r matches Ok(c) && c.api_key == api_key->0 && c.base_url@ == spec_parse_url(
                text_or(base_url, openai_default_base()),
            )->0 && !c.use_api_key_header && c.default_query@.len() == 0 && c.org_id == org_id
                && c.project_id == project_id && c.timeout_ns == DEFAULT_TIMEOUT_NS && c.max_retries
                == DEFAULT_MAX_RETRIES && c.user_agent_suffix is None && c.webhook_secret
                == webhook_secret && c.retry_after_max_ns == DEFAULT_RETRY_AFTER_MAX_NS
                && !c.rate_limit_aware_backoff),
    {
        let api_key = match api_key {
            None => {
                return Err(BuildError::MissingEnvApiKey(EnvKey::OpenAi));
            },
            Some(k) => k,
        };
        let base = match base_url {
            Some(s) => s,
            None => String::from_str("https://api.openai.com/v1"),
        };
        let parsed = match crate::urls::parse_url(base.as_str()) {
            Ok(u) => u,
            Err(e) => {
                return Err(BuildError::Url(e));
            },
        };
        Ok(OpenAiConfig {
            api_key,
            base_url: parsed,
            use_api_key_header: false,
            default_query: Vec::new(),
            org_id,
            project_id,
            timeout_ns: DEFAULT_TIMEOUT_NS,
            max_retries: DEFAULT_MAX_RETRIES,
            user_agent_suffix: None,
            webhook_secret,
            retry_after_max_ns: DEFAULT_RETRY_AFTER_MAX_NS,
            rate_limit_aware_backoff: false,
        })
    }
}

/// Fluent builder of an Anthropic client.
#[derive(Clone)]
pub struct AnthropicBuilder {
    pub api_key: Option<String>,
    pub base_url: Option<String>,
    pub anthropic_version: Option<String>,
    pub anthropic_beta: Option<String>,
    pub timeout_ns: Option<u128>,
    pub max_retries: Option<u32>,
    pub user_agent_suffix: Option<String>,
    pub rate_limit_aware_backoff: Option<bool>,
}

/// What an Anthropic builder's `build` gives once the key is there and the
/// base URL (serialized as `base`) parsed.
pub open spec fn anthropic_built(c: AnthropicConfig, b: AnthropicBuilder, base: Seq<char>) -> bool {
    &&& c.api_key == b.api_key->0
    &&& c.base_url@ == base_url_spec(base)
    &&& c.anthropic_version@ == text_or(b.anthropic_version, anthropic_default_version())
    &&& c.anthropic_beta == b.anthropic_beta
    &&& c.timeout_ns == (match b.timeout_ns {
        Some(t) => t,
        None => DEFAULT_TIMEOUT_NS,
    })
    &&& c.max_retries == (match b.max_retries {
        Some(n) => n,
        None => DEFAULT_MAX_RETRIES,
    })
    &&& c.user_agent_suffix == b.user_agent_suffix
    &&& c.retry_after_max_ns == DEFAULT_RETRY_AFTER_MAX_NS
    &&& c.rate_limit_aware_backoff == (b.rate_limit_aware_backoff == Some(true))
}

impl AnthropicBuilder {
    /// Empty builder.
    pub fn new() -> (b: AnthropicBuilder)
        ensures
            b.api_key is None,
            b.base_url is None,
            b.anthropic_version is None,
            b.anthropic_beta is None,
            b.timeout_ns is None,
            b.max_retries is None,
            b.user_agent_suffix is None,
            b.rate_limit_aware_backoff is None,
    {
        AnthropicBuilder {
            api_key: None,
            base_url: None,
            anthropic_version: None,
            anthropic_beta: None,
            timeout_ns: None,
            max_retries: None,
            user_agent_suffix: None,
            rate_limit_aware_backoff: None,
        }
    }

    /// A builder filled from the environment's values (`ANTHROPIC_API_KEY`,
    /// `ANTHROPIC_API_BASE`, `ANTHROPIC_VERSION`, `ANTHROPIC_BETA`), as
    /// [`AnthropicConfig::from_env_values`] reads them.
    pub fn from_env_values(
        api_key: Option<String>,
        base_url: Option<String>,
        version: Option<String>,
        beta: Option<String>,
    ) -> (r: Result<AnthropicBuilder, BuildError>)
        ensures
            api_key is None ==> r matches Err(BuildError::MissingEnvApiKey(EnvKey::Anthropic)),
            api_key is Some && spec_parse_url(text_or(base_url, anthropic_default_base())) is None
                ==> r matches Err(BuildError::Url(_)),
            api_key is Some && spec_parse_url(text_or(base_url, anthropic_default_base())) is Some
                ==> (r matches Ok(b) && b.api_key == api_key && b.base_url is Some && b.base_url->0@
                == spec_parse_url(text_or(base_url, anthropic_default_base()))->0
                && b.anthropic_version is Some && b.anthropic_version->0@ == text_or(version, anthropic_default_version())
                && b.anthropic_beta == beta && b.timeout_ns == Some(DEFAULT_TIMEOUT_NS)
                && b.max_retries == Some(DEFAULT_MAX_RETRIES) && b.user_agent_suffix is None
                && b.rate_limit_aware_backoff == Some(false)),
    {
        let c = match AnthropicConfig::from_env_values(api_key, base_url, version, beta) {
            Ok(c) => c,
            Err(e) => {
                return Err(e);
            },
        };
        Ok(AnthropicBuilder {
            api_key: Some(c.api_key),
            base_url: Some(c.base_url),
            anthropic_version: Some(c.anthropic_version),
            anthropic_beta: c.anthropic_beta,
            timeout_ns: Some(c.timeout_ns),
            max_retries: Some(c.max_retries),
            user_agent_suffix: c.user_agent_suffix,
            rate_limit_aware_backoff: Some(c.rate_limit_aware_backoff),
        })
    }

    /// API key.
    pub fn api_key(self, k: String) -> (b: AnthropicBuilder)
        ensures
            b == (AnthropicBuilder { api_key: Some(k), ..self }),
    {
        AnthropicBuilder { api_key: Some(k), ..self }
    }

    /// Base URL.
    pub fn base_url(self, u: String) -> (b: AnthropicBuilder)
        ensures
            b == (AnthropicBuilder { base_url: Some(u), ..self }),
    {
        AnthropicBuilder { base_url: Some(u), ..self }
    }

    /// `anthropic-version` header (default `2023-06-01`).
    pub fn anthropic_version(self, v: String) -> (b: AnthropicBuilder)
        ensures
            b == (AnthropicBuilder { anthropic_version: Some(v), ..self }),
    {
        AnthropicBuilder { anthropic_version: Some(v), ..self }
    }

    /// `anthropic-beta` header.
    pub fn anthropic_beta(self, v: String) -> (b: AnthropicBuilder)
        ensures
            b == (AnthropicBuilder { anthropic_beta: Some(v), ..self }),
    {
        AnthropicBuilder { anthropic_beta: Some(v), ..self }
    }

    /// Timeout of one attempt.
    pub fn timeout(self, ns: u128) -> (b: AnthropicBuilder)
        ensures
            b == (AnthropicBuilder { timeout_ns: Some(ns), ..self }),
    {
        AnthropicBuilder { timeout_ns: Some(ns), ..self }
    }

    /// Retries after the first attempt (default 2).
    pub fn max_retries(self, n: u32) -> (b: AnthropicBuilder)
        ensures
            b == (AnthropicBuilder { max_retries: Some(n), ..self }),
    {
        AnthropicBuilder { max_retries: Some(n), ..self }
    }

    /// Suffix appended to the `User-Agent`.
    pub fn user_agent_suffix(self, s: String) -> (b: AnthropicBuilder)
        ensures
            b == (AnthropicBuilder { user_agent_suffix: Some(s), ..self }),
    {
        AnthropicBuilder { user_agent_suffix: Some(s), ..self }
    }

    /// Prefer rate-limit reset headers over plain backoff when `Retry-After`
    /// is absent.
    pub fn rate_limit_aware_backoff(self, enabled: bool) -> (b: AnthropicBuilder)
        ensures
            b == (AnthropicBuilder { rate_limit_aware_backoff: Some(enabled), ..self }),
    {
        AnthropicBuilder { rate_limit_aware_backoff: Some(enabled), ..self }
    }

    /// The client settings: the API key is required, the base URL defaults
    /// to `https://api.anthropic.com/v1` and must parse (its path is made to
    /// end with `/`), and the version defaults to `2023-06-01`.
    pub fn build(self) -> (r: Result<AnthropicConfig, BuildError>)
        ensures
            self.api_key is None ==> r matches Err(BuildError::MissingApiKey),
            self.api_key is Some && spec_parse_url(text_or(self.base_url, anthropic_default_base())) is None
                ==> r matches Err(BuildError::Url(_)),
            self.api_key is Some && spec_parse_url(text_or(self.base_url, anthropic_default_base())) is Some
                ==> (r matches Ok(c) && anthropic_built(
                c,
                self,
                spec_parse_url(text_or(self.base_url, anthropic_default_base()))->0,
            )),
    {
        let ghost b0 = self;
        let api_key = match self.api_key {
            None => {
                return Err(BuildError::MissingApiKey);
            },
            Some(k) => k,
        };
        let base = match self.base_url {
            Some(s) => s,
            None => String::from_str("https://api.anthropic.com/v1"),
        };
        let parsed = match crate::urls::parse_url(base.as_str()) {
            Ok(u) => u,
            Err(e) => {
                return Err(BuildError::Url(e));
            },
        };
        let base_url = crate::urls::normalize_base_url(parsed.as_str());
        let anthropic_version = match self.anthropic_version {
            Some(v) => v,
            None => String::from_str("2023-06-01"),
        };
        let timeout_ns = match self.timeout_ns {
            Some(t) => t,
            None => DEFAULT_TIMEOUT_NS,
        };
        let max_retries = match self.max_retries {
            Some(n) => n,
            None => DEFAULT_MAX_RETRIES,
        };
        let rate_limit_aware_backoff = match self.rate_limit_aware_backoff {
            Some(b) => b,
            None => false,
        };
        let c = AnthropicConfig {
            api_key,
            base_url,
            anthropic_version,
            anthropic_beta: self.anthropic_beta,
            timeout_ns,
            max_retries,
            user_agent_suffix: self.user_agent_suffix,
            retry_after_max_ns: DEFAULT_RETRY_AFTER_MAX_NS,
            rate_limit_aware_backoff,
        };
        assert(anthropic_built(c, b0, parsed@));
        Ok(c)
    }
}

impl AnthropicConfig {
    /// Settings from the environment's values: `ANTHROPIC_API_KEY`
    /// (required), `ANTHROPIC_API_BASE` (default
    /// `https://api.anthropic.com/v1`, must parse), `ANTHROPIC_VERSION`
    /// (default `2023-06-01`), `ANTHROPIC_BETA`; the rest takes the defaults.
    pub fn from_env_values(
        api_key: Option<String>,
        base_url: Option<String>,
        version: Option<String>,
        beta: Option<String>,
    ) -> (r: Result<AnthropicConfig, BuildError>)
        ensures
            api_key is None ==> r matches Err(BuildError::MissingEnvApiKey(EnvKey::Anthropic)),
            api_key is Some && spec_parse_url(text_or(base_url, anthropic_default_base())) is None
                ==> r matches Err(BuildError::Url(_)),
            api_key is Some && spec_parse_url(text_or(base_url, anthropic_default_base())) is Some
                ==> (r matches Ok(c) && c.api_key == api_key->0 && c.base_url@ == spec_parse_url(
                text_or(base_url, anthropic_default_base()),
            )->0 && c.anthropic_version@ == text_or(version, anthropic_default_version())
                && c.anthropic_beta == beta && c.timeout_ns == DEFAULT_TIMEOUT_NS && c.max_retries
                == DEFAULT_MAX_RETRIES && c.user_agent_suffix is None && c.retry_after_max_ns
                == DEFAULT_RETRY_AFTER_MAX_NS && !c.rate_limit_aware_backoff),
    {
        let api_key = match api_key {
            None => {
                return Err(BuildError::MissingEnvApiKey(EnvKey::Anthropic));
            },
            Some(k) => k,
        };
        let base = match base_url {
            Some(s) => s,
            None => String::from_str("https://api.anthropic.com/v1"),
        };
        let parsed = match crate::urls::parse_url(base.as_str()) {
            Ok(u) => u,
            Err(e) => {
                return Err(BuildError::Url(e));
            },
        };
        let anthropic_version = match version {
            Some(v) => v,
            None => String::from_str("2023-06-01"),
        };
        Ok(AnthropicConfig {
            api_key,
            base_url: parsed,
            anthropic_version,
            anthropic_beta: beta,
            timeout_ns: DEFAULT_TIMEOUT_NS,
            max_retries: DEFAULT_MAX_RETRIES,
            user_agent_suffix: None,
            retry_after_max_ns: DEFAULT_RETRY_AFTER_MAX_NS,
            rate_limit_aware_backoff: false,
        })
    }
}

/// Builder of an Azure OpenAI client.
#[derive(Clone)]
pub struct AzureClientBuilder {
    pub api_key: Option<String>,
    pub endpoint: Option<String>,
    pub api_version: Option<String>,
    pub timeout_ns: Option<u128>,
    pub max_retries: Option<u32>,
}

/// What an Azure builder's `build` gives once key and endpoint are there
/// and the endpoint (serialized as `base`) parsed.
pub open spec fn azure_built(c: OpenAiConfig, b: AzureClientBuilder, base: Seq<char>) -> bool {
    &&& c.api_key == b.api_key->0
    &&& c.base_url@ == base_url_spec(base)
    &&& c.use_api_key_header
    &&& c.default_query@.len() == 1
    &&& c.default_query@[0].0@ == "api-version"@
    &&& c.default_query@[0].1@ == text_or(b.api_version, azure_default_api_version())
    &&& c.org_id is None
    &&& c.project_id is None
    &&& c.timeout_ns == (match b.timeout_ns {
        Some(t) => t,
        None => DEFAULT_TIMEOUT_NS,
    })
    &&& c.max_retries == (match b.max_retries {
        Some(n) => n,
        None => DEFAULT_MAX_RETRIES,
    })
    &&& c.user_agent_suffix is Some
    &&& c.user_agent_suffix->0@ == "azure-openai"@
    &&& c.webhook_secret is None
    &&& c.retry_after_max_ns == DEFAULT_RETRY_AFTER_MAX_NS
    &&& !c.rate_limit_aware_backoff
}

impl AzureClientBuilder {
    /// Empty builder.
    pub fn new() -> (b: AzureClientBuilder)
        ensures
            b.api_key is None,
            b.endpoint is None,
            b.api_version is None,
            b.timeout_ns is None,
            b.max_retries is None,
    {
        AzureClientBuilder {
            api_key: None,
            endpoint: None,
            api_version: None,
            timeout_ns: None,
            max_retries: None,
        }
    }

    /// Azure `api-key` value.
    pub fn api_key(self, key: String) -> (b: AzureClientBuilder)
        ensures
            b == (AzureClientBuilder { api_key: Some(key), ..self }),
    {
        AzureClientBuilder { api_key: Some(key), ..self }
    }

    /// Deployment base URL, for example
    /// `https://MYRESOURCE.openai.azure.com/openai/deployments/MYDEPLOYMENT`.
    pub fn endpoint(self, url: String) -> (b: AzureClientBuilder)
        ensures
            b == (AzureClientBuilder { endpoint: Some(url), ..self }),
    {
        AzureClientBuilder { endpoint: Some(url), ..self }
    }

    /// `api-version` query value (default `2024-02-15-preview`).
    pub fn api_version(self, version: String) -> (b: AzureClientBuilder)
        ensures
            b == (AzureClientBuilder { api_version: Some(version), ..self }),
    {
        AzureClientBuilder { api_version: Some(version), ..self }
    }

    /// Timeout of one attempt.
    pub fn timeout(self, ns: u128) -> (b: AzureClientBuilder)
        ensures
            b == (AzureClientBuilder { timeout_ns: Some(ns), ..self }),
    {
        AzureClientBuilder { timeout_ns: Some(ns), ..self }
    }

    /// Retries after the first attempt (default 2).
    pub fn max_retries(self, n: u32) -> (b: AzureClientBuilder)
        ensures
            b == (AzureClientBuilder { max_retries: Some(n), ..self }),
    {
        AzureClientBuilder { max_retries: Some(n), ..self }
    }

    /// Settings of an OpenAI client with Azure's HTTP conventions: the
    /// `api-key` header, the `api-version` query parameter on every request
    /// and the `azure-openai` user agent suffix.
    pub fn build(self) -> (r: Result<OpenAiConfig, BuildError>)
        ensures
            self.api_key is None ==> r matches Err(BuildError::AzureMissingApiKey),
            self.api_key is Some && self.endpoint is None ==> r matches Err(
                BuildError::AzureMissingEndpoint,
            ),
            self.api_key is Some && self.endpoint is Some && spec_parse_url(self.endpoint->0@) is None
                ==> r matches Err(BuildError::AzureInvalidEndpoint(_)),
            self.api_key is Some && self.endpoint is Some && spec_parse_url(self.endpoint->0@) is Some
                ==> (r matches Ok(c) && azure_built(c, self, spec_parse_url(self.endpoint->0@)->0)),
    {
        let ghost b0 = self;
        let api_key = match self.api_key {
            None => {
                return Err(BuildError::AzureMissingApiKey);
            },
            Some(k) => k,
        };
        let endpoint = match self.endpoint {
            None => {
                return Err(BuildError::AzureMissingEndpoint);
            },
            Some(e) => e,
        };
        let parsed = match crate::urls::parse_url(endpoint.as_str()) {
            Ok(u) => u,
            Err(e) => {
                return Err(BuildError::AzureInvalidEndpoint(e));
            },
        };
        let base_url = crate::urls::normalize_base_url(parsed.as_str());
        let api_version = match self.api_version {
            Some(v) => v,
            None => String::from_str("2024-02-15-preview"),
        };
        let mut default_query: Vec<(String, String)> = Vec::new();
        default_query.push((String::from_str("api-version"), api_version));
        let timeout_ns = match self.timeout_ns {
            Some(t) => t,
            None => DEFAULT_TIMEOUT_NS,
        };
        let max_retries = match self.max_retries {
            Some(n) => n,
            None => DEFAULT_MAX_RETRIES,
        };
        let c = OpenAiConfig {
            api_key,
            base_url,
            use_api_key_header: true,
            default_query,
            org_id: None,
            project_id: None,
            timeout_ns,
            max_retries,
            user_agent_suffix: Some(String::from_str("azure-openai")),
            webhook_secret: None,
            retry_after_max_ns: DEFAULT_RETRY_AFTER_MAX_NS,
            rate_limit_aware_backoff: false,
        };
        assert(azure_built(c, b0, parsed@));
        Ok(c)
    }
}

/// Law: a built Azure config sends exactly one default query parameter,
/// `api-version`, whose value is the builder's API version when one was
/// set and `2024-02-15-preview` only when none was; the key goes in the
/// `api-key` header.
pub proof fn lemma_azure_api_version(c: OpenAiConfig, b: AzureClientBuilder, base: Seq<char>)
    requires
        azure_built(c, b, base),
    ensures
        c.default_query@.len() == 1,
        c.default_query@[0].0@ == "api-version"@,
        b.api_version matches Some(v) ==> c.default_query@[0].1@ == v@,
        b.api_version is None ==> c.default_query@[0].1@ == "2024-02-15-preview"@,
        b.api_key matches Some(k) ==> c.api_key == k,
        c.use_api_key_header,
{
}

/// Law: what an OpenAI builder was given reaches the built config: the key,
/// the organization and the project as set (none when unset), the timeout
/// and the retry count as set or their defaults.
pub proof fn lemma_openai_settings_reach_config(c: OpenAiConfig, b: ClientBuilder, base: Seq<char>)
    requires
        openai_built(c, b, base),
    ensures
        b.api_key matches Some(k) ==> c.api_key == k,
        b.org_id matches Some(o) ==> c.org_id == Some(o),
        b.org_id is None ==> c.org_id is None,
        b.project_id matches Some(p) ==> c.project_id == Some(p),
        b.project_id is None ==> c.project_id is None,
        b.timeout_ns matches Some(t) ==> c.timeout_ns == t,
        b.timeout_ns is None ==> c.timeout_ns == DEFAULT_TIMEOUT_NS,
        b.max_retries matches Some(n) ==> c.max_retries == n,
        b.max_retries is None ==> c.max_retries == DEFAULT_MAX_RETRIES,
        !c.use_api_key_header,
        c.default_query@.len() == 0,
{
}

/// Law: a built Anthropic config sends the builder's API version when one
/// was set and `2023-06-01` only when none was, and the beta flags exactly
/// as set.
pub proof fn lemma_anthropic_settings_reach_config(c: AnthropicConfig, b: AnthropicBuilder, base: Seq<char>)
    requires
        anthropic_built(c, b, base),
    ensures
        b.anthropic_version matches Some(v) ==> c.anthropic_version@ == v@,
        b.anthropic_version is None ==> c.anthropic_version@ == "2023-06-01"@,
        c.anthropic_beta == b.anthropic_beta,
        b.api_key matches Some(k) ==> c.api_key == k,
{
}

} // verus!

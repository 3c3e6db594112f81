//! What the HTTP transport decides around each request: the default
//! headers, the metadata read from a response, and whether a status counts
//! as success.
use vstd::prelude::*;
use vstd::utf8::encode_utf8;
use crate::config::{AnthropicConfig, OpenAiConfig};
use crate::error::{ProviderKind, header_one_spec};
use crate::resources::query::pairs_view;

verus! {

/// The version this SDK reports in its `User-Agent`.
pub open spec fn sdk_version_spec() -> Seq<char> {
    "0.1.0"@
}

/// The version this SDK reports in its `User-Agent`.
pub fn sdk_version() -> (s: &'static str)
    ensures
        s@ == sdk_version_spec(),
{
    "0.1.0"
}

/// Bytes a header value may hold: visible ones (32 and up, but not 127) and
/// the tab.
pub open spec fn header_value_byte_ok(b: u8) -> bool {
    (b >= 32 && b != 127) || b == 9
}

/// Whether a text can be a header value (`HeaderValue::from_str` accepts
/// it): every byte of its UTF-8 encoding is allowed.
pub open spec fn header_value_ok(s: Seq<char>) -> bool {
    forall|i: int| 0 <= i < encode_utf8(s).len() ==> header_value_byte_ok(#[trigger] encode_utf8(s)[i])
}

/// Whether a text can be a header value.
pub fn header_value_valid(s: &str) -> (r: bool)
    ensures
        r == header_value_ok(s@),
{
    let bytes = s.as_bytes();
    let mut i: usize = 0;
    while i < bytes.len()
        invariant
            i <= bytes.len(),
            bytes@ == encode_utf8(s@),
            forall|k: int| 0 <= k < i ==> header_value_byte_ok(#[trigger] bytes@[k]),
        decreases bytes.len() - i,
    {
        let b = bytes[i];
        if !((b >= 32 && b != 127) || b == 9) {
            return false;
        }
        i = i + 1;
    }
    true
}

/// The `User-Agent`: `flowgrid/{version} {provider} rust-reqwest`, then a
/// space and the suffix when there is one; just `flowgrid` when that cannot
/// be a header value.
pub open spec fn user_agent_spec(p: ProviderKind, suffix: Option<Seq<char>>) -> Seq<char> {
    let name = match p {
        ProviderKind::OpenAi => "openai"@,
        ProviderKind::Anthropic => "anthropic"@,
    };
    let base = "flowgrid/"@ + sdk_version_spec() + " "@ + name + " rust-reqwest"@;
    let s = match suffix {
        Some(x) => base + " "@ + x,
        None => base,
    };
    if header_value_ok(s) {
        s
    } else {
        "flowgrid"@
    }
}

/// An optional string as optional text.
pub open spec fn opt_text(o: Option<String>) -> Option<Seq<char>> {
    match o {
        Some(s) => Some(s@),
        None => None,
    }
}

/// The `User-Agent` header value.
pub fn user_agent(p: ProviderKind, suffix: &Option<String>) -> (s: String)
    ensures
        s@ == user_agent_spec(p, opt_text(*suffix)),
{
    let mut s = String::from_str("flowgrid/");
    s.append(sdk_version());
    match p {
        ProviderKind::OpenAi => s.append(" openai rust-reqwest"),
        ProviderKind::Anthropic => s.append(" anthropic rust-reqwest"),
    }
    proof {
        reveal_strlit(" openai rust-reqwest");
        reveal_strlit(" anthropic rust-reqwest");
        reveal_strlit(" ");
        reveal_strlit("openai");
        reveal_strlit("anthropic");
        reveal_strlit(" rust-reqwest");
    }
    if let Some(x) = suffix {
        s.append(" ");
        s.append(x.as_str());
    }
    let ghost want = match p {
        ProviderKind::OpenAi => "flowgrid/"@ + sdk_version_spec() + " "@ + "openai"@ + " rust-reqwest"@,
        ProviderKind::Anthropic => "flowgrid/"@ + sdk_version_spec() + " "@ + "anthropic"@ + " rust-reqwest"@,
    };
    assert(s@ =~= match *suffix {
        Some(x) => want + " "@ + x@,
        None => want,
    });
    if header_value_valid(s.as_str()) {
        s
    } else {
        String::from_str("flowgrid")
    }
}

/// The pair `(name, value)` when `value` can be a header value.
pub open spec fn header_if_ok(name: Seq<char>, value: Seq<char>) -> Seq<(Seq<char>, Seq<char>)> {
    if header_value_ok(value) {
        seq![(name, value)]
    } else {
        Seq::empty()
    }
}

/// The pair `(name, value)` when `value` is set and can be a header value.
pub open spec fn opt_header_if_ok(name: Seq<char>, value: Option<String>) -> Seq<(Seq<char>, Seq<char>)> {
    match value {
        Some(v) => header_if_ok(name, v@),
        None => Seq::empty(),
    }
}

/// Headers sent with every OpenAI request, in order (names lowercase):
/// the credential (`api-key`, or `authorization: Bearer …`), `accept`,
/// `user-agent`, then the organization and project when set. A credential,
/// organization or project that cannot be a header value is left out.
pub open spec fn openai_headers_spec(c: OpenAiConfig) -> Seq<(Seq<char>, Seq<char>)> {
    let auth = if c.use_api_key_header {
        header_if_ok("api-key"@, c.api_key@)
    } else {
        header_if_ok("authorization"@, "Bearer "@ + c.api_key@)
    };
    auth + seq![("accept"@, "application/json"@)] + seq![
        ("user-agent"@, user_agent_spec(ProviderKind::OpenAi, opt_text(c.user_agent_suffix))),
    ] + opt_header_if_ok("openai-organization"@, c.org_id) + opt_header_if_ok(
        "openai-project"@,
        c.project_id,
    )
}

/// Appends `(name, value)` when `value` can be a header value.
fn push_header_if_ok(out: &mut Vec<(String, String)>, name: &str, value: String)
    ensures
        pairs_view(final(out)@) == pairs_view(old(out)@) + header_if_ok(name@, value@),
{
    if header_value_valid(value.as_str()) {
        out.push((String::from_str(name), value));
    }
    assert(pairs_view(out@) =~= pairs_view(old(out)@) + header_if_ok(name@, value@));
}

/// Appends `(name, value)` when `value` is set and can be a header value.
fn push_opt_header_if_ok(out: &mut Vec<(String, String)>, name: &str, value: &Option<String>)
    ensures
        pairs_view(final(out)@) == pairs_view(old(out)@) + opt_header_if_ok(name@, *value),
{
    match value {
        Some(v) => push_header_if_ok(out, name, v.clone()),
        None => {
            assert(pairs_view(out@) =~= pairs_view(old(out)@) + opt_header_if_ok(name@, *value));
        },
    }
}

/// Appends `(name, value)`.
fn push_header(out: &mut Vec<(String, String)>, name: &str, value: String)
    ensures
        pairs_view(final(out)@) == pairs_view(old(out)@) + seq![(name@, value@)],
{
    out.push((String::from_str(name), value));
    assert(pairs_view(out@) =~= pairs_view(old(out)@) + seq![(name@, value@)]);
}

/// The headers sent with every OpenAI request.
pub fn openai_default_headers(c: &OpenAiConfig) -> (h: Vec<(String, String)>)
    ensures
        pairs_view(h@) == openai_headers_spec(*c),
{
    let mut h: Vec<(String, String)> = Vec::new();
    assert(pairs_view(h@) =~= Seq::<(Seq<char>, Seq<char>)>::empty());
    if c.use_api_key_header {
        push_header_if_ok(&mut h, "api-key", c.api_key.clone());
    } else {
        let mut token = String::from_str("Bearer ");
        token.append(c.api_key.as_str());
        push_header_if_ok(&mut h, "authorization", token);
    }
    push_header(&mut h, "accept", String::from_str("application/json"));
    push_header(&mut h, "user-agent", user_agent(ProviderKind::OpenAi, &c.user_agent_suffix));
    push_opt_header_if_ok(&mut h, "openai-organization", &c.org_id);
    push_opt_header_if_ok(&mut h, "openai-project", &c.project_id);
    assert(pairs_view(h@) =~= openai_headers_spec(*c));
    h
}

/// Headers sent with every Anthropic request, in order (names lowercase):
/// `x-api-key`, `anthropic-version`, `anthropic-beta` when set, `accept`,
/// `user-agent`; each one left out when its value cannot be a header value
/// (but the `user-agent`, which falls back to `flowgrid`).
pub open spec fn anthropic_headers_spec(c: AnthropicConfig, accept: Seq<char>) -> Seq<(Seq<char>, Seq<char>)> {
    header_if_ok("x-api-key"@, c.api_key@) + header_if_ok("anthropic-version"@, c.anthropic_version@)
        + opt_header_if_ok("anthropic-beta"@, c.anthropic_beta) + header_if_ok("accept"@, accept)
        + seq![("user-agent"@, user_agent_spec(ProviderKind::Anthropic, opt_text(c.user_agent_suffix)))]
}

/// The headers sent with every Anthropic request, asking for `accept`.
pub fn anthropic_default_headers(c: &AnthropicConfig, accept: &str) -> (h: Vec<(String, String)>)
    ensures
        pairs_view(h@) == anthropic_headers_spec(*c, accept@),
{
    let mut h: Vec<(String, String)> = Vec::new();
    assert(pairs_view(h@) =~= Seq::<(Seq<char>, Seq<char>)>::empty());
    push_header_if_ok(&mut h, "x-api-key", c.api_key.clone());
    push_header_if_ok(&mut h, "anthropic-version", c.anthropic_version.clone());
    push_opt_header_if_ok(&mut h, "anthropic-beta", &c.anthropic_beta);
    push_header_if_ok(&mut h, "accept", String::from_str(accept));
    push_header(&mut h, "user-agent", user_agent(ProviderKind::Anthropic, &c.user_agent_suffix));
    assert(pairs_view(h@) =~= anthropic_headers_spec(*c, accept@));
    h
}

/// Whether an HTTP status is a success (200 to 299).
pub open spec fn is_success_spec(status: u16) -> bool {
    200 <= status && status <= 299
}

/// Whether an HTTP status is a success (200 to 299).
pub fn is_success(status: u16) -> (r: bool)
    ensures
        r == is_success_spec(status),
{
    200 <= status && status <= 299
}

/// Per-response metadata.
#[derive(Debug, Clone)]
pub struct ResponseMeta {
    /// The request id header.
    pub request_id: Option<String>,
    /// HTTP status.
    pub status: u16,
    /// Response headers (lowercase names, raw values).
    pub headers: Vec<(String, Vec<u8>)>,
    /// Wait asked for by `Retry-After` (nanoseconds), when present.
    pub retry_after: Option<u128>,
    /// Remaining requests in the rate-limit window, when reported.
    pub rate_limit_remaining_requests: Option<String>,
    /// When the rate-limit window resets, when reported.
    pub rate_limit_reset_requests: Option<String>,
}

/// Names of the rate-limit headers of a provider: (remaining, reset).
pub open spec fn rate_limit_names(p: ProviderKind) -> (Seq<char>, Seq<char>) {
    match p {
        ProviderKind::OpenAi => ("x-ratelimit-remaining-requests"@, "x-ratelimit-reset-requests"@),
        ProviderKind::Anthropic => (
            "anthropic-ratelimit-requests-remaining"@,
            "anthropic-ratelimit-requests-reset"@,
        ),
    }
}

/// The request id of a response: `x-request-id` for OpenAI; for Anthropic
/// `request-id`, or `x-request-id` when that one is absent or not text.
pub open spec fn meta_request_id_spec(p: ProviderKind, headers: Seq<(String, Vec<u8>)>) -> Option<Seq<char>> {
    match p {
        ProviderKind::OpenAi => header_one_spec(headers, "x-request-id"@),
        ProviderKind::Anthropic => match header_one_spec(headers, "request-id"@) {
            Some(t) => Some(t),
            None => header_one_spec(headers, "x-request-id"@),
        },
    }
}

/// Metadata of a response with `status` and `headers`; `Retry-After` is
/// read against the current time.
pub fn response_meta(p: ProviderKind, status: u16, headers: Vec<(String, Vec<u8>)>) -> (m: ResponseMeta)
    ensures
        m.status == status,
        m.headers@ == headers@,
        opt_text(m.request_id) == meta_request_id_spec(p, headers@),
        opt_text(m.rate_limit_remaining_requests) == header_one_spec(headers@, rate_limit_names(p).0),
        opt_text(m.rate_limit_reset_requests) == header_one_spec(headers@, rate_limit_names(p).1),
        match header_one_spec(headers@, crate::retry::retry_after_name()) {
            None => m.retry_after is None,
            Some(raw) => exists|now: i128|
                #[trigger] crate::retry::retry_after_spec(raw, now as int) == crate::retry::opt_nat(
                    m.retry_after,
                ),
        },
{
    let request_id = match p {
        ProviderKind::OpenAi => crate::error::header_one(&headers, "x-request-id"),
        ProviderKind::Anthropic => match crate::error::header_one(&headers, "request-id") {
            Some(t) => Some(t),
            None => crate::error::header_one(&headers, "x-request-id"),
        },
    };
    let (remaining, reset) = match p {
        ProviderKind::OpenAi => (
            crate::error::header_one(&headers, "x-ratelimit-remaining-requests"),
            crate::error::header_one(&headers, "x-ratelimit-reset-requests"),
        ),
        ProviderKind::Anthropic => (
            crate::error::header_one(&headers, "anthropic-ratelimit-requests-remaining"),
            crate::error::header_one(&headers, "anthropic-ratelimit-requests-reset"),
        ),
    };
    let retry_after = crate::retry::retry_after_from_headers(&headers);
    ResponseMeta {
        request_id,
        status,
        headers,
        retry_after,
        rate_limit_remaining_requests: remaining,
        rate_limit_reset_requests: reset,
    }
}

/// Whether the headers hold the pair `(name, value)`.
pub open spec fn has_header(h: Seq<(Seq<char>, Seq<char>)>, name: Seq<char>, value: Seq<char>) -> bool {
    exists|i: int| 0 <= i < h.len() && #[trigger] h[i] == (name, value)
}

/// Whether no header is called `name`.
pub open spec fn lacks_header(h: Seq<(Seq<char>, Seq<char>)>, name: Seq<char>) -> bool {
    forall|i: int| 0 <= i < h.len() ==> #[trigger] h[i].0 != name
}

proof fn lemma_has_in_concat(a: Seq<(Seq<char>, Seq<char>)>, b: Seq<(Seq<char>, Seq<char>)>, name: Seq<char>, value: Seq<char>)
    ensures
        has_header(a, name, value) ==> has_header(a + b, name, value),
        has_header(b, name, value) ==> has_header(a + b, name, value),
{
    if has_header(a, name, value) {
        let i = choose|i: int| 0 <= i < a.len() && #[trigger] a[i] == (name, value);
        assert((a + b)[i] == a[i]);
    }
    if has_header(b, name, value) {
        let i = choose|i: int| 0 <= i < b.len() && #[trigger] b[i] == (name, value);
        assert((a + b)[a.len() + i] == b[i]);
    }
}

proof fn lemma_lacks_in_concat(a: Seq<(Seq<char>, Seq<char>)>, b: Seq<(Seq<char>, Seq<char>)>, name: Seq<char>)
    requires
        lacks_header(a, name),
        lacks_header(b, name),
    ensures
        lacks_header(a + b, name),
{
    assert forall|i: int| 0 <= i < (a + b).len() implies #[trigger] (a + b)[i].0 != name by {
        if i < a.len() {
            assert((a + b)[i] == a[i]);
        } else {
            assert((a + b)[i] == b[i - a.len()]);
        }
    }
}

proof fn lemma_one_header(name: Seq<char>, value: Seq<char>, other: Seq<char>)
    ensures
        header_value_ok(value) ==> has_header(header_if_ok(name, value), name, value),
        name != other ==> lacks_header(header_if_ok(name, value), other),
        lacks_header(Seq::<(Seq<char>, Seq<char>)>::empty(), other),
{
    if header_value_ok(value) {
        assert(header_if_ok(name, value)[0] == (name, value));
    }
}

/// Law: the OpenAI default headers carry the organization and the project
/// when the config sets them (and they can be header values), and carry no
/// such header when it does not; they always carry `accept` and the
/// `user-agent`, and the credential in the header the config asks for.
pub proof fn lemma_openai_headers(c: OpenAiConfig)
    ensures
        c.project_id matches Some(p) ==> (header_value_ok(p@) ==> has_header(
            openai_headers_spec(c),
            "openai-project"@,
            p@,
        )),
        c.project_id is None ==> lacks_header(openai_headers_spec(c), "openai-project"@),
        c.org_id matches Some(o) ==> (header_value_ok(o@) ==> has_header(
            openai_headers_spec(c),
            "openai-organization"@,
            o@,
        )),
        c.org_id is None ==> lacks_header(openai_headers_spec(c), "openai-organization"@),
        has_header(openai_headers_spec(c), "accept"@, "application/json"@),
        has_header(
            openai_headers_spec(c),
            "user-agent"@,
            user_agent_spec(ProviderKind::OpenAi, opt_text(c.user_agent_suffix)),
        ),
        !c.use_api_key_header && header_value_ok("Bearer "@ + c.api_key@) ==> has_header(
            openai_headers_spec(c),
            "authorization"@,
            "Bearer "@ + c.api_key@,
        ),
        c.use_api_key_header && header_value_ok(c.api_key@) ==> has_header(
            openai_headers_spec(c),
            "api-key"@,
            c.api_key@,
        ),
{
    reveal_strlit("openai-project");
    reveal_strlit("openai-organization");
    reveal_strlit("authorization");
    reveal_strlit("api-key");
    reveal_strlit("accept");
    reveal_strlit("user-agent");
    let auth = if c.use_api_key_header {
        header_if_ok("api-key"@, c.api_key@)
    } else {
        header_if_ok("authorization"@, "Bearer "@ + c.api_key@)
    };
    let acc = seq![("accept"@, "application/json"@)];
    let ua = seq![("user-agent"@, user_agent_spec(ProviderKind::OpenAi, opt_text(c.user_agent_suffix)))];
    let org = opt_header_if_ok("openai-organization"@, c.org_id);
    let proj = opt_header_if_ok("openai-project"@, c.project_id);
    assert(openai_headers_spec(c) == auth + acc + ua + org + proj);
    assert(acc[0] == ("accept"@, "application/json"@));
    assert(ua[0] == ("user-agent"@, user_agent_spec(ProviderKind::OpenAi, opt_text(c.user_agent_suffix))));
    // the credential
    lemma_one_header("api-key"@, c.api_key@, "openai-project"@);
    lemma_one_header("authorization"@, "Bearer "@ + c.api_key@, "openai-project"@);
    lemma_one_header("api-key"@, c.api_key@, "openai-organization"@);
    lemma_one_header("authorization"@, "Bearer "@ + c.api_key@, "openai-organization"@);
    lemma_has_in_concat(auth, acc, "authorization"@, "Bearer "@ + c.api_key@);
    lemma_has_in_concat(auth, acc, "api-key"@, c.api_key@);
    lemma_has_in_concat(auth, acc, "accept"@, "application/json"@);
    let a2 = auth + acc;
    lemma_has_in_concat(a2, ua, "authorization"@, "Bearer "@ + c.api_key@);
    lemma_has_in_concat(a2, ua, "api-key"@, c.api_key@);
    lemma_has_in_concat(a2, ua, "accept"@, "application/json"@);
    lemma_has_in_concat(a2, ua, "user-agent"@, user_agent_spec(ProviderKind::OpenAi, opt_text(c.user_agent_suffix)));
    let a3 = a2 + ua;
    lemma_has_in_concat(a3, org, "authorization"@, "Bearer "@ + c.api_key@);
    lemma_has_in_concat(a3, org, "api-key"@, c.api_key@);
    lemma_has_in_concat(a3, org, "accept"@, "application/json"@);
    lemma_has_in_concat(a3, org, "user-agent"@, user_agent_spec(ProviderKind::OpenAi, opt_text(c.user_agent_suffix)));
    let a4 = a3 + org;
    lemma_has_in_concat(a4, proj, "authorization"@, "Bearer "@ + c.api_key@);
    lemma_has_in_concat(a4, proj, "api-key"@, c.api_key@);
    lemma_has_in_concat(a4, proj, "accept"@, "application/json"@);
    lemma_has_in_concat(a4, proj, "user-agent"@, user_agent_spec(ProviderKind::OpenAi, opt_text(c.user_agent_suffix)));
    // organization and project
    match c.org_id {
        Some(o) => {
            lemma_one_header("openai-organization"@, o@, "openai-project"@);
            lemma_has_in_concat(a3, org, "openai-organization"@, o@);
            lemma_has_in_concat(a4, proj, "openai-organization"@, o@);
        },
        None => {
            lemma_one_header("openai-project"@, Seq::empty(), "openai-organization"@);
        },
    }
    match c.project_id {
        Some(p) => {
            lemma_one_header("openai-project"@, p@, "openai-organization"@);
            lemma_has_in_concat(a4, proj, "openai-project"@, p@);
        },
        None => {
            lemma_one_header("openai-project"@, Seq::empty(), "openai-project"@);
        },
    }
    // no other piece names the organization or the project
    assert("accept"@.len() != "openai-project"@.len());
    assert("user-agent"@.len() != "openai-project"@.len());
    assert("accept"@.len() != "openai-organization"@.len());
    assert("user-agent"@.len() != "openai-organization"@.len());
    assert(lacks_header(acc, "openai-project"@));
    assert(lacks_header(ua, "openai-project"@));
    assert(lacks_header(acc, "openai-organization"@));
    assert(lacks_header(ua, "openai-organization"@));
    if c.project_id is None {
        lemma_lacks_in_concat(auth, acc, "openai-project"@);
        lemma_lacks_in_concat(a2, ua, "openai-project"@);
        match c.org_id {
            Some(o) => {},
            None => {},
        }
        lemma_lacks_in_concat(a3, org, "openai-project"@);
        lemma_lacks_in_concat(a4, proj, "openai-project"@);
    }
    if c.org_id is None {
        lemma_lacks_in_concat(auth, acc, "openai-organization"@);
        lemma_lacks_in_concat(a2, ua, "openai-organization"@);
        lemma_lacks_in_concat(a3, org, "openai-organization"@);
        match c.project_id {
            Some(p) => {
                lemma_one_header("openai-project"@, p@, "openai-organization"@);
            },
            None => {},
        }
        lemma_lacks_in_concat(a4, proj, "openai-organization"@);
    }
}

/// Law: the Anthropic default headers carry the key, the API version and
/// the `accept` asked for (when they can be header values), the beta flags
/// exactly when the config sets them, and always the `user-agent`.
pub proof fn lemma_anthropic_headers(c: AnthropicConfig, accept: Seq<char>)
    ensures
        header_value_ok(c.api_key@) ==> has_header(anthropic_headers_spec(c, accept), "x-api-key"@, c.api_key@),
        header_value_ok(c.anthropic_version@) ==> has_header(
            anthropic_headers_spec(c, accept),
            "anthropic-version"@,
            c.anthropic_version@,
        ),
        c.anthropic_beta matches Some(b) ==> (header_value_ok(b@) ==> has_header(
            anthropic_headers_spec(c, accept),
            "anthropic-beta"@,
            b@,
        )),
        c.anthropic_beta is None ==> lacks_header(anthropic_headers_spec(c, accept), "anthropic-beta"@),
        header_value_ok(accept) ==> has_header(anthropic_headers_spec(c, accept), "accept"@, accept),
        has_header(
            anthropic_headers_spec(c, accept),
            "user-agent"@,
            user_agent_spec(ProviderKind::Anthropic, opt_text(c.user_agent_suffix)),
        ),
{
    reveal_strlit("x-api-key");
    reveal_strlit("anthropic-version");
    reveal_strlit("anthropic-beta");
    reveal_strlit("accept");
    reveal_strlit("user-agent");
    let ua_v = user_agent_spec(ProviderKind::Anthropic, opt_text(c.user_agent_suffix));
    let key = header_if_ok("x-api-key"@, c.api_key@);
    let ver = header_if_ok("anthropic-version"@, c.anthropic_version@);
    let beta = opt_header_if_ok("anthropic-beta"@, c.anthropic_beta);
    let acc = header_if_ok("accept"@, accept);
    let ua = seq![("user-agent"@, ua_v)];
    assert(anthropic_headers_spec(c, accept) == key + ver + beta + acc + ua);
    assert(ua[0] == ("user-agent"@, ua_v));
    lemma_one_header("x-api-key"@, c.api_key@, "anthropic-beta"@);
    lemma_one_header("anthropic-version"@, c.anthropic_version@, "anthropic-beta"@);
    lemma_one_header("accept"@, accept, "anthropic-beta"@);
    let a2 = key + ver;
    let a3 = a2 + beta;
    let a4 = a3 + acc;
    lemma_has_in_concat(key, ver, "x-api-key"@, c.api_key@);
    lemma_has_in_concat(key, ver, "anthropic-version"@, c.anthropic_version@);
    lemma_has_in_concat(a2, beta, "x-api-key"@, c.api_key@);
    lemma_has_in_concat(a2, beta, "anthropic-version"@, c.anthropic_version@);
    lemma_has_in_concat(a3, acc, "x-api-key"@, c.api_key@);
    lemma_has_in_concat(a3, acc, "anthropic-version"@, c.anthropic_version@);
    lemma_has_in_concat(a3, acc, "accept"@, accept);
    lemma_has_in_concat(a4, ua, "x-api-key"@, c.api_key@);
    lemma_has_in_concat(a4, ua, "anthropic-version"@, c.anthropic_version@);
    lemma_has_in_concat(a4, ua, "accept"@, accept);
    lemma_has_in_concat(a4, ua, "user-agent"@, ua_v);
    match c.anthropic_beta {
        Some(b) => {
            lemma_one_header("anthropic-beta"@, b@, "accept"@);
            lemma_has_in_concat(a2, beta, "anthropic-beta"@, b@);
            lemma_has_in_concat(a3, acc, "anthropic-beta"@, b@);
            lemma_has_in_concat(a4, ua, "anthropic-beta"@, b@);
        },
        None => {
            assert("x-api-key"@.len() != "anthropic-beta"@.len());
            assert("anthropic-version"@.len() != "anthropic-beta"@.len());
            assert("accept"@.len() != "anthropic-beta"@.len());
            assert("user-agent"@.len() != "anthropic-beta"@.len());
            assert(lacks_header(ua, "anthropic-beta"@));
            lemma_lacks_in_concat(key, ver, "anthropic-beta"@);
            lemma_lacks_in_concat(a2, beta, "anthropic-beta"@);
            lemma_lacks_in_concat(a3, acc, "anthropic-beta"@);
            lemma_lacks_in_concat(a4, ua, "anthropic-beta"@);
        },
    }
}

} // verus!

//! Anthropic error payloads and their classification.
use vstd::prelude::*;
use crate::error::ProviderKind;
use crate::json::JsonValue;

verus! {

/// Common error envelope: `{"type":"error","error":{...}}`.
#[derive(Debug)]
pub struct ErrorBody {
    /// `type` of the envelope.
    pub type_: Option<String>,
    pub error: Option<JsonValue>,
}

/// Typed classification of HTTP failures.
#[derive(PartialEq, Eq, Debug, Clone, Copy, Structural)]
pub enum ApiErrorKind {
    /// 400
    BadRequest,
    /// 401
    Authentication,
    /// 403
    PermissionDenied,
    /// 404
    NotFound,
    /// 429
    RateLimit,
    /// 529
    Overloaded,
    /// Other statuses from 500 on.
    InternalServerError,
    /// Other statuses.
    Other,
}

/// Classification of an HTTP status.
pub open spec fn kind_of(s: u16) -> ApiErrorKind {
    if s == 400 {
        ApiErrorKind::BadRequest
    } else if s == 401 {
        ApiErrorKind::Authentication
    } else if s == 403 {
        ApiErrorKind::PermissionDenied
    } else if s == 404 {
        ApiErrorKind::NotFound
    } else if s == 429 {
        ApiErrorKind::RateLimit
    } else if s == 529 {
        ApiErrorKind::Overloaded
    } else if s >= 500 {
        ApiErrorKind::InternalServerError
    } else {
        ApiErrorKind::Other
    }
}

/// Law: each documented status has a kind of its own, and every status
/// gets the kind documented for it (Anthropic).
pub proof fn lemma_kind_by_status(s: u16)
    ensures
        kind_of(s) == ApiErrorKind::BadRequest <==> s == 400,
        kind_of(s) == ApiErrorKind::Authentication <==> s == 401,
        kind_of(s) == ApiErrorKind::PermissionDenied <==> s == 403,
        kind_of(s) == ApiErrorKind::NotFound <==> s == 404,
        kind_of(s) == ApiErrorKind::RateLimit <==> s == 429,
        kind_of(s) == ApiErrorKind::Overloaded <==> s == 529,
        kind_of(s) == ApiErrorKind::InternalServerError <==> (s >= 500 && s != 529),
        kind_of(s) == ApiErrorKind::Other <==> (s < 500 && s != 400 && s != 401 && s != 403 && s
            != 404 && s != 429),
{
}

/// The request id of a response: `request-id` when that header is present,
/// else `x-request-id`; as text.
pub open spec fn request_id_spec(headers: Seq<(String, Vec<u8>)>) -> Option<Seq<char>> {
    if crate::error::first_header(headers, "request-id"@) is Some {
        crate::error::header_one_spec(headers, "request-id"@)
    } else {
        crate::error::header_one_spec(headers, "x-request-id"@)
    }
}

/// Structured API error from Anthropic responses.
#[derive(Debug)]
pub struct ApiError {
    /// HTTP status code.
    pub status: u16,
    /// Parsed error body when recognizable.
    pub body: Option<ErrorBody>,
    /// Raw response body.
    pub raw_body: Option<String>,
    /// The first 512 characters of a non-empty body.
    pub body_snippet: Option<String>,
    /// Wait asked for by `Retry-After` (nanoseconds), when the response had
    /// one that could be read.
    pub retry_after: Option<u128>,
    /// Always [`ProviderKind::Anthropic`].
    pub provider: ProviderKind,
    /// `request-id` (or `x-request-id`) when present.
    pub request_id: Option<String>,
    /// Response headers (lowercase names, raw values).
    pub headers: Vec<(String, Vec<u8>)>,
}

/// Whether a header called `name` is present.
pub fn has_header(headers: &Vec<(String, Vec<u8>)>, name: &str) -> (r: bool)
    ensures
        r == (crate::error::first_header(headers@, name@) is Some),
{
    let mut i: usize = 0;
    assert(headers@.skip(0) =~= headers@);
    while i < headers.len()
        invariant
            i <= headers.len(),
            (crate::error::first_header(headers@, name@) is Some) == (crate::error::first_header(
                headers@.skip(i as int),
                name@,
            ) is Some),
        decreases headers.len() - i,
    {
        assert(headers@.skip(i as int).drop_first() =~= headers@.skip(i + 1));
        assert(headers@.skip(i as int)[0] == headers@[i as int]);
        if crate::text::str_eq(headers[i].0.as_str(), name) {
            return true;
        }
        i = i + 1;
    }
    false
}

impl ApiError {
    /// Classify by status code.
    pub fn kind(&self) -> (k: ApiErrorKind)
        ensures
            k == kind_of(self.status),
    {
        let s = self.status;
        if s == 400 {
            ApiErrorKind::BadRequest
        } else if s == 401 {
            ApiErrorKind::Authentication
        } else if s == 403 {
            ApiErrorKind::PermissionDenied
        } else if s == 404 {
            ApiErrorKind::NotFound
        } else if s == 429 {
            ApiErrorKind::RateLimit
        } else if s == 529 {
            ApiErrorKind::Overloaded
        } else if s >= 500 {
            ApiErrorKind::InternalServerError
        } else {
            ApiErrorKind::Other
        }
    }

    /// The error for a failed response: status, body text (kept raw and as a
    /// snippet), the body as parsed by the caller, `Retry-After` read against
    /// the current time, and the request id.
    pub fn from_response(
        status: u16,
        text: &str,
        headers: Vec<(String, Vec<u8>)>,
        body: Option<ErrorBody>,
    ) -> (e: ApiError)
        ensures
            e.status == status,
            e.body == body,
            e.raw_body matches Some(r) && r@ == text@,
            match crate::retry::body_snippet_spec(text@) {
                Some(t) => e.body_snippet matches Some(s) && s@ == t,
                None => e.body_snippet is None,
            },
            match crate::error::header_one_spec(headers@, crate::retry::retry_after_name()) {
                None => e.retry_after is None,
                Some(raw) => exists|now: i128|
                    #[trigger] crate::retry::retry_after_spec(raw, now as int) == crate::retry::opt_nat(
                        e.retry_after,
                    ),
            },
            e.provider == ProviderKind::Anthropic,
            match request_id_spec(headers@) {
                Some(t) => e.request_id matches Some(s) && s@ == t,
                None => e.request_id is None,
            },
            e.headers@ == headers@,
    {
        let request_id = if has_header(&headers, "request-id") {
            crate::error::header_one(&headers, "request-id")
        } else {
            crate::error::header_one(&headers, "x-request-id")
        };
        let retry_after = crate::retry::retry_after_from_headers(&headers);
        ApiError {
            status,
            body,
            raw_body: Some(text.to_owned()),
            body_snippet: crate::retry::body_snippet(text),
            retry_after,
            provider: ProviderKind::Anthropic,
            request_id,
            headers,
        }
    }
}

} // verus!

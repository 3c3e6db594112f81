//! OpenAI error payloads and their classification.
use vstd::prelude::*;
use crate::error::ProviderKind;

verus! {

/// Inner error details.
#[derive(Debug, Clone)]
pub struct ErrorDetail {
    /// Machine-readable error code.
    pub code: Option<String>,
    /// Human-readable message.
    pub message: Option<String>,
    /// Parameter name when validation fails.
    pub param: Option<String>,
    /// Error type string from the API (`type`).
    pub type_: Option<String>,
}

/// Common OpenAI error JSON object.
#[derive(Debug, Clone)]
pub struct ErrorObject {
    /// Error envelope with nested fields.
    pub error: Option<ErrorDetail>,
}

/// Typed classification of HTTP failures.
#[derive(PartialEq, Eq, Debug, Clone, Copy, Structural)]
pub enum ApiErrorKind {
    /// 400
    BadRequest,
    /// 401
    Authentication,
    /// 403
    PermissionDenied,
    /// 404
    NotFound,
    /// 422
    UnprocessableEntity,
    /// 429
    RateLimit,
    /// >= 500
    InternalServerError,
    /// Other statuses.
    Other,
}

/// Classification of an HTTP status.
pub open spec fn kind_of(s: u16) -> ApiErrorKind {
    if s == 400 {
        ApiErrorKind::BadRequest
    } else if s == 401 {
        ApiErrorKind::Authentication
    } else if s == 403 {
        ApiErrorKind::PermissionDenied
    } else if s == 404 {
        ApiErrorKind::NotFound
    } else if s == 422 {
        ApiErrorKind::UnprocessableEntity
    } else if s == 429 {
        ApiErrorKind::RateLimit
    } else if s >= 500 {
        ApiErrorKind::InternalServerError
    } else {
        ApiErrorKind::Other
    }
}

/// Law: each documented status has a kind of its own, and every status
/// gets the kind documented for it (OpenAI).
pub proof fn lemma_kind_by_status(s: u16)
    ensures
        kind_of(s) == ApiErrorKind::BadRequest <==> s == 400,
        kind_of(s) == ApiErrorKind::Authentication <==> s == 401,
        kind_of(s) == ApiErrorKind::PermissionDenied <==> s == 403,
        kind_of(s) == ApiErrorKind::NotFound <==> s == 404,
        kind_of(s) == ApiErrorKind::UnprocessableEntity <==> s == 422,
        kind_of(s) == ApiErrorKind::RateLimit <==> s == 429,
        kind_of(s) == ApiErrorKind::InternalServerError <==> s >= 500,
        kind_of(s) == ApiErrorKind::Other <==> (s < 500 && s != 400 && s != 401 && s != 403 && s
            != 404 && s != 422 && s != 429),
{
}

/// Structured API error from OpenAI responses (4xx/5xx with body).
#[derive(Debug, Clone)]
pub struct ApiError {
    /// HTTP status code.
    pub status: u16,
    /// Parsed error payload when present.
    pub body: Option<ErrorObject>,
    /// Raw response body.
    pub raw_body: Option<String>,
    /// The first 512 characters of a non-empty body.
    pub body_snippet: Option<String>,
    /// Wait asked for by `Retry-After` (nanoseconds), when the response had
    /// one that could be read.
    pub retry_after: Option<u128>,
    /// Always [`ProviderKind::OpenAi`].
    pub provider: ProviderKind,
    /// `x-request-id` when present.
    pub request_id: Option<String>,
    /// Response headers (lowercase names, raw values).
    pub headers: Vec<(String, Vec<u8>)>,
}

impl ApiError {
    /// Classify by status code.
    pub fn kind(&self) -> (k: ApiErrorKind)
        ensures
            k == kind_of(self.status),
    {
        let s = self.status;
        if s == 400 {
            ApiErrorKind::BadRequest
        } else if s == 401 {
            ApiErrorKind::Authentication
        } else if s == 403 {
            ApiErrorKind::PermissionDenied
        } else if s == 404 {
            ApiErrorKind::NotFound
        } else if s == 422 {
            ApiErrorKind::UnprocessableEntity
        } else if s == 429 {
            ApiErrorKind::RateLimit
        } else if s >= 500 {
            ApiErrorKind::InternalServerError
        } else {
            ApiErrorKind::Other
        }
    }

    /// The error for a failed response: status, body text (kept raw and as a
    /// snippet), the body as parsed by the caller, `Retry-After` read against
    /// the current time, and `x-request-id`.
    pub fn from_response(
        status: u16,
        text: &str,
        headers: Vec<(String, Vec<u8>)>,
        body: Option<ErrorObject>,
    ) -> (e: ApiError)
        ensures
            e.status == status,
            e.body == body,
            e.raw_body matches Some(r) && r@ == text@,
            match crate::retry::body_snippet_spec(text@) {
                Some(t) => e.body_snippet matches Some(s) && s@ == t,
                None => e.body_snippet is None,
            },
            match crate::error::header_one_spec(headers@, crate::retry::retry_after_name()) {
                None => e.retry_after is None,
                Some(raw) => exists|now: i128|
                    #[trigger] crate::retry::retry_after_spec(raw, now as int) == crate::retry::opt_nat(
                        e.retry_after,
                    ),
            },
            e.provider == ProviderKind::OpenAi,
            match crate::error::header_one_spec(headers@, "x-request-id"@) {
                Some(t) => e.request_id matches Some(s) && s@ == t,
                None => e.request_id is None,
            },
            e.headers@ == headers@,
    {
        let request_id = crate::error::header_one(&headers, "x-request-id");
        let retry_after = crate::retry::retry_after_from_headers(&headers);
        ApiError {
            status,
            body,
            raw_body: Some(text.to_owned()),
            body_snippet: crate::retry::body_snippet(text),
            retry_after,
            provider: ProviderKind::OpenAi,
            request_id,
            headers,
        }
    }
}

} // verus!

//! Retry policy: which outcomes are retried, how long to wait, and the
//! decision taken after each attempt.
//!
//! Times are in nanoseconds.
use vstd::prelude::*;
use vstd::arithmetic::power2::pow2;
use crate::error::ProviderKind;
use crate::numbers::parse_u64_spec;
use crate::text::trim;

verus! {

pub open spec fn ns_per_ms() -> nat {
    1_000_000
}

pub open spec fn ns_per_s() -> nat {
    1_000_000_000
}

/// Statuses retried by default: 408, 409, 429 and every 5xx (Anthropic's 529
/// is among them).
pub open spec fn retry_status_spec(p: ProviderKind, status: u16) -> bool {
    status == 408 || status == 409 || status == 429 || status >= 500 || (p
        == ProviderKind::Anthropic && status == 529)
}

/// Default rule for whether a response status is retried.
pub fn retry_status(p: ProviderKind, status: u16) -> (r: bool)
    ensures
        r == retry_status_spec(p, status),
{
    match p {
        ProviderKind::OpenAi => status == 408 || status == 409 || status == 429 || status >= 500,
        ProviderKind::Anthropic => status == 408 || status == 409 || status == 429 || status
            == 529 || status >= 500,
    }
}

/// Exponential backoff in milliseconds: 50 ms × 2ⁿ⁻¹ for attempt n (attempt 0
/// counts as 1), never above 2 s.
pub open spec fn backoff_spec(attempt: u32) -> nat {
    let e: nat = if attempt == 0 { 0 } else { (attempt - 1) as nat };
    let ms = 50 * pow2(e);
    if ms < 2000 { ms } else { 2000 }
}

/// [`backoff_spec`], in milliseconds.
pub fn backoff(attempt: u32) -> (ms: u64)
    ensures
        ms == backoff_spec(attempt),
{
    let e: u32 = if attempt == 0 { 0 } else { attempt - 1 };
    proof {
        vstd::arithmetic::power2::lemma2_to64();
    }
    if e >= 6 {
        proof {
            if e > 6 {
                vstd::arithmetic::power2::lemma_pow2_strictly_increases(6, e as nat);
            }
        }
        2000
    } else {
        let p: u64 = if e == 0 { 1 } else if e == 1 { 2 } else if e == 2 { 4 } else if e == 3 {
            8
        } else if e == 4 {
            16
        } else {
            32
        };
        let ms = 50 * p;
        if ms < 2000 { ms } else { 2000 }
    }
}

/// First 512 characters of a non-empty body.
pub open spec fn body_snippet_spec(t: Seq<char>) -> Option<Seq<char>> {
    if t.len() == 0 {
        None
    } else {
        Some(t.take(if t.len() < 512 { t.len() as int } else { 512 }))
    }
}

/// Safe, length-capped excerpt of a response body.
pub fn body_snippet(text: &str) -> (r: Option<String>)
    ensures
        match body_snippet_spec(text@) {
            Some(t) => r matches Some(s) && s@ == t,
            None => r is None,
        },
{
    let cs = crate::text::chars_of(text);
    if cs.len() == 0 {
        return None;
    }
    let n = if cs.len() < 512 { cs.len() } else { 512 };
    let s = crate::text::string_from_range(&cs, 0, n);
    assert(cs@.subrange(0, n as int) =~= cs@.take(n as int));
    Some(s)
}

/// What an HTTP-date header value denotes, as whole seconds since the Unix
/// epoch (as `httpdate::parse_http_date` reads it).
pub uninterp spec fn spec_http_date_secs(s: Seq<char>) -> Option<u64>;

/// `httpdate::parse_http_date`, as seconds since the Unix epoch.
///
/// Claims only that the result is the value named by [`spec_http_date_secs`]
/// for this text: it depends on the text alone.
#[verifier::external_body]
fn http_date_secs(s: &str) -> (r: Option<u64>)
    ensures
        r == spec_http_date_secs(s@),
{
    match httpdate::parse_http_date(s) {
        Ok(t) => match t.duration_since(std::time::UNIX_EPOCH) {
            Ok(d) => Some(d.as_secs()),
            Err(_) => None,
        },
        Err(_) => None,
    }
}

/// Wait asked for by a `Retry-After` value read at time `now` (nanoseconds
/// since the epoch, negative before it): delta-seconds, or the time left
/// until an HTTP-date (zero once it has passed).
pub open spec fn retry_after_spec(raw: Seq<char>, now: int) -> Option<nat> {
    let t = trim(raw);
    if t.len() == 0 {
        None
    } else {
        match parse_u64_spec(t) {
            Some(secs) => Some((secs as nat) * ns_per_s()),
            None => match spec_http_date_secs(t) {
                Some(d) => Some(
                    if (d as nat) * ns_per_s() >= now {
                        ((d as nat) * ns_per_s() - now) as nat
                    } else {
                        0
                    },
                ),
                None => None,
            },
        }
    }
}

/// Parse a `Retry-After` header value as delta-seconds or HTTP-date
/// (RFC 9110); `now` is the current time in nanoseconds since the epoch
/// (negative before it).
pub fn parse_retry_after(raw: &str, now: i128) -> (r: Option<u128>)
    ensures
        r matches Some(v) ==> retry_after_spec(raw@, now as int) == Some(v as nat),
        r is None ==> retry_after_spec(raw@, now as int) is None,
{
    let cs = crate::text::chars_of(raw);
    let (a, b) = crate::text::trim_range(&cs, 0, cs.len());
    assert(cs@.subrange(0, cs@.len() as int) =~= cs@);
    if a == b {
        return None;
    }
    let t = crate::text::copy_range(&cs, a, b);
    match crate::numbers::parse_u64(&t) {
        Some(secs) => Some(secs as u128 * 1_000_000_000u128),
        None => {
            let ts = crate::text::string_from_chars(&t);
            match http_date_secs(ts.as_str()) {
                Some(d) => {
                    let at = d as u128 * 1_000_000_000u128;
                    if now < 0 {
                        let before: u128 = (-(now + 1)) as u128 + 1;
                        Some(at + before)
                    } else if at >= now as u128 {
                        Some(at - now as u128)
                    } else {
                        Some(0)
                    }
                },
                None => None,
            }
        },
    }
}

/// Wait before the next attempt: the server's `Retry-After` if any, else the
/// backoff for `attempt`; never more than `cap`.
pub open spec fn sleep_before_retry_spec(retry_after: Option<u128>, attempt: u32, cap: u128) -> nat {
    let want: nat = match retry_after {
        Some(v) => v as nat,
        None => backoff_spec(attempt) * ns_per_ms(),
    };
    if want < cap { want } else { cap as nat }
}

pub fn sleep_before_retry(retry_after: Option<u128>, attempt: u32, cap: u128) -> (d: u128)
    ensures
        d == sleep_before_retry_spec(retry_after, attempt, cap),
        d <= cap,
{
    let want: u128 = match retry_after {
        Some(v) => v,
        None => backoff(attempt) as u128 * 1_000_000u128,
    };
    if want < cap { want } else { cap }
}

/// What one attempt produced.
pub enum AttemptOutcome {
    /// An HTTP response. `custom_retry` is the verdict of a user-supplied rule
    /// for this response, if one is configured; `retry_after` is the parsed
    /// `Retry-After` header (nanoseconds).
    Response { status: u16, custom_retry: Option<bool>, retry_after: Option<u128> },
    /// The request failed before a response; `transient` marks timeouts,
    /// connection and request errors.
    Failure { transient: bool },
}

/// What to do after an attempt.
#[derive(PartialEq, Eq, Debug, Clone, Copy, Structural)]
pub enum RetryDecision {
    /// Wait this many nanoseconds, then send again.
    Retry(u128),
    /// Hand the outcome to the caller.
    Stop,
}

/// Whether the outcome asks for another attempt.
pub open spec fn wants_retry(p: ProviderKind, o: AttemptOutcome) -> bool {
    match o {
        AttemptOutcome::Response { status, custom_retry, .. } => match custom_retry {
            Some(b) => b,
            None => retry_status_spec(p, status),
        },
        AttemptOutcome::Failure { transient } => transient,
    }
}

/// Wait before retrying after this outcome, for the attempt numbered `n`.
pub open spec fn retry_delay(o: AttemptOutcome, n: u32, cap: u128) -> nat {
    match o {
        AttemptOutcome::Response { retry_after, .. } => sleep_before_retry_spec(retry_after, n, cap),
        AttemptOutcome::Failure { .. } => sleep_before_retry_spec(None, n, cap),
    }
}

/// Retry bookkeeping for one request.
#[derive(Clone, Copy)]
pub struct RetryState {
    /// Retries made so far.
    pub attempt: u32,
    /// Maximum retries after the first attempt.
    pub max_retries: u32,
    /// Ceiling on any wait (nanoseconds).
    pub cap: u128,
    pub provider: ProviderKind,
}

/// The bookkeeping and the decision after outcome `o`: a retry, with its
/// wait, while retries remain and the outcome asks for one; else stop.
pub open spec fn decide_spec(s: RetryState, o: AttemptOutcome) -> (RetryState, RetryDecision) {
    if s.attempt < s.max_retries && wants_retry(s.provider, o) {
        (
            RetryState {
                attempt: (s.attempt + 1) as u32,
                max_retries: s.max_retries,
                cap: s.cap,
                provider: s.provider,
            },
            RetryDecision::Retry(retry_delay(o, (s.attempt + 1) as u32, s.cap) as u128),
        )
    } else {
        (s, RetryDecision::Stop)
    }
}

/// Number of retries taken when the attempts of one request end in
/// `outcomes`, one after another, until the first decision to stop.
pub open spec fn retries_taken(s: RetryState, outcomes: Seq<AttemptOutcome>) -> nat
    decreases outcomes.len(),
{
    if outcomes.len() == 0 {
        0
    } else {
        let (next, d) = decide_spec(s, outcomes[0]);
        match d {
            RetryDecision::Retry(_) => 1 + retries_taken(next, outcomes.drop_first()),
            RetryDecision::Stop => 0,
        }
    }
}

/// A request is retried at most `max_retries` times, whatever its attempts
/// end in: from any valid bookkeeping, the retries still taken never exceed
/// the retries left.
pub proof fn lemma_retries_bounded(s: RetryState, outcomes: Seq<AttemptOutcome>)
    requires
        s.wf(),
    ensures
        retries_taken(s, outcomes) <= s.max_retries - s.attempt,
    decreases outcomes.len(),
{
    if outcomes.len() > 0 {
        let (next, d) = decide_spec(s, outcomes[0]);
        if d is Retry {
            lemma_retries_bounded(next, outcomes.drop_first());
        }
    }
}

/// Law: by default every server error (a status from 500 on) is retried,
/// for both providers, and so are 408, 409 and 429; every other status
/// below 500 is not.
pub proof fn lemma_default_retry_rule(p: ProviderKind, status: u16)
    ensures
        status >= 500 ==> retry_status_spec(p, status),
        (status == 408 || status == 409 || status == 429) ==> retry_status_spec(p, status),
        (status < 500 && status != 408 && status != 409 && status != 429) ==> !retry_status_spec(
            p,
            status,
        ),
{
}

/// Law: while retries remain, a server error (500 and up) that no custom
/// rule judges is retried after the backoff for the next attempt, capped;
/// once none remain, any outcome stops the request.
pub proof fn lemma_server_error_is_retried(s: RetryState, status: u16)
    requires
        s.wf(),
        status >= 500,
    ensures
        s.attempt < s.max_retries ==> decide_spec(
            s,
            AttemptOutcome::Response { status, custom_retry: None, retry_after: None },
        ) == (
            RetryState { attempt: (s.attempt + 1) as u32, ..s },
            RetryDecision::Retry(
                (if backoff_spec((s.attempt + 1) as u32) * ns_per_ms() < s.cap {
                    backoff_spec((s.attempt + 1) as u32) * ns_per_ms()
                } else {
                    s.cap as nat
                }) as u128,
            ),
        ),
        s.attempt == s.max_retries ==> forall|o: AttemptOutcome|
            #[trigger] decide_spec(s, o) == (s, RetryDecision::Stop),
{
}

impl RetryState {
    pub open spec fn wf(&self) -> bool {
        self.attempt <= self.max_retries
    }

    /// Bookkeeping before the first attempt.
    pub fn new(max_retries: u32, cap: u128, provider: ProviderKind) -> (s: Self)
        ensures
            s.wf(),
            s.attempt == 0,
            s.max_retries == max_retries,
            s.cap == cap,
            s.provider == provider,
    {
        RetryState { attempt: 0, max_retries, cap, provider }
    }

    /// Decision after an attempt. A retry is taken only while retries remain
    /// and the outcome asks for one; its wait never exceeds the cap.
    pub fn decide(&mut self, o: AttemptOutcome) -> (d: RetryDecision)
        requires
            old(self).wf(),
        ensures
            final(self).wf(),
            final(self).max_retries == old(self).max_retries,
            final(self).cap == old(self).cap,
            final(self).provider == old(self).provider,
            (old(self).attempt < old(self).max_retries && wants_retry(old(self).provider, o)) ==> {
                &&& d == RetryDecision::Retry(
                    retry_delay(o, (old(self).attempt + 1) as u32, old(self).cap) as u128,
                )
                &&& final(self).attempt == old(self).attempt + 1
            },
            !(old(self).attempt < old(self).max_retries && wants_retry(old(self).provider, o)) ==> {
                &&& d == RetryDecision::Stop
                &&& final(self).attempt == old(self).attempt
            },
            d matches RetryDecision::Retry(w) ==> w <= old(self).cap,
            (*final(self), d) == decide_spec(*old(self), o),
    {
        let retry = match &o {
            AttemptOutcome::Response { status, custom_retry, .. } => match custom_retry {
                Some(b) => *b,
                None => retry_status(self.provider, *status),
            },
            AttemptOutcome::Failure { transient } => *transient,
        };
        if self.attempt < self.max_retries && retry {
            let n = self.attempt + 1;
            let w = match &o {
                AttemptOutcome::Response { retry_after, .. } => sleep_before_retry(
                    *retry_after,
                    n,
                    self.cap,
                ),
                AttemptOutcome::Failure { .. } => sleep_before_retry(None, n, self.cap),
            };
            self.attempt = n;
            RetryDecision::Retry(w)
        } else {
            RetryDecision::Stop
        }
    }
}

} // verus!

verus! {

/// An optional `u128` as an optional natural number.
pub open spec fn opt_nat(o: Option<u128>) -> Option<nat> {
    match o {
        Some(v) => Some(v as nat),
        None => None,
    }
}

/// Name of the `Retry-After` header.
pub open spec fn retry_after_name() -> Seq<char> {
    seq!['r', 'e', 't', 'r', 'y', '-', 'a', 'f', 't', 'e', 'r']
}

/// The wait (nanoseconds) asked for by the `Retry-After` header of a
/// response, read against the current time; nothing when the header is
/// absent, not text, or not understood. The clock may read before the
/// epoch; readings beyond what an `i128` of nanoseconds holds are clamped.
pub fn retry_after_from_headers(headers: &Vec<(String, Vec<u8>)>) -> (r: Option<u128>)
    ensures
        match crate::error::header_one_spec(headers@, retry_after_name()) {
            None => r is None,
            Some(raw) => exists|now: i128| #[trigger] retry_after_spec(raw, now as int) == opt_nat(r),
        },
{
    proof {
        reveal_strlit("retry-after");
        assert("retry-after"@ =~= retry_after_name());
    }
    let raw = match crate::error::header_one(headers, "retry-after") {
        None => {
            return None;
        },
        Some(raw) => raw,
    };
    let clock = crate::clock::system_time_now();
    let now: i128 = match crate::clock::nanos_since_epoch(&clock) {
        Some(n) => if n > i128::MAX as u128 {
            i128::MAX
        } else {
            n as i128
        },
        None => match crate::clock::nanos_before_epoch(&clock) {
            Some(b) => if b > i128::MAX as u128 {
                i128::MIN
            } else {
                -(b as i128)
            },
            None => 0,
        },
    };
    let r = parse_retry_after(raw.as_str(), now);
    assert(retry_after_spec(raw@, now as int) == opt_nat(r));
    r
}

} // verus!

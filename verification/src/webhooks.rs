//! Webhook signature checks for the `t=<unix>,v1=<hex(hmac)>` scheme: the
//! header carries a timestamp and an HMAC-SHA256 (keyed by the webhook
//! secret) of `"{t}.{body}"`, hex encoded.
use vstd::prelude::*;
use hmac::Mac;
use subtle::ConstantTimeEq;
use crate::error::header_one_spec;
use crate::numbers::{decimal, decimal_int, parse_i64_spec};
use crate::text::trim;
use vstd::utf8::encode_utf8;

verus! {

/// How far (in seconds) a signature's timestamp may lie from the current time.
pub const TOLERANCE_SECS: i64 = 300;

/// Why a webhook delivery was refused.
#[derive(PartialEq, Eq, Debug, Clone, Copy, Structural)]
pub enum WebhookError {
    /// No webhook secret was configured on the client.
    SecretNotConfigured,
    /// The `openai-signature` header is absent or is not text.
    MissingSignatureHeader,
    /// The header has no usable `t=` entry.
    MissingTimestamp,
    /// The header has no usable `v1=` entry.
    MissingSignature,
    /// The system clock reads earlier than the Unix epoch.
    ClockBeforeEpoch,
    /// The timestamp is more than [`TOLERANCE_SECS`] away from now.
    TimestampSkew,
    /// The signature does not match the body.
    InvalidSignature,
}

impl WebhookError {
    /// The error text.
    pub fn message(&self) -> (s: String)
        ensures
            s@ == match *self {
                WebhookError::SecretNotConfigured => "webhook_secret not configured"@,
                WebhookError::MissingSignatureHeader => "missing openai-signature header"@,
                WebhookError::MissingTimestamp => "missing timestamp in signature"@,
                WebhookError::MissingSignature => "missing v1 signature"@,
                WebhookError::ClockBeforeEpoch => "second time provided was later than self"@,
                WebhookError::TimestampSkew => "signature timestamp skew too large"@,
                WebhookError::InvalidSignature => "invalid webhook signature"@,
            },
    {
        match self {
            WebhookError::SecretNotConfigured => String::from_str("webhook_secret not configured"),
            WebhookError::MissingSignatureHeader => String::from_str(
                "missing openai-signature header",
            ),
            WebhookError::MissingTimestamp => String::from_str("missing timestamp in signature"),
            WebhookError::MissingSignature => String::from_str("missing v1 signature"),
            WebhookError::ClockBeforeEpoch => String::from_str(
                "second time provided was later than self",
            ),
            WebhookError::TimestampSkew => String::from_str("signature timestamp skew too large"),
            WebhookError::InvalidSignature => String::from_str("invalid webhook signature"),
        }
    }
}

/// `s.split(sep)`: the pieces between separators (there is always at least one).
pub open spec fn split_on(s: Seq<char>, sep: char) -> Seq<Seq<char>>
    decreases s.len(),
{
    if s.len() == 0 {
        seq![Seq::<char>::empty()]
    } else {
        let init = split_on(s.drop_last(), sep);
        if s.last() == sep {
            init.push(Seq::<char>::empty())
        } else {
            init.update(init.len() - 1, init.last().push(s.last()))
        }
    }
}

/// Index of the first `c` in `s`.
pub open spec fn find_char(s: Seq<char>, c: char) -> Option<int>
    decreases s.len(),
{
    if s.len() == 0 {
        None
    } else if s[0] == c {
        Some(0)
    } else {
        match find_char(s.drop_first(), c) {
            Some(i) => Some(i + 1),
            None => None,
        }
    }
}

proof fn lemma_find_char_found(s: Seq<char>, c: char)
    ensures
        find_char(s, c) matches Some(i) ==> 0 <= i < s.len() && s[i] == c,
    decreases s.len(),
{
    if s.len() > 0 && s[0] != c {
        lemma_find_char_found(s.drop_first(), c);
    }
}

/// One `key=value` entry: both sides trimmed; without `=` the value is empty.
pub open spec fn key_value(piece: Seq<char>) -> (Seq<char>, Seq<char>) {
    let t = trim(piece);
    match find_char(t, '=') {
        Some(e) => (trim(t.take(e)), trim(t.skip(e + 1))),
        None => (trim(t), Seq::<char>::empty()),
    }
}

pub open spec fn is_hex_digit(c: char) -> bool {
    ('0' <= c && c <= '9') || ('a' <= c && c <= 'f') || ('A' <= c && c <= 'F')
}

pub open spec fn hex_value(c: char) -> int {
    if '0' <= c && c <= '9' {
        c as int - '0' as int
    } else if 'a' <= c && c <= 'f' {
        c as int - 'a' as int + 10
    } else {
        c as int - 'A' as int + 10
    }
}

/// Hex decoding: an even number of hex digits (either case), two per byte,
/// high nibble first.
pub open spec fn hex_decode_spec(s: Seq<char>) -> Option<Seq<u8>> {
    if s.len() % 2 == 0 && forall|i: int| 0 <= i < s.len() ==> is_hex_digit(#[trigger] s[i]) {
        Some(Seq::new((s.len() / 2) as nat, |i: int| (hex_value(s[2 * i]) * 16 + hex_value(s[2 * i + 1])) as u8))
    } else {
        None
    }
}

/// Options of byte vectors, seen as options of sequences.
pub open spec fn bytes_opt(o: Option<Vec<u8>>) -> Option<Seq<u8>> {
    match o {
        Some(v) => Some(v@),
        None => None,
    }
}

/// Effect of one header entry on the (timestamp, signature) found so far: a
/// later `t` or `v1` entry replaces an earlier one, also when it does not parse.
pub open spec fn sig_step(acc: (Option<i64>, Option<Seq<u8>>), piece: Seq<char>) -> (Option<i64>, Option<Seq<u8>>) {
    let kv = key_value(piece);
    if kv.0 == seq!['t'] {
        (parse_i64_spec(kv.1), acc.1)
    } else if kv.0 == seq!['v', '1'] {
        (acc.0, hex_decode_spec(kv.1))
    } else {
        acc
    }
}

pub open spec fn fields_of(pieces: Seq<Seq<char>>) -> (Option<i64>, Option<Seq<u8>>)
    decreases pieces.len(),
{
    if pieces.len() == 0 {
        (None, None)
    } else {
        sig_step(fields_of(pieces.drop_last()), pieces.last())
    }
}

/// Timestamp and signature bytes named by a signature header.
pub open spec fn signature_fields(header: Seq<char>) -> (Option<i64>, Option<Seq<u8>>) {
    fields_of(split_on(header, ','))
}

/// HMAC-SHA256 of `message` under `key`.
pub uninterp spec fn spec_hmac_sha256(key: Seq<u8>, message: Seq<u8>) -> Seq<u8>;

/// The text that is signed: `"{ts}.{body}"`.
pub open spec fn signed_payload(ts: i64, body: Seq<char>) -> Seq<char> {
    decimal_int(ts as int) + seq!['.'] + body
}

/// The signature a delivery of `body` at `ts` carries under `secret`.
pub open spec fn expected_tag(secret: Seq<char>, ts: i64, body: Seq<char>) -> Seq<u8> {
    spec_hmac_sha256(encode_utf8(secret), encode_utf8(signed_payload(ts, body)))
}

pub open spec fn skew_too_large(now: int, ts: int) -> bool {
    now - ts > TOLERANCE_SECS || ts - now > TOLERANCE_SECS
}

/// Outcome of checking a parsed timestamp and signature at time `now`.
pub open spec fn check_spec(secret: Seq<char>, body: Seq<char>, ts: i64, v1: Seq<u8>, now: i64) -> Result<(), WebhookError> {
    if skew_too_large(now as int, ts as int) {
        Err(WebhookError::TimestampSkew)
    } else if expected_tag(secret, ts, body) != v1 {
        Err(WebhookError::InvalidSignature)
    } else {
        Ok(())
    }
}

/// Outcome of verifying `body` against a signature header at time `now`.
pub open spec fn verify_spec(secret: Seq<char>, body: Seq<char>, header: Seq<char>, now: i64) -> Result<(), WebhookError> {
    let f = signature_fields(header);
    match f.0 {
        None => Err(WebhookError::MissingTimestamp),
        Some(ts) => match f.1 {
            None => Err(WebhookError::MissingSignature),
            Some(v1) => check_spec(secret, body, ts, v1, now),
        },
    }
}

/// Name of the signature header.
pub open spec fn signature_header_name() -> Seq<char> {
    seq!['o', 'p', 'e', 'n', 'a', 'i', '-', 's', 'i', 'g', 'n', 'a', 't', 'u', 'r', 'e']
}

} // verus!

verus! {

/// `hex::decode`: the bytes written by an even number of hex digits;
/// anything else is refused.
#[verifier::external_body]
fn hex_decode(s: &str) -> (r: Option<Vec<u8>>)
    ensures
        bytes_opt(r) == hex_decode_spec(s@),
{
    hex::decode(s).ok()
}

/// `Hmac::<Sha256>::new_from_slice(key)`, then `update(message)` and
/// `finalize`: the 32-byte HMAC-SHA256 tag. `new_from_slice` accepts keys of
/// every length for HMAC, so the result is always present.
#[verifier::external_body]
fn hmac_sha256(key: &[u8], message: &[u8]) -> (r: Option<Vec<u8>>)
    ensures
        r is Some,
        r.unwrap()@ == spec_hmac_sha256(key@, message@),
        r.unwrap()@.len() == 32,
{
    match <hmac::Hmac<sha2::Sha256> as Mac>::new_from_slice(key) {
        Ok(mut mac) => {
            mac.update(message);
            Some(mac.finalize().into_bytes().to_vec())
        },
        Err(_) => None,
    }
}

/// `u8::ct_eq` from `subtle`: byte equality, computed in constant time.
#[verifier::external_body]
fn ct_eq_byte(a: u8, b: u8) -> (r: bool)
    ensures
        r == (a == b),
{
    bool::from(a.ct_eq(&b))
}

} // verus!

verus! {

/// Index of the first `c` in `cs[from..to]`.
fn find_in(cs: &Vec<char>, from: usize, to: usize, c: char) -> (r: Option<usize>)
    requires
        from <= to <= cs.len(),
    ensures
        match find_char(cs@.subrange(from as int, to as int), c) {
            Some(i) => r matches Some(e) && e == from + i,
            None => r is None,
        },
        r matches Some(e) ==> from <= e < to && cs@[e as int] == c,
{
    proof {
        lemma_find_char_found(cs@.subrange(from as int, to as int), c);
    }
    let mut i = from;
    while i < to
        invariant
            from <= i <= to <= cs.len(),
            find_char(cs@.subrange(from as int, to as int), c) == match find_char(
                cs@.subrange(i as int, to as int),
                c,
            ) {
                Some(k) => Some(k + (i - from)),
                None => None,
            },
        decreases to - i,
    {
        assert(cs@.subrange(i as int, to as int).drop_first() =~= cs@.subrange(i + 1, to as int));
        if cs[i] == c {
            return Some(i);
        }
        i = i + 1;
    }
    None
}

/// Effect of the entry `cs[from..to]` (see [`sig_step`]).
fn apply_piece(
    cs: &Vec<char>,
    from: usize,
    to: usize,
    ts: Option<i64>,
    v1: Option<Vec<u8>>,
) -> (r: (Option<i64>, Option<Vec<u8>>))
    requires
        from <= to <= cs.len(),
    ensures
        (r.0, bytes_opt(r.1)) == sig_step((ts, bytes_opt(v1)), cs@.subrange(from as int, to as int)),
{
    let ghost piece = cs@.subrange(from as int, to as int);
    let (a, b) = crate::text::trim_range(cs, from, to);
    let ghost t = cs@.subrange(a as int, b as int);
    let (ka, kb, va, vb) = match find_in(cs, a, b, '=') {
        Some(e) => {
            assert(t.take(e - a) =~= cs@.subrange(a as int, e as int));
            assert(t.skip(e - a + 1) =~= cs@.subrange(e + 1, b as int));
            let (ka, kb) = crate::text::trim_range(cs, a, e);
            let (va, vb) = crate::text::trim_range(cs, e + 1, b);
            assert(trim(piece) == t);
            assert(find_char(t, '=') == Some(e - a));
            assert(key_value(piece) == (cs@.subrange(ka as int, kb as int), cs@.subrange(
                va as int,
                vb as int,
            )));
            (ka, kb, va, vb)
        },
        None => {
            let (ka, kb) = crate::text::trim_range(cs, a, b);
            assert(cs@.subrange(b as int, b as int) =~= Seq::<char>::empty());
            assert(key_value(piece) == (cs@.subrange(ka as int, kb as int), cs@.subrange(
                b as int,
                b as int,
            )));
            (ka, kb, b, b)
        },
    };
    let ghost k = cs@.subrange(ka as int, kb as int);
    if kb - ka == 1 && cs[ka] == 't' {
        assert(k =~= seq!['t']);
        let digits = crate::text::copy_range(cs, va, vb);
        (crate::numbers::parse_i64(&digits), v1)
    } else if kb - ka == 2 && cs[ka] == 'v' && cs[ka + 1] == '1' {
        assert(k =~= seq!['v', '1']);
        let text = crate::text::string_from_range(cs, va, vb);
        (ts, hex_decode(text.as_str()))
    } else {
        proof {
            if k == seq!['t'] {
                assert(k.len() == 1);
                assert(k[0] == cs@[ka as int]);
                assert(false);
            }
            if k == seq!['v', '1'] {
                assert(k.len() == 2);
                assert(k[0] == cs@[ka as int]);
                assert(k[1] == cs@[ka + 1]);
                assert(false);
            }
        }
        (ts, v1)
    }
}

/// The timestamp (`t=`) and signature bytes (`v1=`, hex) of a signature
/// header: entries are separated by `,`, a later entry replaces an earlier
/// one of the same key, and entries that do not parse leave the field empty.
pub fn parse_signature_header(header: &str) -> (r: (Option<i64>, Option<Vec<u8>>))
    ensures
        (r.0, bytes_opt(r.1)) == signature_fields(header@),
{
    let cs = crate::text::chars_of(header);
    let mut ts: Option<i64> = None;
    let mut v1: Option<Vec<u8>> = None;
    let mut start: usize = 0;
    let mut i: usize = 0;
    let ghost mut done: Seq<Seq<char>> = Seq::empty();
    assert(cs@.take(0) =~= Seq::<char>::empty());
    assert(cs@.subrange(0, 0) =~= Seq::<char>::empty());
    while i < cs.len()
        invariant
            start <= i <= cs.len(),
            cs@ == header@,
            split_on(cs@.take(i as int), ',') =~= done.push(cs@.subrange(start as int, i as int)),
            (ts, bytes_opt(v1)) == fields_of(done),
        decreases cs.len() - i,
    {
        let ghost pre = cs@.take(i as int);
        assert(cs@.take(i + 1).drop_last() =~= pre);
        assert(cs@.take(i + 1).last() == cs@[i as int]);
        if cs[i] == ',' {
            let r = apply_piece(&cs, start, i, ts, v1);
            ts = r.0;
            v1 = r.1;
            proof {
                let piece = cs@.subrange(start as int, i as int);
                assert(done.push(piece).drop_last() =~= done);
                done = done.push(piece);
                assert(cs@.subrange(i + 1, i + 1) =~= Seq::<char>::empty());
            }
            start = i + 1;
        } else {
            proof {
                assert(cs@.subrange(start as int, i as int).push(cs@[i as int]) =~= cs@.subrange(
                    start as int,
                    i + 1,
                ));
            }
        }
        i = i + 1;
    }
    let r = apply_piece(&cs, start, cs.len(), ts, v1);
    proof {
        let piece = cs@.subrange(start as int, cs@.len() as int);
        assert(cs@.take(cs@.len() as int) =~= cs@);
        assert(done.push(piece).drop_last() =~= done);
    }
    r
}

/// Whether two equally long byte strings are equal, comparing every byte
/// in constant time.
fn tags_equal(a: &Vec<u8>, b: &Vec<u8>) -> (r: bool)
    requires
        a.len() == b.len(),
    ensures
        r == (a@ == b@),
{
    let mut ok = true;
    let mut i: usize = 0;
    while i < a.len()
        invariant
            a.len() == b.len(),
            i <= a.len(),
            ok == (forall|k: int| 0 <= k < i ==> a@[k] == b@[k]),
        decreases a.len() - i,
    {
        let same = ct_eq_byte(a[i], b[i]);
        ok = ok && same;
        i = i + 1;
    }
    if ok {
        assert(a@ =~= b@);
    }
    ok
}

/// Checks a parsed timestamp and signature at time `now` (seconds since the
/// epoch): the timestamp must lie within [`TOLERANCE_SECS`] of `now`, and the
/// signature must be the HMAC-SHA256 of `"{ts}.{body}"` under `secret`.
pub fn check_signature(secret: &str, body: &str, ts: i64, v1: &Vec<u8>, now: i64) -> (r: Result<(), WebhookError>)
    ensures
        r == check_spec(secret@, body@, ts, v1@, now),
{
    let diff: i128 = now as i128 - ts as i128;
    if diff > 300 || diff < -300 {
        return Err(WebhookError::TimestampSkew);
    }
    let mut payload = crate::numbers::i64_to_string(ts);
    crate::text::string_push(&mut payload, '.');
    payload.append(body);
    assert(payload@ =~= signed_payload(ts, body@));
    let tag = match hmac_sha256(secret.as_bytes(), payload.as_str().as_bytes()) {
        Some(t) => t,
        None => {
            return Err(WebhookError::InvalidSignature);
        },
    };
    if tag.len() != v1.len() {
        return Err(WebhookError::InvalidSignature);
    }
    if !tags_equal(&tag, v1) {
        return Err(WebhookError::InvalidSignature);
    }
    Ok(())
}

/// Verifies `body` against the signature header text `header` at time `now`
/// (seconds since the epoch).
pub fn verify_signature_at(secret: &str, body: &str, header: &str, now: i64) -> (r: Result<(), WebhookError>)
    ensures
        r == verify_spec(secret@, body@, header@, now),
{
    let (ts, v1) = parse_signature_header(header);
    match ts {
        None => Err(WebhookError::MissingTimestamp),
        Some(t) => match v1 {
            None => Err(WebhookError::MissingSignature),
            Some(sig) => check_signature(secret, body, t, &sig, now),
        },
    }
}

/// Webhook utilities of a client.
pub struct WebhooksClient {
    /// The signing secret configured on the client.
    pub secret: Option<String>,
}

impl WebhooksClient {
    /// Webhook helpers using `secret`.
    pub fn new(secret: Option<String>) -> (c: WebhooksClient)
        ensures
            c.secret == secret,
    {
        WebhooksClient { secret }
    }

    /// Verifies the `openai-signature` header of a delivery against its raw
    /// body, at the current time.
    pub fn verify_signature(&self, body: &str, headers: &Vec<(String, Vec<u8>)>) -> (r: Result<(), WebhookError>)
        ensures
            match self.secret {
                None => r == Err::<(), WebhookError>(WebhookError::SecretNotConfigured),
                Some(s) => match header_one_spec(headers@, signature_header_name()) {
                    None => r == Err::<(), WebhookError>(WebhookError::MissingSignatureHeader),
                    Some(h) => {
                        let f = signature_fields(h);
                        if f.0 is None {
                            r == Err::<(), WebhookError>(WebhookError::MissingTimestamp)
                        } else if f.1 is None {
                            r == Err::<(), WebhookError>(WebhookError::MissingSignature)
                        } else {
                            r == Err::<(), WebhookError>(WebhookError::ClockBeforeEpoch) || exists|now: i64|
                                #[trigger] check_spec(s@, body@, f.0->0, f.1->0, now) == r
                        }
                    },
                },
            },
    {
        let secret = match &self.secret {
            None => {
                return Err(WebhookError::SecretNotConfigured);
            },
            Some(s) => s,
        };
        proof {
            reveal_strlit("openai-signature");
            assert("openai-signature"@ =~= signature_header_name());
        }
        let header = match crate::error::header_one(headers, "openai-signature") {
            None => {
                return Err(WebhookError::MissingSignatureHeader);
            },
            Some(h) => h,
        };
        let (ts, v1) = parse_signature_header(header.as_str());
        if ts.is_none() {
            return Err(WebhookError::MissingTimestamp);
        }
        if v1.is_none() {
            return Err(WebhookError::MissingSignature);
        }
        let clock = crate::clock::system_time_now();
        let now = match crate::clock::secs_since_epoch(&clock) {
            None => {
                return Err(WebhookError::ClockBeforeEpoch);
            },
            Some(n) => #[verifier::truncate] (n as i64),
        };
        let r = verify_signature_at(secret.as_str(), body, header.as_str(), now);
        assert(header_one_spec(headers@, signature_header_name()) == Some(header@));
        assert(self.secret == Some(*secret));
        let ghost f = signature_fields(header_one_spec(headers@, signature_header_name())->0);
        assert(check_spec(self.secret->0@, body@, f.0->0, f.1->0, now) == r);
        r
    }
}

} // verus!

verus! {

/// Lowercase hex digit of a nibble.
pub open spec fn hex_digit_char(d: int) -> char {
    if d < 10 {
        (d + '0' as int) as char
    } else {
        (d - 10 + 'a' as int) as char
    }
}

/// Lowercase hex text of bytes (as `hex::encode` writes it).
pub open spec fn hex_lower(b: Seq<u8>) -> Seq<char> {
    Seq::new(
        2 * b.len(),
        |i: int|
            if i % 2 == 0 {
                hex_digit_char(b[i / 2] as int / 16)
            } else {
                hex_digit_char(b[i / 2] as int % 16)
            },
    )
}

/// The header `t={ts},v1={hex(tag)}`.
pub open spec fn signature_header(ts: i64, tag: Seq<u8>) -> Seq<char> {
    seq!['t', '='] + decimal_int(ts as int) + seq![',', 'v', '1', '='] + hex_lower(tag)
}

pub open spec fn has_no(s: Seq<char>, c: char) -> bool {
    forall|i: int| 0 <= i < s.len() ==> s[i] != c
}

proof fn lemma_split_nonempty(s: Seq<char>, sep: char)
    ensures
        split_on(s, sep).len() >= 1,
    decreases s.len(),
{
    if s.len() > 0 {
        lemma_split_nonempty(s.drop_last(), sep);
    }
}

proof fn lemma_split_no_sep(s: Seq<char>, sep: char)
    requires
        has_no(s, sep),
    ensures
        split_on(s, sep) == seq![s],
    decreases s.len(),
{
    if s.len() > 0 {
        lemma_split_no_sep(s.drop_last(), sep);
        assert(s[s.len() - 1] != sep);
        assert(s.drop_last().push(s.last()) =~= s);
        assert(split_on(s, sep) =~= seq![s]);
    } else {
        assert(s =~= Seq::<char>::empty());
    }
}

/// Splitting at a separator splits the two sides separately.
proof fn lemma_split_concat(a: Seq<char>, b: Seq<char>, sep: char)
    ensures
        split_on(a + seq![sep] + b, sep) == split_on(a, sep) + split_on(b, sep),
    decreases b.len(),
{
    let s = a + seq![sep] + b;
    if b.len() == 0 {
        assert(s.drop_last() =~= a);
        assert(split_on(a, sep) + split_on(b, sep) =~= split_on(a, sep).push(Seq::<char>::empty()));
    } else {
        let b0 = b.drop_last();
        lemma_split_concat(a, b0, sep);
        lemma_split_nonempty(b0, sep);
        assert(s.drop_last() =~= a + seq![sep] + b0);
        let x = split_on(a, sep);
        let y = split_on(b0, sep);
        if b.last() == sep {
            assert((x + y).push(Seq::<char>::empty()) =~= x + y.push(Seq::<char>::empty()));
        } else {
            assert((x + y).last() == y.last());
            assert((x + y).update((x + y).len() - 1, y.last().push(b.last())) =~= x + y.update(
                y.len() - 1,
                y.last().push(b.last()),
            ));
        }
    }
}

proof fn lemma_trim_same(s: Seq<char>)
    requires
        s.len() > 0 ==> !crate::text::is_ws(s[0]) && !crate::text::is_ws(s.last()),
    ensures
        trim(s) == s,
{
}

proof fn lemma_decimal_shape(n: i64)
    ensures
        decimal_int(n as int).len() > 0,
        !crate::text::is_ws(decimal_int(n as int)[0]),
        !crate::text::is_ws(decimal_int(n as int).last()),
        has_no(decimal_int(n as int), ','),
        has_no(decimal_int(n as int), '='),
{
    let d = decimal_int(n as int);
    if n < 0 {
        let m = (0 - n) as nat;
        crate::numbers::lemma_decimal_digits(m);
        assert(d.last() == decimal(m).last());
        assert forall|i: int| 0 <= i < d.len() implies d[i] != ',' && d[i] != '=' by {
            if i > 0 {
                assert(d[i] == decimal(m)[i - 1]);
                assert(crate::numbers::is_digit(decimal(m)[i - 1]));
            }
        }
    } else {
        crate::numbers::lemma_decimal_digits(n as nat);
        assert(crate::numbers::is_digit(d[0]));
        assert(crate::numbers::is_digit(d.last()));
        assert forall|i: int| 0 <= i < d.len() implies d[i] != ',' && d[i] != '=' by {
            assert(crate::numbers::is_digit(d[i]));
        }
    }
}

proof fn lemma_hex_digit(d: int)
    requires
        0 <= d < 16,
    ensures
        is_hex_digit(hex_digit_char(d)),
        hex_value(hex_digit_char(d)) == d,
{
}

proof fn lemma_hex_shape(b: Seq<u8>)
    ensures
        has_no(hex_lower(b), ','),
        has_no(hex_lower(b), '='),
        hex_lower(b).len() > 0 ==> !crate::text::is_ws(hex_lower(b)[0]) && !crate::text::is_ws(
            hex_lower(b).last(),
        ),
{
    let h = hex_lower(b);
    assert forall|i: int| 0 <= i < h.len() implies #[trigger] h[i] != ',' && h[i] != '=' by {
        lemma_hex_digit(b[i / 2] as int / 16);
        lemma_hex_digit(b[i / 2] as int % 16);
    }
    if h.len() > 0 {
        lemma_hex_digit(b[0] as int / 16);
        lemma_hex_digit(b[(h.len() - 1) / 2] as int % 16);
    }
}

proof fn lemma_hex_roundtrip(b: Seq<u8>)
    ensures
        hex_decode_spec(hex_lower(b)) == Some(b),
{
    let h = hex_lower(b);
    assert forall|i: int| 0 <= i < h.len() implies is_hex_digit(#[trigger] h[i]) by {
        lemma_hex_digit(b[i / 2] as int / 16);
        lemma_hex_digit(b[i / 2] as int % 16);
    }
    assert(h.len() % 2 == 0);
    let back = Seq::new(
        (h.len() / 2) as nat,
        |i: int| (hex_value(h[2 * i]) * 16 + hex_value(h[2 * i + 1])) as u8,
    );
    assert forall|i: int| 0 <= i < b.len() implies back[i] == b[i] by {
        lemma_hex_digit(b[i] as int / 16);
        lemma_hex_digit(b[i] as int % 16);
        assert((2 * i) / 2 == i);
        assert((2 * i + 1) / 2 == i);
        assert((2 * i) % 2 == 0);
        assert((2 * i + 1) % 2 == 1);
    }
    assert(back =~= b);
}

/// The timestamp entry `t={ts}` reads as key `t` and the digits of `ts`.
proof fn lemma_timestamp_entry(ts: i64)
    ensures
        key_value(seq!['t', '='] + decimal_int(ts as int)) == (seq!['t'], decimal_int(ts as int)),
        has_no(seq!['t', '='] + decimal_int(ts as int), ','),
{
    let dec = decimal_int(ts as int);
    let p1 = seq!['t', '='] + dec;
    lemma_decimal_shape(ts);
    assert forall|i: int| 0 <= i < p1.len() implies p1[i] != ',' by {
        if i >= 2 {
            assert(p1[i] == dec[i - 2]);
        }
    }
    assert(p1.last() == dec.last());
    lemma_trim_same(p1);
    assert(p1.drop_first()[0] == '=');
    assert(find_char(p1.drop_first(), '=') == Some(0int));
    assert(find_char(p1, '=') == Some(1int));
    assert(p1.take(1) =~= seq!['t']);
    assert(p1.skip(2) =~= dec);
    lemma_trim_same(seq!['t']);
    lemma_trim_same(dec);
}

/// The signature entry `v1={hex}` reads as key `v1` and the hex text.
proof fn lemma_signature_entry(tag: Seq<u8>)
    ensures
        key_value(seq!['v', '1', '='] + hex_lower(tag)) == (seq!['v', '1'], hex_lower(tag)),
        has_no(seq!['v', '1', '='] + hex_lower(tag), ','),
{
    let hex = hex_lower(tag);
    let p2 = seq!['v', '1', '='] + hex;
    lemma_hex_shape(tag);
    assert forall|i: int| 0 <= i < p2.len() implies p2[i] != ',' by {
        if i >= 3 {
            assert(p2[i] == hex[i - 3]);
        }
    }
    if hex.len() > 0 {
        assert(p2.last() == hex.last());
    }
    lemma_trim_same(p2);
    assert(p2.drop_first().drop_first()[0] == '=');
    assert(find_char(p2.drop_first().drop_first(), '=') == Some(0int));
    assert(find_char(p2.drop_first(), '=') == Some(1int));
    assert(find_char(p2, '=') == Some(2int));
    assert(p2.take(2) =~= seq!['v', '1']);
    assert(p2.skip(3) =~= hex);
    lemma_trim_same(seq!['v', '1']);
    lemma_trim_same(hex);
}

/// The header `t={ts},v1={hex(tag)}` names the timestamp `ts` and the
/// signature bytes `tag`.
pub proof fn lemma_signature_header_fields(ts: i64, tag: Seq<u8>)
    ensures
        signature_fields(signature_header(ts, tag)) == (Some(ts), Some(tag)),
{
    let p1 = seq!['t', '='] + decimal_int(ts as int);
    let p2 = seq!['v', '1', '='] + hex_lower(tag);
    let h = signature_header(ts, tag);
    assert(h =~= p1 + seq![','] + p2);
    assert(split_on(h, ',') == seq![p1, p2]) by {
        lemma_timestamp_entry(ts);
        lemma_signature_entry(tag);
        lemma_split_two(p1, p2);
    }
    assert(fields_of(seq![p1, p2]) == sig_step(sig_step((None, None), p1), p2)) by {
        lemma_fields_of_two(p1, p2);
    }
    assert(sig_step((None, None), p1) == (Some(ts), None::<Seq<u8>>)) by {
        lemma_timestamp_entry(ts);
        lemma_first_entry(ts, p1);
    }
    assert(sig_step((Some(ts), None), p2) == (Some(ts), Some(tag))) by {
        lemma_signature_entry(tag);
        lemma_second_entry(ts, tag, p2);
    }
}

proof fn lemma_first_entry(ts: i64, p1: Seq<char>)
    requires
        key_value(p1) == (seq!['t'], decimal_int(ts as int)),
    ensures
        sig_step((None, None), p1) == (Some(ts), None::<Seq<u8>>),
{
    crate::numbers::lemma_parse_i64_decimal(ts);
}

proof fn lemma_second_entry(ts: i64, tag: Seq<u8>, p2: Seq<char>)
    requires
        key_value(p2) == (seq!['v', '1'], hex_lower(tag)),
    ensures
        sig_step((Some(ts), None), p2) == (Some(ts), Some(tag)),
{
    lemma_hex_roundtrip(tag);
    assert(seq!['v', '1'] != seq!['t']) by {
        assert(seq!['v', '1'].len() != seq!['t'].len());
    }
}

/// A delivery whose header is `t={ts},v1={hex}`, where the hex is the
/// HMAC-SHA256 of `"{ts}.{body}"` under the secret, is accepted whenever `ts`
/// lies within the tolerance of the current time.
pub proof fn lemma_signed_header_verifies(secret: Seq<char>, body: Seq<char>, ts: i64, now: i64)
    requires
        !skew_too_large(now as int, ts as int),
    ensures
        verify_spec(secret, body, signature_header(ts, expected_tag(secret, ts, body)), now) == Ok::<
            (),
            WebhookError,
        >(()),
{
    lemma_signature_header_fields(ts, expected_tag(secret, ts, body));
}

proof fn lemma_split_two(p1: Seq<char>, p2: Seq<char>)
    requires
        has_no(p1, ','),
        has_no(p2, ','),
    ensures
        split_on(p1 + seq![','] + p2, ',') == seq![p1, p2],
{
    lemma_split_concat(p1, p2, ',');
    lemma_split_no_sep(p1, ',');
    lemma_split_no_sep(p2, ',');
    assert(seq![p1] + seq![p2] =~= seq![p1, p2]);
}

proof fn lemma_fields_of_two(p1: Seq<char>, p2: Seq<char>)
    ensures
        fields_of(seq![p1, p2]) == sig_step(sig_step((None, None), p1), p2),
{
    let one = Seq::<Seq<char>>::empty().push(p1);
    let two = one.push(p2);
    assert(two =~= seq![p1, p2]);
    assert(two.drop_last() =~= one);
    assert(one.drop_last() =~= Seq::<Seq<char>>::empty());
    assert(fields_of(one) == sig_step(fields_of(Seq::<Seq<char>>::empty()), p1));
    assert(fields_of(two) == sig_step(fields_of(one), p2));
}

/// An accepted delivery carries, in its header, a timestamp within the
/// tolerance of `now` and the HMAC-SHA256 of `"{ts}.{body}"` under the secret.
pub proof fn lemma_accepted_is_signed(secret: Seq<char>, body: Seq<char>, header: Seq<char>, now: i64)
    requires
        verify_spec(secret, body, header, now) is Ok,
    ensures
        exists|ts: i64|
            #![trigger expected_tag(secret, ts, body)]
            signature_fields(header) == (Some(ts), Some(expected_tag(secret, ts, body)))
                && !skew_too_large(now as int, ts as int),
{
    let ts = signature_fields(header).0->0;
    assert(signature_fields(header) == (Some(ts), Some(expected_tag(secret, ts, body))));
}

} // verus!

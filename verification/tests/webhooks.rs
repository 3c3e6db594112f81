use flowgrid::config::ClientBuilder;
use flowgrid::webhooks::{
    check_signature, parse_signature_header, verify_signature_at, WebhookError, WebhooksClient,
};
use hmac::{Hmac, Mac};
use sha2::Sha256;
use std::time::{SystemTime, UNIX_EPOCH};

fn tag(secret: &str, ts: i64, body: &str) -> Vec<u8> {
    let mut mac = Hmac::<Sha256>::new_from_slice(secret.as_bytes()).unwrap();
    mac.update(format!("{ts}.{body}").as_bytes());
    mac.finalize().into_bytes().to_vec()
}

fn sign(secret: &str, ts: i64, body: &str) -> String {
    hex::encode(tag(secret, ts, body))
}

fn now() -> i64 {
    SystemTime::now().duration_since(UNIX_EPOCH).unwrap().as_secs() as i64
}

fn header(value: &str) -> Vec<(String, Vec<u8>)> {
    vec![("openai-signature".to_string(), value.as_bytes().to_vec())]
}

#[test]
fn webhook_signature_roundtrip() {
    let secret = "whsec_test";
    let config = ClientBuilder::new()
        .api_key("k".to_string())
        .webhook_secret(secret.to_string())
        .build()
        .unwrap();
    let wh = WebhooksClient::new(config.webhook_secret);
    let body = r#"{"type":"test","data":{}}"#;
    let ts = now();
    let sig = sign(secret, ts, body);
    let headers = header(&format!("t={ts},v1={sig}"));
    wh.verify_signature(body, &headers).unwrap();
    wh.verify_signature(body, &headers).unwrap();
    let v: serde_json::Value = serde_json::from_str(body).unwrap();
    assert_eq!(v["type"], "test");
}

#[test]
fn webhook_errors_without_secret_or_header() {
    let wh = WebhooksClient::new(None);
    assert_eq!(wh.verify_signature("{}", &header("t=1,v1=00")), Err(WebhookError::SecretNotConfigured));
    let wh = WebhooksClient::new(Some("s".to_string()));
    assert_eq!(wh.verify_signature("{}", &vec![]), Err(WebhookError::MissingSignatureHeader));
    let not_text = vec![("openai-signature".to_string(), vec![0x74, 0x3d, 0x01])];
    assert_eq!(wh.verify_signature("{}", &not_text), Err(WebhookError::MissingSignatureHeader));
}

#[test]
fn webhook_missing_fields() {
    let wh = WebhooksClient::new(Some("s".to_string()));
    assert_eq!(wh.verify_signature("{}", &header("v1=00")), Err(WebhookError::MissingTimestamp));
    assert_eq!(wh.verify_signature("{}", &header("t=1")), Err(WebhookError::MissingSignature));
    assert_eq!(wh.verify_signature("{}", &header("t=x,v1=00")), Err(WebhookError::MissingTimestamp));
    assert_eq!(wh.verify_signature("{}", &header("t=1,v1=0")), Err(WebhookError::MissingSignature));
    assert_eq!(wh.verify_signature("{}", &header("t=1,v1=zz")), Err(WebhookError::MissingSignature));
}

#[test]
fn webhook_rejects_tampered_body_and_wrong_secret() {
    let ts = 1_700_000_000;
    let sig = sign("secret", ts, "{\"a\":1}");
    let h = format!("t={ts},v1={sig}");
    assert_eq!(verify_signature_at("secret", "{\"a\":1}", &h, ts), Ok(()));
    assert_eq!(verify_signature_at("secret", "{\"a\":2}", &h, ts), Err(WebhookError::InvalidSignature));
    assert_eq!(verify_signature_at("other", "{\"a\":1}", &h, ts), Err(WebhookError::InvalidSignature));
    let short = format!("t={ts},v1={}", &sig[..62]);
    assert_eq!(verify_signature_at("secret", "{\"a\":1}", &short, ts), Err(WebhookError::InvalidSignature));
}

#[test]
fn webhook_timestamp_tolerance_is_300_seconds() {
    let ts = 1_700_000_000;
    let h = format!("t={ts},v1={}", sign("k", ts, "b"));
    assert_eq!(verify_signature_at("k", "b", &h, ts + 300), Ok(()));
    assert_eq!(verify_signature_at("k", "b", &h, ts - 300), Ok(()));
    assert_eq!(verify_signature_at("k", "b", &h, ts + 301), Err(WebhookError::TimestampSkew));
    assert_eq!(verify_signature_at("k", "b", &h, ts - 301), Err(WebhookError::TimestampSkew));
}

#[test]
fn webhook_header_entries_are_trimmed_and_later_ones_win() {
    let ts = 1_000;
    let sig = sign("k", ts, "b");
    let h = format!(" t = 5 , v1 = 00 , t={ts} ,extra=1, v1={} ", sig.to_uppercase());
    assert_eq!(verify_signature_at("k", "b", &h, ts), Ok(()));
    let (t, v) = parse_signature_header(&h);
    assert_eq!(t, Some(ts));
    assert_eq!(v, Some(tag("k", ts, "b")));
    let (t, v) = parse_signature_header("t=1,t=bad");
    assert_eq!(t, None);
    assert_eq!(v, None);
    let (t, v) = parse_signature_header("v1=0aFF,t=-42,v1");
    assert_eq!(t, Some(-42));
    assert_eq!(v, Some(vec![]));
}

#[test]
fn webhook_negative_timestamp_is_signed_with_its_sign() {
    let ts = -5;
    let h = format!("t={ts},v1={}", sign("k", ts, "b"));
    assert_eq!(verify_signature_at("k", "b", &h, 0), Ok(()));
}

#[test]
fn webhook_check_signature_directly() {
    let t = tag("k", 7, "body");
    assert_eq!(check_signature("k", "body", 7, &t, 7), Ok(()));
    assert_eq!(check_signature("k", "body", 7, &t, 400), Err(WebhookError::TimestampSkew));
    assert_eq!(check_signature("k", "body", 8, &t, 7), Err(WebhookError::InvalidSignature));
}

#[test]
fn webhook_error_messages() {
    assert_eq!(WebhookError::SecretNotConfigured.message(), "webhook_secret not configured");
    assert_eq!(WebhookError::MissingSignatureHeader.message(), "missing openai-signature header");
    assert_eq!(WebhookError::MissingTimestamp.message(), "missing timestamp in signature");
    assert_eq!(WebhookError::MissingSignature.message(), "missing v1 signature");
    assert_eq!(WebhookError::TimestampSkew.message(), "signature timestamp skew too large");
    assert_eq!(WebhookError::InvalidSignature.message(), "invalid webhook signature");
}

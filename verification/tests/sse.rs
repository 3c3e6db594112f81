use flowgrid::sse::{SseDecoder, SseError, SseEvent};

fn decode(parts: &[&str]) -> Vec<Result<SseEvent, SseError>> {
    let mut d = SseDecoder::new();
    let mut out = Vec::new();
    for p in parts {
        d.push(p.as_bytes());
        while let Some(item) = d.next_item() {
            out.push(item);
        }
    }
    d.end_input();
    while let Some(item) = d.next_item() {
        out.push(item);
    }
    out
}

fn events(parts: &[&str]) -> Vec<SseEvent> {
    decode(parts).into_iter().map(|r| r.unwrap()).collect()
}

#[test]
fn sse_splits_across_chunks() {
    let ev = events(&["da", "ta: {\"a\":1}", "\n", "\n"]);
    assert_eq!(ev.len(), 1);
    assert_eq!(ev[0].data, "{\"a\":1}");
}

#[test]
fn sse_ignores_comment_and_retry_lines() {
    let ev = events(&[":heartbeat\nretry: 3000\ndata: hello\n\n"]);
    assert_eq!(ev.len(), 1);
    assert_eq!(ev[0].data, "hello");
}

#[test]
fn sse_multiple_data_lines() {
    let ev = events(&["event: x\ndata: line1\ndata: line2\n\n"]);
    assert_eq!(ev[0].event, "x");
    assert_eq!(ev[0].data, "line1\nline2");
}

#[test]
fn sse_event_name_and_id_are_trimmed() {
    let ev = events(&["event:  delta \r\nid: 7 \r\ndata:  {\"id\":\"1\"}\r\n\r\n"]);
    assert_eq!(ev.len(), 1);
    assert_eq!(ev[0].event, "delta");
    assert_eq!(ev[0].id.as_deref(), Some("7"));
    assert_eq!(ev[0].data, "{\"id\":\"1\"}");
}

#[test]
fn sse_pending_event_is_handed_out_at_end_of_body() {
    let ev = events(&["data: tail"]);
    assert_eq!(ev.len(), 1);
    assert_eq!(ev[0].data, "tail");
    assert_eq!(ev[0].event, "");
    assert_eq!(ev[0].id, None);
}

#[test]
fn sse_empty_body_has_no_events() {
    assert!(decode(&[]).is_empty());
    assert!(decode(&["\n\n\n"]).is_empty());
}

#[test]
fn sse_unknown_fields_are_ignored() {
    let ev = events(&["foo: bar\ndata: x\n\n"]);
    assert_eq!(ev.len(), 1);
    assert_eq!(ev[0].data, "x");
}

#[test]
fn sse_chunking_does_not_change_events() {
    let body = "event: a\ndata: 1\n\n: c\ndata: 2\ndata: 3\n\nid: z\n\n";
    let whole = events(&[body]);
    let bytes: Vec<String> = body.chars().map(|c| c.to_string()).collect();
    let parts: Vec<&str> = bytes.iter().map(|s| s.as_str()).collect();
    let split = events(&parts);
    assert_eq!(whole, split);
    assert_eq!(whole.len(), 3);
    assert_eq!(whole[1].data, "2\n3");
    assert_eq!(whole[2].id.as_deref(), Some("z"));
}

#[test]
fn sse_invalid_utf8_line_is_reported_and_dropped() {
    let mut d = SseDecoder::new();
    d.push(b"data: a\n");
    d.push(&[0x64, 0x61, 0xff, 0x0a]);
    d.push(b"data: b\n\n");
    d.end_input();
    let mut out = Vec::new();
    while let Some(item) = d.next_item() {
        out.push(item);
    }
    assert_eq!(out.len(), 2);
    assert_eq!(out[0], Err(SseError::InvalidUtf8));
    assert_eq!(out[1].as_ref().unwrap().data, "b");
}

use flowgrid::json::JsonValue;
use flowgrid::stream_typing::{
    accumulate_openai_chat_visible_text_into, accumulate_openai_response_visible_text_into,
    openai_stream_payload, OpenAiChatChunkChoice, OpenAiChatCompletionChunk,
    OpenAiResponseStreamLine, OpenAiStreamTextLimits, StreamTextAccumulateError,
};
use flowgrid::stream_typing_clu::{anthropic_stream_payload, is_content_block_delta};

fn s(x: &str) -> String {
    x.to_string()
}

fn obj(members: Vec<(&str, JsonValue)>) -> JsonValue {
    JsonValue::Object(members.into_iter().map(|(k, v)| (s(k), v)).collect())
}

fn chunk_with(contents: Vec<JsonValue>) -> OpenAiChatCompletionChunk {
    OpenAiChatCompletionChunk {
        id: None,
        object: None,
        choices: contents
            .into_iter()
            .map(|delta| OpenAiChatChunkChoice { index: None, delta, finish_reason: None })
            .collect(),
    }
}

fn content(text: &str) -> JsonValue {
    obj(vec![("content", JsonValue::String(s(text)))])
}

#[test]
fn parse_done_yields_none() {
    assert!(openai_stream_payload("[DONE]").is_none());
}

#[test]
fn openai_payload_is_trimmed_and_blank_skipped() {
    assert!(openai_stream_payload("   ").is_none());
    assert!(openai_stream_payload("").is_none());
    assert!(openai_stream_payload("  [DONE]\n").is_none());
    assert_eq!(openai_stream_payload(" {\"a\":1} \n").as_deref(), Some("{\"a\":1}"));
    assert_eq!(openai_stream_payload("[DONE]x").as_deref(), Some("[DONE]x"));
}

#[test]
fn anthropic_payload_is_trimmed_and_blank_skipped() {
    assert!(anthropic_stream_payload(" \t ").is_none());
    assert_eq!(anthropic_stream_payload(" [DONE] ").as_deref(), Some("[DONE]"));
}

#[test]
fn accumulate_chat_respects_max_chars() {
    let chunk = chunk_with(vec![content("abcd")]);
    let limits = OpenAiStreamTextLimits { max_chars: 3, max_events: 10 };
    let mut out = String::new();
    let mut n = 0;
    let e = accumulate_openai_chat_visible_text_into(&mut out, &chunk, &limits, &mut n)
        .unwrap_err();
    assert_eq!(e, StreamTextAccumulateError::MaxChars(3));
}

#[test]
fn accumulate_response_text_delta() {
    let line = OpenAiResponseStreamLine {
        line_type: s("response.output_text.delta"),
        extra: vec![(s("delta"), JsonValue::String(s("x")))],
    };
    let limits = OpenAiStreamTextLimits::default();
    let mut out = String::new();
    let mut n = 0;
    accumulate_openai_response_visible_text_into(&mut out, &line, &limits, &mut n).unwrap();
    assert_eq!(out, "x");
}

#[test]
fn default_limits_are_bounded() {
    let l = OpenAiStreamTextLimits::default();
    assert_eq!(l.max_chars, 262_144);
    assert_eq!(l.max_events, 50_000);
}

#[test]
fn accumulate_chat_appends_pieces_in_order_until_limit() {
    let chunk = chunk_with(vec![content("ab"), obj(vec![("role", JsonValue::String(s("x")))]), content("cd"), content("ef")]);
    let limits = OpenAiStreamTextLimits { max_chars: 5, max_events: 10 };
    let mut out = s(">");
    let mut n = 4;
    let r = accumulate_openai_chat_visible_text_into(&mut out, &chunk, &limits, &mut n);
    assert_eq!(r, Err(StreamTextAccumulateError::MaxChars(5)));
    assert_eq!(out, ">abcd");
    assert_eq!(n, 5);
}

#[test]
fn accumulate_counts_events_and_stops_past_the_limit() {
    let chunk = chunk_with(vec![content("a")]);
    let limits = OpenAiStreamTextLimits { max_chars: 100, max_events: 2 };
    let mut out = String::new();
    let mut n = 0;
    assert_eq!(accumulate_openai_chat_visible_text_into(&mut out, &chunk, &limits, &mut n), Ok(()));
    assert_eq!(accumulate_openai_chat_visible_text_into(&mut out, &chunk, &limits, &mut n), Ok(()));
    assert_eq!(
        accumulate_openai_chat_visible_text_into(&mut out, &chunk, &limits, &mut n),
        Err(StreamTextAccumulateError::MaxEvents(2))
    );
    assert_eq!(out, "aa");
    assert_eq!(n, 3);
}

#[test]
fn accumulate_event_count_saturates() {
    let chunk = chunk_with(vec![]);
    let limits = OpenAiStreamTextLimits { max_chars: 1, max_events: usize::MAX };
    let mut out = String::new();
    let mut n = usize::MAX;
    assert_eq!(accumulate_openai_chat_visible_text_into(&mut out, &chunk, &limits, &mut n), Ok(()));
    assert_eq!(n, usize::MAX);
}

#[test]
fn accumulate_limit_counts_characters() {
    let chunk = chunk_with(vec![content("éé")]);
    let limits = OpenAiStreamTextLimits { max_chars: 3, max_events: 10 };
    let mut out = String::new();
    let mut n = 0;
    assert_eq!(accumulate_openai_chat_visible_text_into(&mut out, &chunk, &limits, &mut n), Ok(()));
    assert_eq!(out, "éé");
    assert_eq!(
        accumulate_openai_chat_visible_text_into(&mut out, &chunk, &limits, &mut n),
        Err(StreamTextAccumulateError::MaxChars(3))
    );
    assert_eq!(out, "éé");
    let one = chunk_with(vec![content("日")]);
    assert_eq!(accumulate_openai_chat_visible_text_into(&mut out, &one, &limits, &mut n), Ok(()));
    assert_eq!(out, "éé日");
}

#[test]
fn accumulate_response_ignores_other_event_types() {
    let line = OpenAiResponseStreamLine {
        line_type: s("response.output_item.added"),
        extra: vec![(s("delta"), JsonValue::String(s("x")))],
    };
    let limits = OpenAiStreamTextLimits::default();
    let mut out = String::new();
    let mut n = 0;
    accumulate_openai_response_visible_text_into(&mut out, &line, &limits, &mut n).unwrap();
    assert_eq!(out, "");
    assert_eq!(n, 1);
    let line = OpenAiResponseStreamLine {
        line_type: s("response.text.delta"),
        extra: vec![(s("delta"), JsonValue::Number(s("1")))],
    };
    accumulate_openai_response_visible_text_into(&mut out, &line, &limits, &mut n).unwrap();
    assert_eq!(out, "");
    let line = OpenAiResponseStreamLine {
        line_type: s("response.text.delta"),
        extra: vec![(s("delta"), JsonValue::String(s("yz")))],
    };
    accumulate_openai_response_visible_text_into(&mut out, &line, &limits, &mut n).unwrap();
    assert_eq!(out, "yz");
}

#[test]
fn accumulate_error_messages() {
    assert_eq!(StreamTextAccumulateError::MaxChars(3).message(), "exceeded max_chars (3)");
    assert_eq!(StreamTextAccumulateError::MaxEvents(50000).message(), "exceeded max_events (50000)");
}

#[test]
fn content_block_delta_is_recognized_by_type() {
    let delta = obj(vec![
        ("type", JsonValue::String(s("content_block_delta"))),
        ("index", JsonValue::Number(s("0"))),
    ]);
    assert!(is_content_block_delta(&delta));
    let start = obj(vec![("type", JsonValue::String(s("content_block_start")))]);
    assert!(!is_content_block_delta(&start));
    assert!(!is_content_block_delta(&obj(vec![])));
    assert!(!is_content_block_delta(&JsonValue::String(s("content_block_delta"))));
}

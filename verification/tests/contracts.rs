use flowgrid::json::JsonValue;
use flowgrid::resources::beta::beta_path;
use flowgrid::resources::completions::{Completion, CompletionChoice};
use flowgrid::resources::messages::Message;
use flowgrid::resources::usage::CompletionUsage;

fn s(x: &str) -> String {
    x.to_string()
}

fn obj(members: Vec<(&str, JsonValue)>) -> JsonValue {
    JsonValue::Object(members.into_iter().map(|(k, v)| (s(k), v)).collect())
}

#[test]
fn openai_completion_v1_deserialize() {
    let v = Completion {
        id: Some(s("cmpl_contract_1")),
        object: Some(s("text_completion")),
        created: Some(1),
        model: Some(s("gpt-3.5-turbo-instruct")),
        choices: vec![CompletionChoice { text: Some(s("ok")), index: Some(0), finish_reason: Some(s("stop")) }],
        usage: Some(CompletionUsage { prompt_tokens: Some(1), completion_tokens: Some(2), total_tokens: Some(3), extra: vec![] }),
        extra: vec![],
    };
    assert_eq!(v.id.as_deref(), Some("cmpl_contract_1"));
    let u = v.usage.as_ref().expect("usage");
    assert_eq!(u.completion_tokens, Some(2));
}

#[test]
fn anthropic_message_v1_deserialize() {
    let v = Message {
        id: s("contract_msg_1"),
        message_type: Some(s("message")),
        role: Some(s("assistant")),
        content: vec![obj(vec![("type", JsonValue::String(s("text"))), ("text", JsonValue::String(s("Hi")))])],
        model: Some(s("model-1")),
        stop_reason: Some(s("end_turn")),
        usage: None,
    };
    assert_eq!(v.id, "contract_msg_1");
    assert_eq!(v.text_concat().as_deref(), Some("Hi"));
}

#[test]
fn message_text_concat_joins_text_blocks_only() {
    let m = Message {
        id: s("m"),
        message_type: None,
        role: None,
        content: vec![
            obj(vec![("type", JsonValue::String(s("text"))), ("text", JsonValue::String(s("Hel")))]),
            obj(vec![("type", JsonValue::String(s("tool_use"))), ("text", JsonValue::String(s("no")))]),
            obj(vec![("type", JsonValue::String(s("text"))), ("text", JsonValue::String(s("lo")))]),
        ],
        model: None,
        stop_reason: None,
        usage: None,
    };
    assert_eq!(m.text_concat().as_deref(), Some("Hello"));
    let empty = Message { content: vec![], ..m };
    assert_eq!(empty.text_concat(), None);
}

#[test]
fn beta_paths() {
    assert_eq!(beta_path("/models"), "beta/models");
    assert_eq!(beta_path("files/x"), "beta/files/x");
}

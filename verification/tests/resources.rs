use flowgrid::json::JsonValue;
use flowgrid::resources::assistants::AssistantsListParams;
use flowgrid::resources::chat::{
    ChatCompletion, ChatCompletionChoice, ChatCompletionListParams,
    ChatCompletionMessage, ChatCompletionMessagesListParams, CreateChatCompletionRequest,
};
use flowgrid::resources::paths::{item_path, join_path, relative_path};
use flowgrid::resources::query::{encode_query, path_with_query};
use flowgrid::resources::responses::ResponseObject;
use flowgrid::resources::threads::ThreadMessagesListParams;

fn s(x: &str) -> String {
    x.to_string()
}

fn pairs(v: &[(&str, &str)]) -> Vec<(String, String)> {
    v.iter().map(|(a, b)| (s(a), s(b))).collect()
}

fn obj(members: Vec<(&str, JsonValue)>) -> JsonValue {
    JsonValue::Object(members.into_iter().map(|(k, v)| (s(k), v)).collect())
}

fn completion(content: Option<JsonValue>) -> ChatCompletion {
    ChatCompletion {
        id: s("c1"),
        choices: vec![ChatCompletionChoice {
            index: Some(0),
            message: Some(ChatCompletionMessage { role: Some(s("assistant")), content }),
            finish_reason: None,
        }],
        created: None,
        model: None,
        object: None,
        usage: None,
    }
}

#[test]
fn join_path_single_slash() {
    assert_eq!(join_path("a/", "/b"), "a/b");
    assert_eq!(join_path("a//", "//b/c"), "a/b/c");
    assert_eq!(join_path("a", "b"), "a/b");
    assert_eq!(join_path("", ""), "/");
    assert_eq!(relative_path("//models"), "models");
    assert_eq!(item_path("threads", "t_1", "/messages"), "threads/t_1/messages");
}

#[test]
fn assistants_query_pairs_skip_unset_and_empty() {
    let p = AssistantsListParams {
        limit: Some(20),
        order: Some(s("")),
        after: Some(s("asst_1")),
        before: None,
    };
    assert_eq!(p.query_pairs(), pairs(&[("limit", "20"), ("after", "asst_1")]));
    assert!(AssistantsListParams::default().query_pairs().is_empty());
    let t = ThreadMessagesListParams {
        cursor: AssistantsListParams { limit: None, order: Some(s("desc")), after: None, before: Some(s("m")) },
        run_id: Some(s("run_1")),
    };
    assert_eq!(t.query_pairs(), pairs(&[("order", "desc"), ("before", "m"), ("run_id", "run_1")]));
    let t = ThreadMessagesListParams { cursor: AssistantsListParams::default(), run_id: Some(s("")) };
    assert!(t.query_pairs().is_empty());
}

#[test]
fn query_strings_are_form_encoded() {
    assert_eq!(encode_query(&pairs(&[("a", "1"), ("b c", "d&e=f")])), "a=1&b+c=d%26e%3Df");
    assert_eq!(encode_query(&pairs(&[("k", "é*-._~")])), "k=%C3%A9*-._%7E");
    assert_eq!(encode_query(&vec![]), "");
    assert_eq!(path_with_query("x", &vec![]), "x");
    assert_eq!(path_with_query("x", &pairs(&[("", "")])), "x?=");
}

#[test]
fn chat_list_paths() {
    let p = ChatCompletionListParams { limit: Some(2), after: Some(s("")), order: Some(s("asc")) };
    assert_eq!(p.list_path(), "chat/completions?limit=2&after=&order=asc");
    let p = ChatCompletionListParams { limit: None, after: None, order: None };
    assert_eq!(p.list_path(), "chat/completions");
    let m = ChatCompletionMessagesListParams { limit: None, after: Some(s("m 1")), order: None };
    assert_eq!(m.list_path("cc_1"), "chat/completions/cc_1/messages?after=m+1");
}

#[test]
fn message_content_string_and_json() {
    assert_eq!(completion(Some(JsonValue::String(s("hello")))).message_content().as_deref(), Some("hello"));
    let parts = JsonValue::Array(vec![obj(vec![
        ("type", JsonValue::String(s("text"))),
        ("text", JsonValue::String(s("a\"b\n"))),
    ])]);
    assert_eq!(
        completion(Some(parts)).message_content().as_deref(),
        Some("[{\"type\":\"text\",\"text\":\"a\\\"b\\n\"}]")
    );
    assert_eq!(completion(None).message_content(), None);
    let mut c = completion(None);
    c.choices.clear();
    assert_eq!(c.message_content(), None);
    assert_eq!(
        completion(Some(JsonValue::Null)).message_content().as_deref(),
        Some("null")
    );
}

#[test]
fn user_message_shape() {
    let m = CreateChatCompletionRequest::user_message(s("Hello"));
    assert_eq!(m, obj(vec![("role", JsonValue::String(s("user"))), ("content", JsonValue::String(s("Hello")))]));
    assert_eq!(m.to_json_string(), "{\"role\":\"user\",\"content\":\"Hello\"}");
}

#[test]
fn output_text_joins_all_texts() {
    let r = ResponseObject {
        id: s("resp_1"),
        output: vec![
            obj(vec![("content", JsonValue::Array(vec![
                obj(vec![("type", JsonValue::String(s("output_text"))), ("text", JsonValue::String(s("Hel")))]),
                obj(vec![("type", JsonValue::String(s("refusal")))]),
                obj(vec![("text", JsonValue::String(s("lo")))]),
            ]))]),
            obj(vec![("text", JsonValue::String(s("!")))]),
            obj(vec![("content", JsonValue::String(s("ignored"))), ("text", JsonValue::String(s("?")))]),
        ],
        model: None,
        usage: None,
        extra: vec![],
    };
    assert_eq!(r.output_text().as_deref(), Some("Hello!?"));
    let empty = ResponseObject { id: s("r"), output: vec![obj(vec![])], model: None, usage: None, extra: vec![] };
    assert_eq!(empty.output_text(), None);
}

//! Chat completions: the request and response models and the list routes.
use vstd::prelude::*;
use crate::json::{JsonValue, json_text, str_spec};
use crate::numbers::decimal;
use crate::resources::query::{pairs_view, path_with_query_spec};

verus! {

/// Chat completion creation request.
pub struct CreateChatCompletionRequest {
    /// Model id.
    pub model: String,
    /// Chat messages (typed loosely as JSON values).
    pub messages: Vec<JsonValue>,
    pub stream: Option<bool>,
    /// Further request members, in order.
    pub extra: Vec<(String, JsonValue)>,
}

/// `{"role": "user", "content": text}`: an object with exactly these two
/// string members, in this order.
pub open spec fn is_user_message(v: JsonValue, text: Seq<char>) -> bool {
    &&& v is Object
    &&& v->Object_0@.len() == 2
    &&& v->Object_0@[0].0@ == "role"@
    &&& str_spec(v->Object_0@[0].1) == Some("user"@)
    &&& v->Object_0@[1].0@ == "content"@
    &&& str_spec(v->Object_0@[1].1) == Some(text)
}

impl CreateChatCompletionRequest {
    /// A minimal user message: `{"role": "user", "content": text}`.
    pub fn user_message(text: String) -> (v: JsonValue)
        ensures
            is_user_message(v, text@),
    {
        let mut m: Vec<(String, JsonValue)> = Vec::new();
        m.push((String::from_str("role"), JsonValue::String(String::from_str("user"))));
        m.push((String::from_str("content"), JsonValue::String(text)));
        JsonValue::Object(m)
    }
}

/// Assistant message payload.
#[derive(Debug)]
pub struct ChatCompletionMessage {
    pub role: Option<String>,
    pub content: Option<JsonValue>,
}

/// One choice in a chat completion.
#[derive(Debug)]
pub struct ChatCompletionChoice {
    pub index: Option<u32>,
    pub message: Option<ChatCompletionMessage>,
    pub finish_reason: Option<String>,
}

/// Chat completion object.
#[derive(Debug)]
pub struct ChatCompletion {
    /// Completion id.
    pub id: String,
    pub choices: Vec<ChatCompletionChoice>,
    pub created: Option<u64>,
    pub model: Option<String>,
    pub object: Option<String>,
    pub usage: Option<JsonValue>,
}

/// The content of the first choice's message: a string as it is, any other
/// JSON value as its compact JSON text.
pub open spec fn message_content_spec(c: ChatCompletion) -> Option<Seq<char>> {
    if c.choices@.len() == 0 {
        None
    } else {
        match c.choices@[0].message {
            None => None,
            Some(m) => match m.content {
                None => None,
                Some(JsonValue::String(s)) => Some(s@),
                Some(other) => Some(json_text(other)),
            },
        }
    }
}

impl ChatCompletion {
    /// `choices[0].message.content`: string content as it is, other JSON
    /// content as compact JSON text.
    pub fn message_content(&self) -> (r: Option<String>)
        ensures
            match message_content_spec(*self) {
                Some(t) => r matches Some(s) && s@ == t,
                None => r is None,
            },
    {
        if self.choices.len() == 0 {
            return None;
        }
        match &self.choices[0].message {
            None => None,
            Some(m) => match &m.content {
                None => None,
                Some(JsonValue::String(s)) => Some(s.clone()),
                Some(other) => Some(other.to_json_string()),
            },
        }
    }
}

/// List parameters for stored chat completions.
#[derive(Debug, Clone)]
pub struct ChatCompletionListParams {
    /// Page size.
    pub limit: Option<u32>,
    /// Pagination cursor.
    pub after: Option<String>,
    /// Sort order (`asc` / `desc`).
    pub order: Option<String>,
}

/// List parameters for the messages of a stored chat completion.
#[derive(Debug, Clone)]
pub struct ChatCompletionMessagesListParams {
    /// Page size.
    pub limit: Option<u32>,
    /// Pagination cursor.
    pub after: Option<String>,
    /// Sort order (`asc` / `desc`).
    pub order: Option<String>,
}

/// Delete response for chat completions.
#[derive(Debug)]
pub struct ChatCompletionDeleted {
    /// Id removed.
    pub id: String,
    pub object: Option<String>,
    pub deleted: Option<bool>,
}

/// Query pairs `limit`, `after`, `order` of the set fields, in that order
/// (set strings are kept even when empty).
pub open spec fn list_pairs_spec(limit: Option<u32>, after: Option<String>, order: Option<String>) -> Seq<(Seq<char>, Seq<char>)> {
    let l = match limit {
        Some(n) => seq![("limit"@, decimal(n as nat))],
        None => Seq::empty(),
    };
    let a = match after {
        Some(s) => seq![("after"@, s@)],
        None => Seq::empty(),
    };
    let o = match order {
        Some(s) => seq![("order"@, s@)],
        None => Seq::empty(),
    };
    l + a + o
}

fn list_pairs(limit: Option<u32>, after: &Option<String>, order: &Option<String>) -> (v: Vec<(String, String)>)
    ensures
        pairs_view(v@) == list_pairs_spec(limit, *after, *order),
{
    let mut v: Vec<(String, String)> = Vec::new();
    if let Some(n) = limit {
        v.push((String::from_str("limit"), crate::numbers::u32_to_string(n)));
    }
    if let Some(s) = after {
        v.push((String::from_str("after"), s.clone()));
    }
    if let Some(s) = order {
        v.push((String::from_str("order"), s.clone()));
    }
    assert(pairs_view(v@) =~= list_pairs_spec(limit, *after, *order));
    v
}

impl ChatCompletionListParams {
    /// Query pairs of the set fields: `limit`, `after`, `order`.
    pub fn query_pairs(&self) -> (v: Vec<(String, String)>)
        ensures
            pairs_view(v@) == list_pairs_spec(self.limit, self.after, self.order),
    {
        list_pairs(self.limit, &self.after, &self.order)
    }

    /// `chat/completions`, with the query string when any field is set.
    pub fn list_path(&self) -> (r: String)
        ensures
            r@ == path_with_query_spec("chat/completions"@, list_pairs_spec(self.limit, self.after, self.order)),
    {
        let q = self.query_pairs();
        crate::resources::query::path_with_query("chat/completions", &q)
    }
}

impl ChatCompletionMessagesListParams {
    /// Query pairs of the set fields: `limit`, `after`, `order`.
    pub fn query_pairs(&self) -> (v: Vec<(String, String)>)
        ensures
            pairs_view(v@) == list_pairs_spec(self.limit, self.after, self.order),
    {
        list_pairs(self.limit, &self.after, &self.order)
    }

    /// `chat/completions/{completion_id}/messages`, with the query string
    /// when any field is set.
    pub fn list_path(&self, completion_id: &str) -> (r: String)
        ensures
            r@ == path_with_query_spec(
                "chat/completions/"@ + completion_id@ + "/messages"@,
                list_pairs_spec(self.limit, self.after, self.order),
            ),
    {
        let base = crate::resources::paths::item_path("chat/completions", completion_id, "/messages");
        proof {
            reveal_strlit("chat/completions");
            reveal_strlit("chat/completions/");
        }
        assert(base@ =~= "chat/completions/"@ + completion_id@ + "/messages"@);
        let q = self.query_pairs();
        crate::resources::query::path_with_query(base.as_str(), &q)
    }
}

} // verus!

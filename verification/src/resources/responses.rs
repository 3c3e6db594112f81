//! Responses API: the request and response models and the text helper.
use vstd::prelude::*;
use crate::json::{JsonValue, get_spec, get_str_spec};

verus! {

/// Request body for creating a response.
pub struct CreateResponseRequest {
    /// Model id.
    pub model: String,
    pub instructions: Option<String>,
    /// Input (string or structured).
    pub input: Option<JsonValue>,
    pub stream: Option<bool>,
    /// Further request members, in order.
    pub extra: Vec<(String, JsonValue)>,
}

/// Response object.
#[derive(Debug)]
pub struct ResponseObject {
    /// Response id.
    pub id: String,
    /// Output items (abridged typing).
    pub output: Vec<JsonValue>,
    /// Model name.
    pub model: Option<String>,
    /// Usage information when present.
    pub usage: Option<JsonValue>,
    /// Any additional members returned by the API, in order.
    pub extra: Vec<(String, JsonValue)>,
}

/// Response to delete calls.
#[derive(Debug)]
pub struct ResponseDeleted {
    /// Id deleted.
    pub id: String,
    /// Whether deletion succeeded.
    pub deleted: Option<bool>,
}

/// The string `text` of each element of `content`, in order.
pub open spec fn content_texts(content: Seq<JsonValue>) -> Seq<Seq<char>>
    decreases content.len(),
{
    if content.len() == 0 {
        Seq::empty()
    } else {
        let init = content_texts(content.drop_last());
        match get_str_spec(content.last(), "text"@) {
            Some(t) => init.push(t),
            None => init,
        }
    }
}

/// The texts of one output item: those of its `content` array when it has
/// one, else its own string `text`.
pub open spec fn item_texts(item: JsonValue) -> Seq<Seq<char>> {
    match get_spec(item, "content"@) {
        Some(JsonValue::Array(content)) => content_texts(content@),
        _ => match get_str_spec(item, "text"@) {
            Some(t) => seq![t],
            None => Seq::empty(),
        },
    }
}

/// The texts of all output items, in order.
pub open spec fn output_texts(items: Seq<JsonValue>) -> Seq<Seq<char>>
    decreases items.len(),
{
    if items.len() == 0 {
        Seq::empty()
    } else {
        output_texts(items.drop_last()) + item_texts(items.last())
    }
}

/// The texts one after another.
pub open spec fn join_texts(parts: Seq<Seq<char>>) -> Seq<char>
    decreases parts.len(),
{
    if parts.len() == 0 {
        Seq::empty()
    } else {
        join_texts(parts.drop_last()) + parts.last()
    }
}

impl ResponseObject {
    /// The textual output: every text of the output items joined, or
    /// nothing when there is none.
    pub fn output_text(&self) -> (r: Option<String>)
        ensures
            output_texts(self.output@).len() == 0 ==> r is None,
            output_texts(self.output@).len() > 0 ==> (r matches Some(s) && s@ == join_texts(
                output_texts(self.output@),
            )),
    {
        let mut any = false;
        let mut out = String::new();
        let ghost mut texts: Seq<Seq<char>> = Seq::empty();
        let mut i: usize = 0;
        while i < self.output.len()
            invariant
                i <= self.output.len(),
                texts == output_texts(self.output@.take(i as int)),
                any == (texts.len() > 0),
                out@ == join_texts(texts),
            decreases self.output.len() - i,
        {
            assert(self.output@.take(i + 1).drop_last() =~= self.output@.take(i as int));
            assert(self.output@.take(i + 1).last() == self.output@[i as int]);
            let item = &self.output[i];
            let ghost before = texts;
            match item.get("content") {
                Some(JsonValue::Array(content)) => {
                    let mut j: usize = 0;
                    while j < content.len()
                        invariant
                            j <= content.len(),
                            texts == before + content_texts(content@.take(j as int)),
                            any == (texts.len() > 0),
                            out@ == join_texts(texts),
                        decreases content.len() - j,
                    {
                        assert(content@.take(j + 1).drop_last() =~= content@.take(j as int));
                        assert(content@.take(j + 1).last() == content@[j as int]);
                        if let Some(t) = content[j].get_str("text") {
                            out.append(t);
                            proof {
                                assert(texts.push(t@).drop_last() =~= texts);
                                texts = texts.push(t@);
                            }
                            any = true;
                        }
                        j = j + 1;
                    }
                    assert(content@.take(content@.len() as int) =~= content@);
                },
                _ => {
                    if let Some(t) = item.get_str("text") {
                        out.append(t);
                        proof {
                            assert(texts.push(t@).drop_last() =~= texts);
                            texts = texts.push(t@);
                        }
                        any = true;
                    }
                },
            }
            i = i + 1;
        }
        assert(self.output@.take(self.output@.len() as int) =~= self.output@);
        if !any {
            None
        } else {
            Some(out)
        }
    }
}

} // verus!

//! Anthropic messages: the request and response models and the text helper.
use vstd::prelude::*;
use crate::json::{JsonValue, get_str_spec};
use crate::resources::responses::join_texts;

verus! {

/// Request body for creating a message.
pub struct CreateMessageRequest {
    pub model: String,
    pub max_tokens: u32,
    /// Messages (typed loosely as JSON values).
    pub messages: Vec<JsonValue>,
    pub stream: Option<bool>,
    /// Further request members, in order.
    pub extra: Vec<(String, JsonValue)>,
}

/// A message returned by the Messages API.
#[derive(Debug)]
pub struct Message {
    pub id: String,
    /// `type` of the object (`message`).
    pub message_type: Option<String>,
    pub role: Option<String>,
    /// Content blocks.
    pub content: Vec<JsonValue>,
    pub model: Option<String>,
    pub stop_reason: Option<String>,
    pub usage: Option<JsonValue>,
}

/// The string `text` of each content block of type `text`, in order.
pub open spec fn text_blocks(content: Seq<JsonValue>) -> Seq<Seq<char>>
    decreases content.len(),
{
    if content.len() == 0 {
        Seq::empty()
    } else {
        let init = text_blocks(content.drop_last());
        let b = content.last();
        if get_str_spec(b, "type"@) == Some("text"@) {
            match get_str_spec(b, "text"@) {
                Some(t) => init.push(t),
                None => init,
            }
        } else {
            init
        }
    }
}

impl Message {
    /// The text of the message: its text blocks joined, or nothing when it
    /// has none.
    pub fn text_concat(&self) -> (r: Option<String>)
        ensures
            text_blocks(self.content@).len() == 0 ==> r is None,
            text_blocks(self.content@).len() > 0 ==> (r matches Some(s) && s@ == join_texts(
                text_blocks(self.content@),
            )),
    {
        let mut any = false;
        let mut out = String::new();
        let ghost mut texts: Seq<Seq<char>> = Seq::empty();
        let mut i: usize = 0;
        while i < self.content.len()
            invariant
                i <= self.content.len(),
                texts == text_blocks(self.content@.take(i as int)),
                any == (texts.len() > 0),
                out@ == join_texts(texts),
            decreases self.content.len() - i,
        {
            assert(self.content@.take(i + 1).drop_last() =~= self.content@.take(i as int));
            assert(self.content@.take(i + 1).last() == self.content@[i as int]);
            let b = &self.content[i];
            let is_text = match b.get_str("type") {
                Some(t) => crate::text::str_eq(t, "text"),
                None => false,
            };
            if is_text {
                if let Some(t) = b.get_str("text") {
                    out.append(t);
                    proof {
                        assert(texts.push(t@).drop_last() =~= texts);
                        texts = texts.push(t@);
                    }
                    any = true;
                }
            }
            i = i + 1;
        }
        assert(self.content@.take(self.content@.len() as int) =~= self.content@);
        if !any {
            None
        } else {
            Some(out)
        }
    }
}

} // verus!

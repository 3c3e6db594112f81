//! Typed views of Anthropic Messages streaming `data:` payloads.
use vstd::prelude::*;
use crate::json::{JsonValue, get_str_spec};
use crate::text::trim;

verus! {

/// `delta` object when `type` is `text_delta` (streaming text).
pub struct AnthropicTextDelta {
    /// `type` of the delta.
    pub delta_type: Option<String>,
    pub text: Option<String>,
}

/// `content_block_delta` event (the common case: incremental text).
pub struct AnthropicContentBlockDeltaEvent {
    /// `type` of the event.
    pub event_type: Option<String>,
    pub index: Option<u32>,
    pub delta: Option<AnthropicTextDelta>,
}

/// A parsed streaming line: a structured delta, or the raw JSON of any other
/// event type.
pub enum AnthropicStreamLine {
    ContentBlockDelta(AnthropicContentBlockDeltaEvent),
    Raw(JsonValue),
}

/// The JSON text of a `data:` payload that is to be parsed: the trimmed
/// payload, unless that is empty.
pub open spec fn anthropic_payload_spec(data: Seq<char>) -> Option<Seq<char>> {
    if trim(data).len() == 0 {
        None
    } else {
        Some(trim(data))
    }
}

/// The text to parse from one `data:` payload of an Anthropic stream:
/// nothing for an empty or whitespace-only payload, else the payload without
/// surrounding whitespace.
pub fn anthropic_stream_payload(data: &str) -> (r: Option<String>)
    ensures
        match anthropic_payload_spec(data@) {
            Some(t) => r matches Some(s) && s@ == t,
            None => r is None,
        },
{
    let cs = crate::text::chars_of(data);
    let (a, b) = crate::text::trim_range(&cs, 0, cs.len());
    assert(cs@.subrange(0, cs@.len() as int) =~= cs@);
    if a == b {
        return None;
    }
    Some(crate::text::string_from_range(&cs, a, b))
}

/// Whether a stream event is a `content_block_delta` (its `type` member).
pub open spec fn is_content_block_delta_spec(v: JsonValue) -> bool {
    get_str_spec(v, "type"@) == Some("content_block_delta"@)
}

/// Whether a parsed stream event is a `content_block_delta`, which is read
/// into [`AnthropicContentBlockDeltaEvent`]; every other event stays raw.
pub fn is_content_block_delta(v: &JsonValue) -> (r: bool)
    ensures
        r == is_content_block_delta_spec(*v),
{
    match v.get_str("type") {
        Some(t) => crate::text::str_eq(t, "content_block_delta"),
        None => false,
    }
}

} // verus!

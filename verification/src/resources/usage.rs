//! Typed `usage` sub-objects of OpenAI payloads (forward-compatible through
//! their `extra` members).
use vstd::prelude::*;
use crate::json::JsonValue;

verus! {

/// Token usage on embedding responses.
pub struct EmbeddingUsage {
    pub prompt_tokens: Option<u32>,
    pub total_tokens: Option<u32>,
    /// Other members, in order.
    pub extra: Vec<(String, JsonValue)>,
}

/// Token usage on legacy completion responses.
pub struct CompletionUsage {
    pub prompt_tokens: Option<u32>,
    pub completion_tokens: Option<u32>,
    pub total_tokens: Option<u32>,
    /// Other members, in order.
    pub extra: Vec<(String, JsonValue)>,
}

/// Usage block on Responses API objects.
pub struct ResponseObjectUsage {
    pub input_tokens: Option<u32>,
    pub output_tokens: Option<u32>,
    pub total_tokens: Option<u32>,
    /// Other members, in order.
    pub extra: Vec<(String, JsonValue)>,
}

} // verus!

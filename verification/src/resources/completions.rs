//! Legacy completions: the response model.
use vstd::prelude::*;
use crate::json::JsonValue;
use crate::resources::usage::CompletionUsage;

verus! {

/// One choice of a legacy completion.
pub struct CompletionChoice {
    pub text: Option<String>,
    pub index: Option<u32>,
    pub finish_reason: Option<String>,
}

/// Legacy completion object.
pub struct Completion {
    pub id: Option<String>,
    pub object: Option<String>,
    pub created: Option<u64>,
    pub model: Option<String>,
    pub choices: Vec<CompletionChoice>,
    pub usage: Option<CompletionUsage>,
    /// Other members, in order.
    pub extra: Vec<(String, JsonValue)>,
}

} // verus!

//! Query parameters of the thread message list route.
use vstd::prelude::*;
use crate::resources::assistants::{AssistantsListParams, assistants_pairs_spec, nonempty_pair};
use crate::resources::query::pairs_view;

verus! {

/// List parameters for messages on a thread: the cursor fields and an
/// optional `run_id` filter.
#[derive(Debug, Clone)]
pub struct ThreadMessagesListParams {
    pub cursor: AssistantsListParams,
    pub run_id: Option<String>,
}

impl Default for ThreadMessagesListParams {
    fn default() -> (r: ThreadMessagesListParams)
        ensures
            r.cursor.limit is None,
            r.cursor.order is None,
            r.cursor.after is None,
            r.cursor.before is None,
            r.run_id is None,
    {
        ThreadMessagesListParams { cursor: AssistantsListParams::default(), run_id: None }
    }
}

impl ThreadMessagesListParams {
    /// The cursor's query pairs, then `run_id` when set and not empty.
    pub fn query_pairs(&self) -> (v: Vec<(String, String)>)
        ensures
            pairs_view(v@) == assistants_pairs_spec(self.cursor) + nonempty_pair("run_id"@, self.run_id),
    {
        let mut q = self.cursor.query_pairs();
        crate::resources::assistants::push_nonempty(&mut q, "run_id", &self.run_id);
        q
    }
}

} // verus!

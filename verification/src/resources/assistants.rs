//! Query parameters of the Assistants list routes.
use vstd::prelude::*;
use crate::numbers::decimal;
use crate::resources::query::pairs_view;

verus! {

/// Query parameters for listing assistants (and threads and runs).
#[derive(Debug, Clone)]
pub struct AssistantsListParams {
    pub limit: Option<u32>,
    pub order: Option<String>,
    pub after: Option<String>,
    pub before: Option<String>,
}

impl Default for AssistantsListParams {
    fn default() -> (r: AssistantsListParams)
        ensures
            r.limit is None,
            r.order is None,
            r.after is None,
            r.before is None,
    {
        AssistantsListParams { limit: None, order: None, after: None, before: None }
    }
}

/// The pair `(name, value)` when `value` is set and not empty.
pub open spec fn nonempty_pair(name: Seq<char>, value: Option<String>) -> Seq<(Seq<char>, Seq<char>)> {
    match value {
        Some(s) => if s@.len() > 0 {
            seq![(name, s@)]
        } else {
            Seq::empty()
        },
        None => Seq::empty(),
    }
}

/// `limit`, `order`, `after`, `before`, in that order; unset and empty
/// fields are skipped.
pub open spec fn assistants_pairs_spec(p: AssistantsListParams) -> Seq<(Seq<char>, Seq<char>)> {
    let limit = match p.limit {
        Some(n) => seq![("limit"@, decimal(n as nat))],
        None => Seq::empty(),
    };
    limit + nonempty_pair("order"@, p.order) + nonempty_pair("after"@, p.after) + nonempty_pair(
        "before"@,
        p.before,
    )
}

/// Appends `(name, value)` when `value` is set and not empty.
pub fn push_nonempty(out: &mut Vec<(String, String)>, name: &str, value: &Option<String>)
    ensures
        pairs_view(final(out)@) == pairs_view(old(out)@) + nonempty_pair(name@, *value),
{
    if let Some(s) = value {
        if !s.as_str().is_empty() {
            out.push((String::from_str(name), s.clone()));
            assert(pairs_view(out@) =~= pairs_view(old(out)@) + nonempty_pair(name@, *value));
            return;
        }
    }
    assert(pairs_view(out@) =~= pairs_view(old(out)@) + nonempty_pair(name@, *value));
}

impl AssistantsListParams {
    /// URL query pairs (unset and empty fields are skipped).
    pub fn query_pairs(&self) -> (v: Vec<(String, String)>)
        ensures
            pairs_view(v@) == assistants_pairs_spec(*self),
    {
        let mut v: Vec<(String, String)> = Vec::new();
        assert(pairs_view(v@) =~= Seq::<(Seq<char>, Seq<char>)>::empty());
        if let Some(n) = self.limit {
            v.push((String::from_str("limit"), crate::numbers::u32_to_string(n)));
        }
        assert(pairs_view(v@) =~= match self.limit {
            Some(n) => seq![("limit"@, decimal(n as nat))],
            None => Seq::<(Seq<char>, Seq<char>)>::empty(),
        });
        push_nonempty(&mut v, "order", &self.order);
        push_nonempty(&mut v, "after", &self.after);
        push_nonempty(&mut v, "before", &self.before);
        v
    }
}

} // verus!

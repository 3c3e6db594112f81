//! Anthropic beta routes.
use vstd::prelude::*;
use crate::resources::paths::strip_start;

verus! {

/// `beta/{path}`, without the leading slashes of `path`.
pub fn beta_path(path: &str) -> (r: String)
    ensures
        r@ == "beta/"@ + strip_start(path@, '/'),
{
    let p = crate::resources::paths::trim_start_char(path, '/');
    let mut r = String::from_str("beta/");
    r.append(p.as_str());
    r
}

} // verus!

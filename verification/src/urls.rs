//! URLs, held as their serialized text. Parsing, joining and editing are
//! those of the `url` crate; each is named here by what it returns for the
//! texts it is given.
use vstd::prelude::*;
use crate::resources::query::pairs_view;

verus! {

#[verifier::external_type_specification]
#[verifier::external_body]
pub struct ExUrlParseError(url::ParseError);

/// The serialization of the URL that `Url::parse` reads from `s`, when it
/// parses.
pub uninterp spec fn spec_parse_url(s: Seq<char>) -> Option<Seq<char>>;

/// The path of the URL serialized as `u` (`Url::path`; empty when `u` does
/// not parse).
pub uninterp spec fn spec_url_path(u: Seq<char>) -> Seq<char>;

/// The URL serialized as `u` with its path replaced by `path`
/// (`Url::set_path`; `u` itself when it does not parse).
pub uninterp spec fn spec_url_with_path(u: Seq<char>, path: Seq<char>) -> Seq<char>;

/// The serialization of `rel` resolved against the URL serialized as `u`
/// (`Url::join`), when that succeeds.
pub uninterp spec fn spec_url_join(u: Seq<char>, rel: Seq<char>) -> Option<Seq<char>>;

/// The URL serialized as `u` with `pairs` appended to its query
/// (`Url::query_pairs_mut().extend_pairs(pairs)`; `u` itself when it does
/// not parse).
pub uninterp spec fn spec_url_with_pairs(u: Seq<char>, pairs: Seq<(Seq<char>, Seq<char>)>) -> Seq<char>;

/// `Url::parse(s)`, serialized. Claims only that the outcome is the one
/// named by [`spec_parse_url`] for this text.
#[verifier::external_body]
pub(crate) fn parse_url(s: &str) -> (r: Result<String, url::ParseError>)
    ensures
        match spec_parse_url(s@) {
            Some(t) => r matches Ok(u) && u@ == t,
            None => r is Err,
        },
{
    url::Url::parse(s).map(String::from)
}

/// `Url::path` of the URL serialized as `u`.
#[verifier::external_body]
pub(crate) fn url_path(u: &str) -> (r: String)
    ensures
        r@ == spec_url_path(u@),
{
    match url::Url::parse(u) {
        Ok(x) => x.path().to_owned(),
        Err(_) => String::new(),
    }
}

/// `Url::set_path` on the URL serialized as `u`, serialized.
#[verifier::external_body]
pub(crate) fn url_with_path(u: &str, path: &str) -> (r: String)
    ensures
        r@ == spec_url_with_path(u@, path@),
{
    match url::Url::parse(u) {
        Ok(mut x) => {
            x.set_path(path);
            String::from(x)
        },
        Err(_) => u.to_owned(),
    }
}

/// `Url::join` on the URL serialized as `u`, serialized.
#[verifier::external_body]
pub(crate) fn url_join(u: &str, rel: &str) -> (r: Result<String, url::ParseError>)
    ensures
        match spec_url_join(u@, rel@) {
            Some(t) => r matches Ok(v) && v@ == t,
            None => r is Err,
        },
{
    match url::Url::parse(u) {
        Ok(x) => x.join(rel).map(String::from),
        Err(e) => Err(e),
    }
}

/// `Url::query_pairs_mut().extend_pairs(pairs)` on the URL serialized as
/// `u`, serialized.
#[verifier::external_body]
pub(crate) fn url_with_query_pairs(u: &str, pairs: &Vec<(String, String)>) -> (r: String)
    ensures
        r@ == spec_url_with_pairs(u@, pairs_view(pairs@)),
{
    match url::Url::parse(u) {
        Ok(mut x) => {
            x.query_pairs_mut().extend_pairs(pairs);
            String::from(x)
        },
        Err(_) => u.to_owned(),
    }
}

/// A base URL whose path ends with `/`, so that relative paths resolve
/// below it: the path gets a `/` appended when it is not empty and does
/// not end with one.
pub open spec fn base_url_spec(u: Seq<char>) -> Seq<char> {
    let p = spec_url_path(u);
    if p.len() > 0 && p.last() != '/' {
        spec_url_with_path(u, p.push('/'))
    } else {
        u
    }
}

/// Gives the base URL (serialized) a path that ends with `/`.
pub fn normalize_base_url(u: &str) -> (r: String)
    ensures
        r@ == base_url_spec(u@),
{
    let p = url_path(u);
    if crate::resources::paths::base_path_needs_slash(p.as_str()) {
        let mut q = p;
        crate::text::string_push(&mut q, '/');
        url_with_path(u, q.as_str())
    } else {
        String::from_str(u)
    }
}

/// The URL for `path` under the base URL: `path` without its leading
/// slashes resolved against the base, then `default_query` appended when
/// there is any.
pub open spec fn request_url_spec(base: Seq<char>, path: Seq<char>, default_query: Seq<(Seq<char>, Seq<char>)>) -> Option<Seq<char>> {
    match spec_url_join(base, crate::resources::paths::strip_start(path, '/')) {
        None => None,
        Some(u) => Some(
            if default_query.len() == 0 {
                u
            } else {
                spec_url_with_pairs(u, default_query)
            },
        ),
    }
}

/// Resolves `path` against the base URL and appends the default query.
pub fn request_url(base: &str, path: &str, default_query: &Vec<(String, String)>) -> (r: Result<String, url::ParseError>)
    ensures
        match request_url_spec(base@, path@, pairs_view(default_query@)) {
            Some(t) => r matches Ok(u) && u@ == t,
            None => r is Err,
        },
{
    let rel = crate::resources::paths::relative_path(path);
    let u = match url_join(base, rel.as_str()) {
        Ok(u) => u,
        Err(e) => {
            return Err(e);
        },
    };
    if default_query.len() == 0 {
        Ok(u)
    } else {
        Ok(url_with_query_pairs(u.as_str(), default_query))
    }
}

/// Appends `pairs` to the query of the URL, when there are any.
pub fn with_query(u: &str, pairs: &Vec<(String, String)>) -> (r: String)
    ensures
        r@ == if pairs@.len() == 0 {
            u@
        } else {
            spec_url_with_pairs(u@, pairs_view(pairs@))
        },
{
    if pairs.len() == 0 {
        String::from_str(u)
    } else {
        url_with_query_pairs(u, pairs)
    }
}

} // verus!

//! Errors reported by the API providers, and their classification.
use vstd::prelude::*;

pub mod clu;
pub mod oai;

verus! {

/// Which provider produced an error.
#[derive(PartialEq, Eq, Debug, Clone, Copy, Structural)]
pub enum ProviderKind {
    OpenAi,
    Anthropic,
}

/// `HeaderValue::to_str` accepts a byte when it is visible ASCII or a tab.
pub open spec fn header_byte_ok(b: u8) -> bool {
    (32 <= b && b < 127) || b == 9
}

/// The text of a header value, when `HeaderValue::to_str` would give one.
pub open spec fn header_text_spec(v: Seq<u8>) -> Option<Seq<char>> {
    if forall|i: int| 0 <= i < v.len() ==> header_byte_ok(#[trigger] v[i]) {
        Some(Seq::new(v.len(), |i: int| v[i] as char))
    } else {
        None
    }
}

/// `HeaderValue::to_str`: the value as text when every byte is visible ASCII
/// (or a tab).
pub fn header_text(v: &Vec<u8>) -> (r: Option<String>)
    ensures
        match header_text_spec(v@) {
            Some(t) => r matches Some(s) && s@ == t,
            None => r is None,
        },
{
    let mut s = String::new();
    let mut i: usize = 0;
    while i < v.len()
        invariant
            i <= v.len(),
            forall|k: int| 0 <= k < i ==> header_byte_ok(#[trigger] v@[k]),
            s@ == Seq::new(i as nat, |k: int| v@[k] as char),
        decreases v.len() - i,
    {
        let b = v[i];
        if !((32 <= b && b < 127) || b == 9) {
            return None;
        }
        crate::text::string_push(&mut s, b as char);
        i = i + 1;
        assert(s@ =~= Seq::new(i as nat, |k: int| v@[k] as char));
    }
    Some(s)
}

/// Lowercase ASCII name equality (header names are stored lowercase).
pub open spec fn named(h: (String, Vec<u8>), name: Seq<char>) -> bool {
    h.0@ == name
}

/// Index of the first header called `name`.
pub open spec fn first_header(headers: Seq<(String, Vec<u8>)>, name: Seq<char>) -> Option<int>
    decreases headers.len(),
{
    if headers.len() == 0 {
        None
    } else if named(headers[0], name) {
        Some(0)
    } else {
        match first_header(headers.drop_first(), name) {
            Some(i) => Some(i + 1),
            None => None,
        }
    }
}

/// The text of the first header called `name` (`headers.get(name)` then
/// `to_str`).
pub open spec fn header_one_spec(headers: Seq<(String, Vec<u8>)>, name: Seq<char>) -> Option<Seq<char>> {
    match first_header(headers, name) {
        Some(i) => header_text_spec(headers[i].1@),
        None => None,
    }
}

/// `headers.get(name).and_then(|v| v.to_str().ok())` as an owned string.
pub fn header_one(headers: &Vec<(String, Vec<u8>)>, name: &str) -> (r: Option<String>)
    ensures
        match header_one_spec(headers@, name@) {
            Some(t) => r matches Some(s) && s@ == t,
            None => r is None,
        },
{
    let mut i: usize = 0;
    assert(headers@.skip(0) =~= headers@);
    while i < headers.len()
        invariant
            i <= headers.len(),
            first_header(headers@, name@) == match first_header(headers@.skip(i as int), name@) {
                Some(k) => Some(k + i),
                None => None,
            },
        decreases headers.len() - i,
    {
        assert(headers@.skip(i as int).drop_first() =~= headers@.skip(i + 1));
        assert(headers@.skip(i as int)[0] == headers@[i as int]);
        if crate::text::str_eq(headers[i].0.as_str(), name) {
            return header_text(&headers[i].1);
        }
        i = i + 1;
    }
    assert(headers@.skip(i as int).len() == 0);
    None
}

} // verus!

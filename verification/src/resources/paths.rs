//! Request paths of resources.
use vstd::prelude::*;

verus! {

/// `s` without its trailing `c`s (`str::trim_end_matches(c)`).
pub open spec fn strip_end(s: Seq<char>, c: char) -> Seq<char>
    decreases s.len(),
{
    if s.len() > 0 && s.last() == c {
        strip_end(s.drop_last(), c)
    } else {
        s
    }
}

/// `s` without its leading `c`s (`str::trim_start_matches(c)`).
pub open spec fn strip_start(s: Seq<char>, c: char) -> Seq<char>
    decreases s.len(),
{
    if s.len() > 0 && s[0] == c {
        strip_start(s.drop_first(), c)
    } else {
        s
    }
}

/// `s.trim_start_matches(c)`.
pub fn trim_start_char(s: &str, c: char) -> (r: String)
    ensures
        r@ == strip_start(s@, c),
{
    let cs = crate::text::chars_of(s);
    let mut i: usize = 0;
    assert(cs@.subrange(0, cs@.len() as int) =~= cs@);
    while i < cs.len() && cs[i] == c
        invariant
            i <= cs.len(),
            cs@ == s@,
            strip_start(s@, c) == strip_start(cs@.subrange(i as int, cs@.len() as int), c),
        decreases cs.len() - i,
    {
        assert(cs@.subrange(i as int, cs@.len() as int).drop_first() =~= cs@.subrange(
            i + 1,
            cs@.len() as int,
        ));
        i = i + 1;
    }
    crate::text::string_from_range(&cs, i, cs.len())
}

/// `s.trim_end_matches(c)`.
pub fn trim_end_char(s: &str, c: char) -> (r: String)
    ensures
        r@ == strip_end(s@, c),
{
    let cs = crate::text::chars_of(s);
    let mut j: usize = cs.len();
    assert(cs@.subrange(0, cs@.len() as int) =~= cs@);
    while j > 0 && cs[j - 1] == c
        invariant
            j <= cs.len(),
            cs@ == s@,
            strip_end(s@, c) == strip_end(cs@.subrange(0, j as int), c),
        decreases j,
    {
        assert(cs@.subrange(0, j as int).drop_last() =~= cs@.subrange(0, j - 1));
        j = j - 1;
    }
    crate::text::string_from_range(&cs, 0, j)
}

/// `{base}/{tail}` with single slashes at the joint: the trailing slashes
/// of `base` and the leading slashes of `tail` are dropped.
pub fn join_path(base: &str, tail: &str) -> (r: String)
    ensures
        r@ == strip_end(base@, '/') + seq!['/'] + strip_start(tail@, '/'),
{
    let mut r = trim_end_char(base, '/');
    crate::text::string_push(&mut r, '/');
    let t = trim_start_char(tail, '/');
    r.append(t.as_str());
    r
}

/// A path relative to the API base: `path` without its leading slashes.
pub fn relative_path(path: &str) -> (r: String)
    ensures
        r@ == strip_start(path@, '/'),
{
    trim_start_char(path, '/')
}

/// `prefix/{id}` followed by `suffix` (for item routes such as
/// `threads/{id}/messages`).
pub fn item_path(prefix: &str, id: &str, suffix: &str) -> (r: String)
    ensures
        r@ == prefix@ + seq!['/'] + id@ + suffix@,
{
    let mut r = String::from_str(prefix);
    crate::text::string_push(&mut r, '/');
    r.append(id);
    r.append(suffix);
    r
}

/// Whether a base URL path needs a `/` appended so that relative paths
/// resolve below it (not empty and not ending with `/`).
pub fn base_path_needs_slash(path: &str) -> (r: bool)
    ensures
        r == (path@.len() > 0 && path@.last() != '/'),
{
    let cs = crate::text::chars_of(path);
    cs.len() > 0 && cs[cs.len() - 1] != '/'
}

} // verus!

//! `application/x-www-form-urlencoded` query strings.
use vstd::prelude::*;
use vstd::utf8::encode_utf8;

verus! {

/// Bytes that form encoding writes as they are.
pub open spec fn form_unchanged(b: u8) -> bool {
    b == 42 || b == 45 || b == 46 || (48 <= b && b <= 57) || (65 <= b && b <= 90) || b == 95 || (97
        <= b && b <= 122)
}

/// Uppercase hex digit of a nibble.
pub open spec fn hex_upper(d: int) -> char {
    if d < 10 {
        (d + '0' as int) as char
    } else {
        (d - 10 + 'A' as int) as char
    }
}

/// Form encoding of one byte: unchanged, `+` for a space, else `%XX`.
pub open spec fn form_byte(b: u8) -> Seq<char> {
    if form_unchanged(b) {
        seq![b as char]
    } else if b == 32 {
        seq!['+']
    } else {
        seq!['%', hex_upper(b as int / 16), hex_upper(b as int % 16)]
    }
}

pub open spec fn form_encode_bytes(bs: Seq<u8>) -> Seq<char>
    decreases bs.len(),
{
    if bs.len() == 0 {
        Seq::empty()
    } else {
        form_encode_bytes(bs.drop_last()) + form_byte(bs.last())
    }
}

/// Form encoding of a text (of its UTF-8 bytes).
pub open spec fn form_encode(s: Seq<char>) -> Seq<char> {
    form_encode_bytes(encode_utf8(s))
}

/// Pairs as (name, value) texts.
pub open spec fn pairs_view(v: Seq<(String, String)>) -> Seq<(Seq<char>, Seq<char>)> {
    Seq::new(v.len(), |i: int| (v[i].0@, v[i].1@))
}

/// One `name=value` pair, both sides form encoded.
pub open spec fn pair_text(p: (Seq<char>, Seq<char>)) -> Seq<char> {
    form_encode(p.0) + seq!['='] + form_encode(p.1)
}

/// The pairs in order, separated by `&`.
pub open spec fn query_text(pairs: Seq<(Seq<char>, Seq<char>)>) -> Seq<char>
    decreases pairs.len(),
{
    if pairs.len() == 0 {
        Seq::empty()
    } else if pairs.len() == 1 {
        pair_text(pairs[0])
    } else {
        query_text(pairs.drop_last()) + seq!['&'] + pair_text(pairs.last())
    }
}

/// `form_urlencoded::byte_serialize` over the UTF-8 bytes of `s`, collected
/// into a string: bytes `*-._`, digits and ASCII letters as they are, a space
/// as `+`, every other byte as `%` and two uppercase hex digits.
#[verifier::external_body]
fn form_urlencode(s: &str) -> (r: String)
    ensures
        r@ == form_encode(s@),
{
    url::form_urlencoded::byte_serialize(s.as_bytes()).collect()
}

/// The query string for `pairs` (what `form_urlencoded::Serializer` writes
/// when each pair is appended to an empty string).
pub fn encode_query(pairs: &Vec<(String, String)>) -> (r: String)
    ensures
        r@ == query_text(pairs_view(pairs@)),
{
    let mut out = String::new();
    let mut i: usize = 0;
    while i < pairs.len()
        invariant
            i <= pairs.len(),
            out@ == query_text(pairs_view(pairs@).take(i as int)),
        decreases pairs.len() - i,
    {
        let ghost pv = pairs_view(pairs@);
        assert(pv.take(i + 1).drop_last() =~= pv.take(i as int));
        assert(pv.take(i + 1).last() == pv[i as int]);
        if i > 0 {
            crate::text::string_push(&mut out, '&');
        } else {
            assert(pv.take(0) =~= Seq::<(Seq<char>, Seq<char>)>::empty());
        }
        let name = form_urlencode(pairs[i].0.as_str());
        let value = form_urlencode(pairs[i].1.as_str());
        out.append(name.as_str());
        crate::text::string_push(&mut out, '=');
        out.append(value.as_str());
        i = i + 1;
    }
    assert(pairs_view(pairs@).take(pairs@.len() as int) =~= pairs_view(pairs@));
    out
}

/// `path`, then `?` and the query string when there are pairs.
pub open spec fn path_with_query_spec(path: Seq<char>, pairs: Seq<(Seq<char>, Seq<char>)>) -> Seq<char> {
    if pairs.len() == 0 {
        path
    } else {
        path + seq!['?'] + query_text(pairs)
    }
}

/// `path`, then `?` and the query string when there are pairs.
pub fn path_with_query(path: &str, pairs: &Vec<(String, String)>) -> (r: String)
    ensures
        r@ == path_with_query_spec(path@, pairs_view(pairs@)),
{
    let mut r = String::from_str(path);
    if pairs.len() > 0 {
        let q = encode_query(pairs);
        crate::text::string_push(&mut r, '?');
        r.append(q.as_str());
    }
    r
}

} // verus!

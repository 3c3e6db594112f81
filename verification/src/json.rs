//! A JSON value held as plain data, for the free-form parts of API payloads.
//!
//! Numbers keep their text as `serde_json` prints them; object members keep
//! their order and their keys are distinct.
use vstd::prelude::*;

verus! {

/// Any JSON value.
#[derive(Debug, PartialEq)]
pub enum JsonValue {
    Null,
    Bool(bool),
    /// A number, as `serde_json` prints it (for example `1`, `-2`, `35.0`).
    Number(String),
    String(String),
    Array(Vec<JsonValue>),
    Object(Vec<(String, JsonValue)>),
}

/// Value of the first member named `key`.
pub open spec fn member(entries: Seq<(String, JsonValue)>, key: Seq<char>) -> Option<JsonValue>
    decreases entries.len(),
{
    if entries.len() == 0 {
        None
    } else if entries[0].0@ == key {
        Some(entries[0].1)
    } else {
        member(entries.drop_first(), key)
    }
}

/// `value.get(key)`: the member `key` of an object; nothing for other values.
pub open spec fn get_spec(v: JsonValue, key: Seq<char>) -> Option<JsonValue> {
    match v {
        JsonValue::Object(entries) => member(entries@, key),
        _ => None,
    }
}

/// `value.as_str()`.
pub open spec fn str_spec(v: JsonValue) -> Option<Seq<char>> {
    match v {
        JsonValue::String(s) => Some(s@),
        _ => None,
    }
}

/// `value.get(key).and_then(|v| v.as_str())`.
pub open spec fn get_str_spec(v: JsonValue, key: Seq<char>) -> Option<Seq<char>> {
    match get_spec(v, key) {
        Some(x) => str_spec(x),
        None => None,
    }
}

/// Member lookup in a list of members.
pub fn find_member<'a>(entries: &'a Vec<(String, JsonValue)>, key: &str) -> (r: Option<&'a JsonValue>)
    ensures
        match member(entries@, key@) {
            Some(x) => r == Some(&x),
            None => r is None,
        },
{
    let mut i: usize = 0;
    assert(entries@.skip(0) =~= entries@);
    while i < entries.len()
        invariant
            i <= entries.len(),
            member(entries@, key@) == member(entries@.skip(i as int), key@),
        decreases entries.len() - i,
    {
        assert(entries@.skip(i as int).drop_first() =~= entries@.skip(i + 1));
        assert(entries@.skip(i as int)[0] == entries@[i as int]);
        if crate::text::str_eq(entries[i].0.as_str(), key) {
            return Some(&entries[i].1);
        }
        i = i + 1;
    }
    None
}

impl JsonValue {
    /// The member `key` of an object (`serde_json::Value::get`).
    pub fn get(&self, key: &str) -> (r: Option<&JsonValue>)
        ensures
            match get_spec(*self, key@) {
                Some(x) => r == Some(&x),
                None => r is None,
            },
    {
        match self {
            JsonValue::Object(entries) => find_member(entries, key),
            _ => None,
        }
    }

    /// The text of a string value.
    pub fn as_str(&self) -> (r: Option<&str>)
        ensures
            match str_spec(*self) {
                Some(t) => r matches Some(s) && s@ == t,
                None => r is None,
            },
    {
        match self {
            JsonValue::String(s) => Some(s.as_str()),
            _ => None,
        }
    }

    /// The elements of an array value.
    pub fn as_array(&self) -> (r: Option<&Vec<JsonValue>>)
        ensures
            match *self {
                JsonValue::Array(v) => r == Some(&v),
                _ => r is None,
            },
    {
        match self {
            JsonValue::Array(v) => Some(v),
            _ => None,
        }
    }

    /// `value.get(key).and_then(|v| v.as_str())`.
    pub fn get_str(&self, key: &str) -> (r: Option<&str>)
        ensures
            match get_str_spec(*self, key@) {
                Some(t) => r matches Some(s) && s@ == t,
                None => r is None,
            },
    {
        match self.get(key) {
            Some(x) => x.as_str(),
            None => None,
        }
    }
}

} // verus!

verus! {

/// Text of the first member named `key`, when that member is a string.
pub open spec fn member_str(entries: Seq<(String, JsonValue)>, key: Seq<char>) -> Option<Seq<char>> {
    match member(entries, key) {
        Some(x) => str_spec(x),
        None => None,
    }
}

/// `map.get(key).and_then(|v| v.as_str())` over a list of members.
pub fn find_member_str<'a>(entries: &'a Vec<(String, JsonValue)>, key: &str) -> (r: Option<&'a str>)
    ensures
        match member_str(entries@, key@) {
            Some(t) => r matches Some(s) && s@ == t,
            None => r is None,
        },
{
    match find_member(entries, key) {
        Some(x) => x.as_str(),
        None => None,
    }
}

} // verus!

verus! {

/// Lowercase hex digit of a nibble.
pub open spec fn hex_nibble(d: int) -> char {
    if d < 10 {
        (d + '0' as int) as char
    } else {
        (d - 10 + 'a' as int) as char
    }
}

/// How one character of a string is written inside JSON quotes (as
/// `serde_json` writes it): `"` and `\` and the control characters are
/// escaped, the short forms `\b \t \n \f \r` where they exist.
pub open spec fn escape_json_char(c: char) -> Seq<char> {
    if c == '"' {
        seq!['\\', '"']
    } else if c == '\\' {
        seq!['\\', '\\']
    } else if c == '\n' {
        seq!['\\', 'n']
    } else if c == '\r' {
        seq!['\\', 'r']
    } else if c == '\t' {
        seq!['\\', 't']
    } else if c as u32 == 8 {
        seq!['\\', 'b']
    } else if c as u32 == 12 {
        seq!['\\', 'f']
    } else if (c as u32) < 0x20 {
        seq!['\\', 'u', '0', '0', hex_nibble((c as u32) as int / 16), hex_nibble((c as u32) as int % 16)]
    } else {
        seq![c]
    }
}

pub open spec fn escape_json(s: Seq<char>) -> Seq<char>
    decreases s.len(),
{
    if s.len() == 0 {
        Seq::empty()
    } else {
        escape_json(s.drop_last()) + escape_json_char(s.last())
    }
}

/// A JSON string literal.
pub open spec fn quoted(s: Seq<char>) -> Seq<char> {
    seq!['"'] + escape_json(s) + seq!['"']
}

/// Compact JSON text of a value (as `serde_json::Value::to_string` writes it):
/// no whitespace, members in order.
pub open spec fn json_text(v: JsonValue) -> Seq<char>
    decreases v,
{
    match v {
        JsonValue::Null => seq!['n', 'u', 'l', 'l'],
        JsonValue::Bool(b) => if b {
            seq!['t', 'r', 'u', 'e']
        } else {
            seq!['f', 'a', 'l', 's', 'e']
        },
        JsonValue::Number(t) => t@,
        JsonValue::String(s) => quoted(s@),
        JsonValue::Array(items) => seq!['['] + items_text(items@) + seq![']'],
        JsonValue::Object(entries) => seq!['{'] + entries_text(entries@) + seq!['}'],
    }
}

/// Array elements, comma separated.
pub open spec fn items_text(items: Seq<JsonValue>) -> Seq<char>
    decreases items,
{
    if items.len() == 0 {
        Seq::empty()
    } else if items.len() == 1 {
        json_text(items[0])
    } else {
        items_text(items.drop_last()) + seq![','] + json_text(items.last())
    }
}

/// Object members `"key":value`, comma separated.
pub open spec fn entries_text(entries: Seq<(String, JsonValue)>) -> Seq<char>
    decreases entries,
{
    if entries.len() == 0 {
        Seq::empty()
    } else if entries.len() == 1 {
        quoted(entries[0].0@) + seq![':'] + json_text(entries[0].1)
    } else {
        entries_text(entries.drop_last()) + seq![','] + quoted(entries.last().0@) + seq![':']
            + json_text(entries.last().1)
    }
}

} // verus!

verus! {

fn hex_nibble_char(d: u32) -> (c: char)
    requires
        d < 16,
    ensures
        c == hex_nibble(d as int),
{
    match d {
        0 => '0',
        1 => '1',
        2 => '2',
        3 => '3',
        4 => '4',
        5 => '5',
        6 => '6',
        7 => '7',
        8 => '8',
        9 => '9',
        10 => 'a',
        11 => 'b',
        12 => 'c',
        13 => 'd',
        14 => 'e',
        _ => 'f',
    }
}

/// Appends `s` as a JSON string literal.
fn write_quoted(out: &mut String, s: &str)
    ensures
        final(out)@ == old(out)@ + quoted(s@),
{
    let cs = crate::text::chars_of(s);
    crate::text::string_push(out, '"');
    let ghost start = out@;
    let mut i: usize = 0;
    while i < cs.len()
        invariant
            i <= cs.len(),
            cs@ == s@,
            out@ == start + escape_json(cs@.take(i as int)),
        decreases cs.len() - i,
    {
        let c = cs[i];
        assert(cs@.take(i + 1).drop_last() =~= cs@.take(i as int));
        assert(cs@.take(i + 1).last() == c);
        let ghost before = out@;
        let u = c as u32;
        if c == '"' {
            out.append("\\\"");
            proof { reveal_strlit("\\\""); }
        } else if c == '\\' {
            out.append("\\\\");
            proof { reveal_strlit("\\\\"); }
        } else if c == '\n' {
            out.append("\\n");
            proof { reveal_strlit("\\n"); }
        } else if c == '\r' {
            out.append("\\r");
            proof { reveal_strlit("\\r"); }
        } else if c == '\t' {
            out.append("\\t");
            proof { reveal_strlit("\\t"); }
        } else if u == 8 {
            out.append("\\b");
            proof { reveal_strlit("\\b"); }
        } else if u == 12 {
            out.append("\\f");
            proof { reveal_strlit("\\f"); }
        } else if u < 0x20 {
            out.append("\\u00");
            proof { reveal_strlit("\\u00"); }
            crate::text::string_push(out, hex_nibble_char(u / 16));
            crate::text::string_push(out, hex_nibble_char(u % 16));
        } else {
            crate::text::string_push(out, c);
        }
        assert(out@ =~= before + escape_json_char(c));
        i = i + 1;
    }
    assert(cs@.take(cs@.len() as int) =~= cs@);
    crate::text::string_push(out, '"');
    assert(out@ =~= old(out)@ + quoted(s@));
}

/// Appends the compact JSON text of `v`.
pub fn write_json(out: &mut String, v: &JsonValue)
    ensures
        final(out)@ == old(out)@ + json_text(*v),
    decreases *v,
{
    match v {
        JsonValue::Null => {
            out.append("null");
            proof { reveal_strlit("null"); }
        },
        JsonValue::Bool(b) => {
            if *b {
                out.append("true");
                proof { reveal_strlit("true"); }
            } else {
                out.append("false");
                proof { reveal_strlit("false"); }
            }
        },
        JsonValue::Number(t) => {
            out.append(t.as_str());
        },
        JsonValue::String(s) => {
            write_quoted(out, s.as_str());
        },
        JsonValue::Array(items) => {
            crate::text::string_push(out, '[');
            let ghost start = out@;
            let mut i: usize = 0;
            while i < items.len()
                invariant
                    i <= items.len(),
                    out@ == start + items_text(items@.take(i as int)),
                    *v == JsonValue::Array(*items),
                decreases items.len() - i,
            {
                assert(items@.take(i + 1).drop_last() =~= items@.take(i as int));
                assert(items@.take(i + 1).last() == items@[i as int]);
                if i > 0 {
                    crate::text::string_push(out, ',');
                } else {
                    assert(items@.take(0) =~= Seq::<JsonValue>::empty());
                }
                assert((*v)->Array_0 == *items);
                assert(decreases_to!(*v => (*v)->Array_0));
                assert(decreases_to!(*items => items@));
                assert(decreases_to!(items@ => items@[i as int]));
                write_json(out, &items[i]);
                i = i + 1;
            }
            assert(items@.take(items@.len() as int) =~= items@);
            crate::text::string_push(out, ']');
        },
        JsonValue::Object(entries) => {
            crate::text::string_push(out, '{');
            let ghost start = out@;
            let mut i: usize = 0;
            while i < entries.len()
                invariant
                    i <= entries.len(),
                    out@ == start + entries_text(entries@.take(i as int)),
                    *v == JsonValue::Object(*entries),
                decreases entries.len() - i,
            {
                assert(entries@.take(i + 1).drop_last() =~= entries@.take(i as int));
                assert(entries@.take(i + 1).last() == entries@[i as int]);
                if i > 0 {
                    crate::text::string_push(out, ',');
                } else {
                    assert(entries@.take(0) =~= Seq::<(String, JsonValue)>::empty());
                }
                write_quoted(out, entries[i].0.as_str());
                crate::text::string_push(out, ':');
                assert((*v)->Object_0 == *entries);
                assert(decreases_to!(*v => (*v)->Object_0));
                assert(decreases_to!(*entries => entries@));
                assert(decreases_to!(entries@ => entries@[i as int]));
                assert(decreases_to!(entries@[i as int] => entries@[i as int].1));
                write_json(out, &entries[i].1);
                i = i + 1;
            }
            assert(entries@.take(entries@.len() as int) =~= entries@);
            crate::text::string_push(out, '}');
        },
    }
}

impl JsonValue {
    /// Compact JSON text (`serde_json::Value::to_string`).
    pub fn to_json_string(&self) -> (s: String)
        ensures
            s@ == json_text(*self),
    {
        let mut s = String::new();
        write_json(&mut s, self);
        assert(s@ =~= json_text(*self));
        s
    }
}

} // verus!

verus! {

/// `value.as_u64()`: a number written as plain decimal digits that fits.
pub open spec fn u64_spec(v: JsonValue) -> Option<u64> {
    match v {
        JsonValue::Number(t) => if t@.len() > 0 && t@[0] != '+' {
            crate::numbers::parse_u64_spec(t@)
        } else {
            None
        },
        _ => None,
    }
}

impl JsonValue {
    /// The value of a non-negative integer number that fits in a `u64`.
    pub fn as_u64(&self) -> (r: Option<u64>)
        ensures
            r == u64_spec(*self),
    {
        match self {
            JsonValue::Number(t) => {
                let cs = crate::text::chars_of(t.as_str());
                if cs.len() > 0 && cs[0] != '+' {
                    crate::numbers::parse_u64(&cs)
                } else {
                    None
                }
            },
            _ => None,
        }
    }
}

} // verus!

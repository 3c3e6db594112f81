//! Typed views of OpenAI streaming `data:` payloads (chat completion chunks
//! and Responses stream lines), and bounded accumulation of the visible text
//! they carry.
use vstd::prelude::*;
use crate::json::{JsonValue, get_str_spec, member_str};
use crate::numbers::decimal;
use crate::text::trim;

verus! {

/// Limits for [`accumulate_openai_chat_visible_text_into`] and
/// [`accumulate_openai_response_visible_text_into`].
///
/// Defaults are not unbounded: adjust them explicitly for long streams.
#[derive(Debug, Clone, Copy)]
pub struct OpenAiStreamTextLimits {
    /// Maximum UTF-8 characters appended in total: a piece is appended only
    /// while the whole accumulated text stays within this many characters
    /// (for a text that starts empty, the characters appended in total).
    pub max_chars: usize,
    /// Maximum number of stream events processed (each call counts once).
    pub max_events: usize,
}

impl Default for OpenAiStreamTextLimits {
    fn default() -> (r: OpenAiStreamTextLimits)
        ensures
            r.max_chars == 256 * 1024,
            r.max_events == 50_000,
    {
        OpenAiStreamTextLimits { max_chars: 256 * 1024, max_events: 50_000 }
    }
}

/// Bounded streaming text accumulation error.
#[derive(Debug, Clone, Copy, PartialEq, Eq, Structural)]
pub enum StreamTextAccumulateError {
    /// The text would grow past `max_chars` (the limit is carried).
    MaxChars(usize),
    /// More than `max_events` events were processed (the limit is carried).
    MaxEvents(usize),
}

impl StreamTextAccumulateError {
    /// The error text: `exceeded max_chars (N)` or `exceeded max_events (N)`.
    pub fn message(&self) -> (s: String)
        ensures
            s@ == match *self {
                StreamTextAccumulateError::MaxChars(n) => "exceeded max_chars ("@ + decimal(n as nat) + ")"@,
                StreamTextAccumulateError::MaxEvents(n) => "exceeded max_events ("@ + decimal(n as nat) + ")"@,
            },
    {
        let (mut s, n) = match self {
            StreamTextAccumulateError::MaxChars(n) => (String::from_str("exceeded max_chars ("), *n),
            StreamTextAccumulateError::MaxEvents(n) => (String::from_str("exceeded max_events ("), *n),
        };
        let digits = crate::numbers::u64_to_string(n as u64);
        s.append(digits.as_str());
        s.append(")");
        s
    }
}

/// One chunk from a streaming chat completion (`object` is usually
/// `chat.completion.chunk`).
pub struct OpenAiChatCompletionChunk {
    pub id: Option<String>,
    pub object: Option<String>,
    /// Choices (empty when the payload has none).
    pub choices: Vec<OpenAiChatChunkChoice>,
}

/// Choice delta in a streaming chunk.
pub struct OpenAiChatChunkChoice {
    pub index: Option<u32>,
    /// The `delta` object (`null` when absent).
    pub delta: JsonValue,
    pub finish_reason: Option<JsonValue>,
}

/// Minimal typed envelope for Responses streaming events: `type` and the
/// other members, in order.
pub struct OpenAiResponseStreamLine {
    /// Event type, e.g. `response.output_item.added`.
    pub line_type: String,
    /// Every member but `type`.
    pub extra: Vec<(String, JsonValue)>,
}

/// The `[DONE]` sentinel that closes an OpenAI stream.
pub open spec fn done_marker() -> Seq<char> {
    seq!['[', 'D', 'O', 'N', 'E', ']']
}

/// The JSON text of a `data:` payload that is to be parsed: the trimmed
/// payload, unless it is empty or `[DONE]`.
pub open spec fn openai_payload_spec(data: Seq<char>) -> Option<Seq<char>> {
    let t = trim(data);
    if t.len() == 0 || t == done_marker() {
        None
    } else {
        Some(t)
    }
}

/// The text to parse from one `data:` payload of an OpenAI stream (chat
/// completions or Responses): nothing for empty, whitespace-only or `[DONE]`
/// payloads, else the payload without surrounding whitespace.
pub fn openai_stream_payload(data: &str) -> (r: Option<String>)
    ensures
        match openai_payload_spec(data@) {
            Some(t) => r matches Some(s) && s@ == t,
            None => r is None,
        },
{
    let cs = crate::text::chars_of(data);
    let (a, b) = crate::text::trim_range(&cs, 0, cs.len());
    assert(cs@.subrange(0, cs@.len() as int) =~= cs@);
    if a == b {
        return None;
    }
    let t = crate::text::string_from_range(&cs, a, b);
    proof {
        reveal_strlit("[DONE]");
        assert("[DONE]"@ =~= done_marker());
    }
    if crate::text::str_eq(t.as_str(), "[DONE]") {
        return None;
    }
    Some(t)
}

/// `x` saturated at `usize::MAX`.
pub open spec fn sat_usize(x: int) -> int {
    if x > usize::MAX {
        usize::MAX as int
    } else {
        x
    }
}

/// Appends `pieces` to `out` in order while the text stays within `max`
/// characters; stops before the first piece that would not fit. The flag tells
/// whether every piece was appended.
pub open spec fn append_within(out: Seq<char>, pieces: Seq<Seq<char>>, max: int) -> (Seq<char>, bool)
    decreases pieces.len(),
{
    if pieces.len() == 0 {
        (out, true)
    } else if out.len() + pieces[0].len() > max {
        (out, false)
    } else {
        append_within(out + pieces[0], pieces.drop_first(), max)
    }
}

/// The string `delta.content` of each choice that has one, in order.
pub open spec fn chat_text_pieces(choices: Seq<OpenAiChatChunkChoice>) -> Seq<Seq<char>>
    decreases choices.len(),
{
    if choices.len() == 0 {
        Seq::empty()
    } else {
        let rest = chat_text_pieces(choices.drop_first());
        match get_str_spec(choices[0].delta, "content"@) {
            Some(s) => seq![s] + rest,
            None => rest,
        }
    }
}

/// Whether a Responses event type carries visible text in `delta`.
pub open spec fn is_text_delta_type(t: Seq<char>) -> bool {
    t == "response.output_text.delta"@ || t == "response.text.delta"@
}

/// The visible text of a Responses stream line: its string `delta` when the
/// event type is a text delta.
pub open spec fn response_text_pieces(line: OpenAiResponseStreamLine) -> Seq<Seq<char>> {
    if is_text_delta_type(line.line_type@) {
        match member_str(line.extra@, "delta"@) {
            Some(s) => seq![s],
            None => Seq::empty(),
        }
    } else {
        Seq::empty()
    }
}

/// What one accumulation step does to the text, given the pieces the event
/// carries: the event count goes up by one (saturating); past `max_events`
/// nothing is appended, else the pieces are appended within `max_chars`.
pub open spec fn accumulate_spec(
    out: Seq<char>,
    pieces: Seq<Seq<char>>,
    limits: OpenAiStreamTextLimits,
    events_seen: usize,
) -> (Seq<char>, Result<(), StreamTextAccumulateError>) {
    if sat_usize(events_seen + 1) > limits.max_events {
        (out, Err(StreamTextAccumulateError::MaxEvents(limits.max_events)))
    } else {
        let (o, ok) = append_within(out, pieces, limits.max_chars as int);
        (o, if ok { Ok(()) } else { Err(StreamTextAccumulateError::MaxChars(limits.max_chars)) })
    }
}

/// Appends `s` to `out` unless the result would be longer than `max`
/// characters.
fn push_within(out: &mut String, s: &str, max: usize) -> (ok: bool)
    ensures
        ok == (old(out)@.len() + s@.len() <= max),
        final(out)@ == if ok { old(out)@ + s@ } else { old(out)@ },
{
    let cur = out.as_str().unicode_len();
    let add = s.unicode_len();
    if cur > max || add > max - cur {
        return false;
    }
    out.append(s);
    true
}

/// Appends the string `delta.content` fragments of one chat completion
/// chunk to `out`, counting the chunk in `events_seen`.
pub fn accumulate_openai_chat_visible_text_into(
    out: &mut String,
    chunk: &OpenAiChatCompletionChunk,
    limits: &OpenAiStreamTextLimits,
    events_seen: &mut usize,
) -> (r: Result<(), StreamTextAccumulateError>)
    ensures
        *final(events_seen) == sat_usize(*old(events_seen) + 1),
        (final(out)@, r) == accumulate_spec(
            old(out)@,
            chat_text_pieces(chunk.choices@),
            *limits,
            *old(events_seen),
        ),
{
    *events_seen = events_seen.saturating_add(1);
    if *events_seen > limits.max_events {
        return Err(StreamTextAccumulateError::MaxEvents(limits.max_events));
    }
    let ghost out0 = out@;
    let ghost all = chat_text_pieces(chunk.choices@);
    let mut i: usize = 0;
    assert(chunk.choices@.skip(0) =~= chunk.choices@);
    while i < chunk.choices.len()
        invariant
            i <= chunk.choices.len(),
            all == chat_text_pieces(chunk.choices@),
            *events_seen == sat_usize(*old(events_seen) + 1),
            *events_seen <= limits.max_events,
            out0 == old(out)@,
            append_within(out0, all, limits.max_chars as int) == append_within(
                out@,
                chat_text_pieces(chunk.choices@.skip(i as int)),
                limits.max_chars as int,
            ),
        decreases chunk.choices.len() - i,
    {
        let ghost rest = chunk.choices@.skip(i as int);
        assert(rest.drop_first() =~= chunk.choices@.skip(i + 1));
        assert(rest[0] == chunk.choices@[i as int]);
        let ghost tail = chat_text_pieces(chunk.choices@.skip(i + 1));
        match chunk.choices[i].delta.get_str("content") {
            Some(s) => {
                assert(chat_text_pieces(rest) == seq![s@] + tail);
                assert((seq![s@] + tail).drop_first() =~= tail);
                assert((seq![s@] + tail)[0] == s@);
                if !push_within(out, s, limits.max_chars) {
                    return Err(StreamTextAccumulateError::MaxChars(limits.max_chars));
                }
            },
            None => {
                assert(chat_text_pieces(rest) == tail);
            },
        }
        i = i + 1;
    }
    assert(chunk.choices@.skip(i as int).len() == 0);
    Ok(())
}

/// Appends the visible text of one Responses stream line (the string
/// `delta` of `response.output_text.delta` and `response.text.delta`
/// events) to `out`, counting the line in `events_seen`.
pub fn accumulate_openai_response_visible_text_into(
    out: &mut String,
    line: &OpenAiResponseStreamLine,
    limits: &OpenAiStreamTextLimits,
    events_seen: &mut usize,
) -> (r: Result<(), StreamTextAccumulateError>)
    ensures
        *final(events_seen) == sat_usize(*old(events_seen) + 1),
        (final(out)@, r) == accumulate_spec(
            old(out)@,
            response_text_pieces(*line),
            *limits,
            *old(events_seen),
        ),
{
    *events_seen = events_seen.saturating_add(1);
    if *events_seen > limits.max_events {
        return Err(StreamTextAccumulateError::MaxEvents(limits.max_events));
    }
    let take_delta = crate::text::str_eq(line.line_type.as_str(), "response.output_text.delta")
        || crate::text::str_eq(line.line_type.as_str(), "response.text.delta");
    if take_delta {
        match crate::json::find_member_str(&line.extra, "delta") {
            Some(s) => {
                let ghost out0 = out@;
                assert(seq![s@].drop_first() =~= Seq::<Seq<char>>::empty());
                if !push_within(out, s, limits.max_chars) {
                    return Err(StreamTextAccumulateError::MaxChars(limits.max_chars));
                }
                assert(append_within(out0 + s@, Seq::<Seq<char>>::empty(), limits.max_chars as int)
                    == (out0 + s@, true));
            },
            None => {},
        }
    }
    Ok(())
}

} // verus!

verus! {

/// The pieces one after another.
pub open spec fn concat(pieces: Seq<Seq<char>>) -> Seq<char>
    decreases pieces.len(),
{
    if pieces.len() == 0 {
        Seq::empty()
    } else {
        pieces[0] + concat(pieces.drop_first())
    }
}

/// Accumulation only ever appends: the text becomes the old text followed
/// by the first `k` pieces, for some `k`; all of them when the step reports
/// success, and otherwise piece `k` is the first one that would not fit.
pub proof fn lemma_accumulated_text_extends(out: Seq<char>, pieces: Seq<Seq<char>>, max: int)
    ensures
        exists|k: int|
            #![trigger pieces.take(k)]
            0 <= k <= pieces.len() && append_within(out, pieces, max).0 == out + concat(
                pieces.take(k),
            ) && (append_within(out, pieces, max).1 <==> k == pieces.len()) && (k < pieces.len()
                ==> append_within(out, pieces, max).0.len() + pieces[k].len() > max),
    decreases pieces.len(),
{
    if pieces.len() == 0 {
        assert(pieces.take(0) =~= pieces);
        assert(out + concat(pieces.take(0)) =~= out);
    } else if out.len() + pieces[0].len() > max {
        assert(pieces.take(0) =~= Seq::<Seq<char>>::empty());
        assert(out + concat(pieces.take(0)) =~= out);
    } else {
        let rest = pieces.drop_first();
        lemma_accumulated_text_extends(out + pieces[0], rest, max);
        let k = choose|k: int|
            #![trigger rest.take(k)]
            0 <= k <= rest.len() && append_within(out + pieces[0], rest, max).0 == (out
                + pieces[0]) + concat(rest.take(k)) && (append_within(out + pieces[0], rest, max).1
                <==> k == rest.len()) && (k < rest.len() ==> append_within(out + pieces[0], rest, max).0.len()
                + rest[k].len() > max);
        let t = pieces.take(k + 1);
        assert(t[0] == pieces[0]);
        assert(t.drop_first() =~= rest.take(k));
        assert(concat(t) == pieces[0] + concat(rest.take(k)));
        assert(out + concat(t) =~= (out + pieces[0]) + concat(rest.take(k)));
        if k < rest.len() {
            assert(rest[k] == pieces[k + 1]);
        }
    }
}

/// A text within the limit stays within it: accumulation never makes a text
/// longer than `max` characters.
pub proof fn lemma_accumulated_text_within_limit(out: Seq<char>, pieces: Seq<Seq<char>>, max: int)
    requires
        out.len() <= max,
    ensures
        append_within(out, pieces, max).0.len() <= max,
    decreases pieces.len(),
{
    if pieces.len() > 0 && out.len() + pieces[0].len() <= max {
        lemma_accumulated_text_within_limit(out + pieces[0], pieces.drop_first(), max);
    }
}

} // verus!

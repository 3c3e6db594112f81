//! Server-sent events (SSE) decoding.
//!
//! The decoder receives the body of an HTTP response in arbitrary chunks and
//! produces one item per completed event (or per line that is not valid
//! UTF-8). Lines end at `\n`; trailing `\r`/`\n` are ignored, leading
//! whitespace is skipped, `:` starts a comment, `retry:` is ignored, `event:`,
//! `data:` and `id:` fill the event, other fields are ignored, and a blank line
//! ends the event. Several `data:` lines are joined with `\n`.
use vstd::prelude::*;
use vstd::utf8::{decode_utf8, valid_utf8};
use crate::text::{starts_with, trim, trim_start};

verus! {

/// One parsed SSE message block (terminated by a blank line).
#[derive(Debug, Clone, PartialEq, Eq)]
pub struct SseEvent {
    /// `event:` field when present; empty if omitted.
    pub event: String,
    /// `data:` payload (joined with `\n` if there were several lines).
    pub data: String,
    /// `id:` when present.
    pub id: Option<String>,
}

/// Mathematical value of an [`SseEvent`].
pub struct SseEventView {
    pub event: Seq<char>,
    pub data: Seq<char>,
    pub id: Option<Seq<char>>,
}

impl View for SseEvent {
    type V = SseEventView;

    open spec fn view(&self) -> SseEventView {
        SseEventView {
            event: self.event@,
            data: self.data@,
            id: match self.id {
                Some(s) => Some(s@),
                None => None,
            },
        }
    }
}

/// Decoding failures.
#[derive(PartialEq, Eq, Debug, Clone, Copy, Structural)]
pub enum SseError {
    /// A line of the stream was not valid UTF-8 (the line is dropped, and so
    /// is the event being assembled).
    InvalidUtf8,
}

/// What the decoder hands out, one at a time.
pub enum SseItem {
    Event(SseEventView),
    InvalidUtf8,
}

/// The value of a decoder result.
pub open spec fn item_of(r: Result<SseEvent, SseError>) -> SseItem {
    match r {
        Ok(ev) => SseItem::Event(ev@),
        Err(_) => SseItem::InvalidUtf8,
    }
}

/// The fields gathered for the event being assembled.
pub struct AccView {
    pub event: Seq<char>,
    /// The `data:` lines seen so far, joined with `\n`.
    pub data: Seq<char>,
    /// Whether any `data:` line was seen.
    pub has_data: bool,
    pub id: Option<Seq<char>>,
}

pub open spec fn blank_acc() -> AccView {
    AccView { event: Seq::empty(), data: Seq::empty(), has_data: false, id: None }
}

/// Nothing gathered yet: no event name, no data line, no id.
pub open spec fn acc_is_blank(a: AccView) -> bool {
    a.event.len() == 0 && !a.has_data && a.id is None
}

pub open spec fn acc_emit(a: AccView) -> SseEventView {
    SseEventView { event: a.event, data: a.data, id: a.id }
}

pub open spec fn is_crlf(c: char) -> bool {
    c == '\r' || c == '\n'
}

/// `trim_end_matches(['\r', '\n'])`.
pub open spec fn trim_line_end(s: Seq<char>) -> Seq<char>
    decreases s.len(),
{
    if s.len() > 0 && is_crlf(s.last()) {
        trim_line_end(s.drop_last())
    } else {
        s
    }
}

pub open spec fn colon() -> Seq<char> {
    seq![':']
}

pub open spec fn retry_field() -> Seq<char> {
    seq!['r', 'e', 't', 'r', 'y', ':']
}

pub open spec fn event_field() -> Seq<char> {
    seq!['e', 'v', 'e', 'n', 't', ':']
}

pub open spec fn data_field() -> Seq<char> {
    seq!['d', 'a', 't', 'a', ':']
}

pub open spec fn id_field() -> Seq<char> {
    seq!['i', 'd', ':']
}

/// Effect of one non-blank line (already stripped of leading whitespace).
pub open spec fn field_step(acc: AccView, l: Seq<char>) -> AccView {
    if starts_with(l, colon()) || starts_with(l, retry_field()) {
        acc
    } else if starts_with(l, event_field()) {
        AccView { event: trim(l.skip(6)), ..acc }
    } else if starts_with(l, data_field()) {
        let d = trim_start(l.skip(5));
        AccView {
            data: if acc.has_data { acc.data.push('\n') + d } else { d },
            has_data: true,
            ..acc
        }
    } else if starts_with(l, id_field()) {
        AccView { id: Some(trim(l.skip(3))), ..acc }
    } else {
        acc
    }
}

/// Effect of one decoded line (with its line terminator, if any).
pub open spec fn text_line_step(acc: AccView, raw: Seq<char>) -> (AccView, Option<SseEventView>) {
    let line = trim_line_end(raw);
    if line.len() == 0 {
        if acc_is_blank(acc) {
            (acc, None)
        } else {
            (blank_acc(), Some(acc_emit(acc)))
        }
    } else {
        (field_step(acc, trim_start(line)), None)
    }
}

/// Law: a blank line ends the event being assembled. When anything was
/// gathered (an event name alone is enough, as are a data line or an id),
/// the event is handed out with exactly the gathered fields, and assembling
/// starts afresh: no name, no data, no id carry over to the next event. When
/// nothing was gathered, the blank line hands out nothing.
pub proof fn lemma_blank_line_ends_event(acc: AccView, raw: Seq<char>)
    requires
        trim_line_end(raw).len() == 0,
    ensures
        (acc.event.len() > 0 || acc.has_data || acc.id is Some) ==> text_line_step(acc, raw) == (
            AccView { event: Seq::empty(), data: Seq::empty(), has_data: false, id: None },
            Some(SseEventView { event: acc.event, data: acc.data, id: acc.id }),
        ),
        (acc.event.len() == 0 && !acc.has_data && acc.id is None) ==> text_line_step(acc, raw).1 is None,
{
}

/// Law: an `event:` line sets the event name to its value without
/// surrounding whitespace, and changes nothing else.
pub proof fn lemma_event_line_sets_name(acc: AccView, v: Seq<char>)
    requires
        v.len() == 0 || !is_crlf(v.last()),
    ensures
        text_line_step(acc, event_field() + v) == (AccView { event: trim(v), ..acc }, None::<SseEventView>),
{
    let l = event_field() + v;
    assert(l.len() > 0 && !is_crlf(l.last()));
    assert(trim_line_end(l) == l);
    assert(!crate::text::is_ws(l[0]));
    assert(trim_start(l) == l);
    assert(!starts_with(l, colon())) by {
        assert(l.take(1)[0] == 'e');
    }
    assert(!starts_with(l, retry_field())) by {
        assert(l.take(6)[0] == 'e');
    }
    assert(starts_with(l, event_field())) by {
        assert(l.take(6) =~= event_field());
    }
    assert(l.skip(6) =~= v);
}

/// Law: a block that holds only an `event:` line with a non-empty name is
/// handed out as an event of that name with no data and no id, and the
/// next event starts with no name of its own.
pub proof fn lemma_event_only_block(v: Seq<char>)
    requires
        v.len() == 0 || !is_crlf(v.last()),
        trim(v).len() > 0,
    ensures
        ({
            let fresh = AccView { event: Seq::empty(), data: Seq::empty(), has_data: false, id: None };
            let after_name = text_line_step(fresh, event_field() + v).0;
            text_line_step(after_name, seq!['\n']) == (
                fresh,
                Some(SseEventView { event: trim(v), data: Seq::empty(), id: None }),
            )
        }),
{
    let fresh = AccView { event: Seq::empty(), data: Seq::empty(), has_data: false, id: None };
    lemma_event_line_sets_name(fresh, v);
    assert(trim_line_end(Seq::<char>::empty()) == Seq::<char>::empty());
    assert(seq!['\n'].drop_last() =~= Seq::<char>::empty());
    assert(trim_line_end(seq!['\n']).len() == 0);
    lemma_blank_line_ends_event(text_line_step(fresh, event_field() + v).0, seq!['\n']);
}

/// Effect of one line of bytes.
pub open spec fn line_step(acc: AccView, bytes: Seq<u8>) -> (AccView, Option<SseItem>) {
    if valid_utf8(bytes) {
        let (a, e) = text_line_step(acc, decode_utf8(bytes));
        (
            a,
            match e {
                Some(ev) => Some(SseItem::Event(ev)),
                None => None,
            },
        )
    } else {
        (blank_acc(), Some(SseItem::InvalidUtf8))
    }
}

/// State and items after reading `lines` in order.
pub open spec fn fold_lines(lines: Seq<Seq<u8>>) -> (AccView, Seq<SseItem>)
    decreases lines.len(),
{
    if lines.len() == 0 {
        (blank_acc(), Seq::empty())
    } else {
        let (a, items) = fold_lines(lines.drop_last());
        let (a2, o) = line_step(a, lines.last());
        (
            a2,
            match o {
                Some(x) => items.push(x),
                None => items,
            },
        )
    }
}

/// `bytes` split after every `\n`: the complete lines (each keeps its `\n`)
/// and the bytes after the last `\n`.
pub open spec fn split_lines(b: Seq<u8>) -> (Seq<Seq<u8>>, Seq<u8>)
    decreases b.len(),
{
    if b.len() == 0 {
        (Seq::empty(), Seq::empty())
    } else {
        let (ls, rest) = split_lines(b.drop_last());
        if b.last() == 10u8 {
            (ls.push(rest.push(10u8)), Seq::empty())
        } else {
            (ls, rest.push(b.last()))
        }
    }
}

/// Items of every complete line of `b`.
pub open spec fn complete_items(b: Seq<u8>) -> Seq<SseItem> {
    fold_lines(split_lines(b).0).1
}

/// Items of the whole stream `b` once it has ended: the final unterminated
/// line is read like any other, and an event still being assembled is
/// handed out.
pub open spec fn sse_items(b: Seq<u8>) -> Seq<SseItem> {
    let (ls, rest) = split_lines(b);
    let all = if rest.len() > 0 { ls.push(rest) } else { ls };
    let (a, items) = fold_lines(all);
    if acc_is_blank(a) {
        items
    } else {
        items.push(SseItem::Event(acc_emit(a)))
    }
}

/// Concatenation of lines.
pub open spec fn concat_lines(ls: Seq<Seq<u8>>) -> Seq<u8>
    decreases ls.len(),
{
    if ls.len() == 0 {
        Seq::empty()
    } else {
        concat_lines(ls.drop_last()) + ls.last()
    }
}

pub open spec fn no_newline(s: Seq<u8>) -> bool {
    forall|i: int| 0 <= i < s.len() ==> s[i] != 10u8
}

/// A complete line: ends with `\n`, which occurs nowhere else.
pub open spec fn complete_line(l: Seq<u8>) -> bool {
    l.len() > 0 && l.last() == 10u8 && no_newline(l.drop_last())
}

pub open spec fn all_complete(ls: Seq<Seq<u8>>) -> bool {
    forall|i: int| 0 <= i < ls.len() ==> complete_line(#[trigger] ls[i])
}

pub open spec fn is_prefix<T>(a: Seq<T>, b: Seq<T>) -> bool {
    a.len() <= b.len() && b.take(a.len() as int) =~= a
}

proof fn lemma_concat_push(ls: Seq<Seq<u8>>, x: Seq<u8>)
    ensures
        concat_lines(ls.push(x)) == concat_lines(ls) + x,
{
    assert(ls.push(x).drop_last() =~= ls);
}

proof fn lemma_concat_append(a: Seq<Seq<u8>>, b: Seq<Seq<u8>>)
    ensures
        concat_lines(a + b) == concat_lines(a) + concat_lines(b),
    decreases b.len(),
{
    if b.len() == 0 {
        assert(a + b =~= a);
        assert(concat_lines(a) + concat_lines(b) =~= concat_lines(a));
    } else {
        lemma_concat_append(a, b.drop_last());
        assert((a + b).drop_last() =~= a + b.drop_last());
        assert((a + b).last() == b.last());
        assert(concat_lines(a) + concat_lines(b) =~= concat_lines(a) + concat_lines(b.drop_last())
            + b.last());
    }
}

/// The decomposition into complete lines and an unterminated rest is unique.
proof fn lemma_split_lines_unique(b: Seq<u8>, ls: Seq<Seq<u8>>, rest: Seq<u8>)
    requires
        b == concat_lines(ls) + rest,
        all_complete(ls),
        no_newline(rest),
    ensures
        split_lines(b) == (ls, rest),
    decreases b.len(),
{
    if rest.len() > 0 {
        assert(b.drop_last() =~= concat_lines(ls) + rest.drop_last());
        lemma_split_lines_unique(b.drop_last(), ls, rest.drop_last());
        assert(b.last() == rest.last());
        assert(rest.drop_last().push(rest.last()) =~= rest);
    } else if ls.len() == 0 {
        assert(b =~= Seq::<u8>::empty());
        assert(split_lines(b).0 =~= ls);
        assert(split_lines(b).1 =~= rest);
    } else {
        let l = ls.last();
        assert(complete_line(ls[ls.len() - 1]));
        assert(b =~= concat_lines(ls.drop_last()) + l);
        assert(b.drop_last() =~= concat_lines(ls.drop_last()) + l.drop_last());
        assert forall|i: int| 0 <= i < ls.drop_last().len() implies complete_line(
            #[trigger] ls.drop_last()[i],
        ) by {
            assert(complete_line(ls[i]));
        }
        lemma_split_lines_unique(b.drop_last(), ls.drop_last(), l.drop_last());
        assert(b.last() == 10u8);
        assert(l.drop_last().push(10u8) =~= l);
        assert(ls.drop_last().push(l) =~= ls);
        assert(split_lines(b).1 =~= rest);
    }
}

/// `split_lines` describes `b`.
proof fn lemma_split_lines_shape(b: Seq<u8>)
    ensures
        b == concat_lines(split_lines(b).0) + split_lines(b).1,
        all_complete(split_lines(b).0),
        no_newline(split_lines(b).1),
    decreases b.len(),
{
    if b.len() > 0 {
        lemma_split_lines_shape(b.drop_last());
        let (ls, rest) = split_lines(b.drop_last());
        if b.last() == 10u8 {
            let l = rest.push(10u8);
            lemma_concat_push(ls, l);
            assert(l.drop_last() =~= rest);
            assert(b =~= b.drop_last().push(b.last()));
            assert forall|i: int| 0 <= i < ls.push(l).len() implies complete_line(
                #[trigger] ls.push(l)[i],
            ) by {
                if i < ls.len() {
                    assert(ls.push(l)[i] == ls[i]);
                }
            }
            assert(concat_lines(ls.push(l)) + Seq::<u8>::empty() =~= b);
        } else {
            assert(b.drop_last() == concat_lines(ls) + rest);
            assert(b =~= b.drop_last().push(b.last()));
            assert(b =~= concat_lines(ls) + rest.push(b.last()));
        }
    } else {
        assert(b =~= concat_lines(Seq::<Seq<u8>>::empty()) + Seq::<u8>::empty());
    }
}

/// Reading more input only adds complete lines after those already complete.
pub proof fn lemma_split_lines_extend(a: Seq<u8>, b: Seq<u8>)
    ensures
        is_prefix(split_lines(a).0, split_lines(a + b).0),
{
    lemma_split_lines_shape(a);
    let (la, ra) = split_lines(a);
    lemma_split_lines_shape(ra + b);
    let (lr, rr) = split_lines(ra + b);
    lemma_concat_append(la, lr);
    assert(a + b =~= concat_lines(la) + (ra + b));
    assert(a + b =~= concat_lines(la) + (concat_lines(lr) + rr));
    assert(a + b =~= concat_lines(la + lr) + rr);
    assert forall|i: int| 0 <= i < (la + lr).len() implies complete_line(#[trigger] (la + lr)[i]) by {
        if i < la.len() {
            assert((la + lr)[i] == la[i]);
        } else {
            assert((la + lr)[i] == lr[i - la.len()]);
        }
    }
    lemma_split_lines_unique(a + b, la + lr, rr);
    assert((la + lr).take(la.len() as int) =~= la);
}

/// Items already handed out for a prefix of the lines stay the first items.
pub proof fn lemma_fold_lines_prefix(a: Seq<Seq<u8>>, b: Seq<Seq<u8>>)
    requires
        is_prefix(a, b),
    ensures
        is_prefix(fold_lines(a).1, fold_lines(b).1),
    decreases b.len(),
{
    if a.len() == b.len() {
        assert(a =~= b);
    } else {
        assert(is_prefix(a, b.drop_last())) by {
            assert(b.drop_last().take(a.len() as int) =~= b.take(a.len() as int));
        }
        lemma_fold_lines_prefix(a, b.drop_last());
        let items = fold_lines(b.drop_last()).1;
        let x = fold_lines(a).1;
        let o = line_step(fold_lines(b.drop_last()).0, b.last()).1;
        match o {
            Some(y) => {
                assert(items.push(y).take(x.len() as int) =~= items.take(x.len() as int));
            },
            None => {},
        }
    }
}

/// Law: the items of the complete lines read so far never change as more
/// input arrives; they are the first items of any longer stream.
pub proof fn lemma_complete_items_extend(a: Seq<u8>, b: Seq<u8>)
    ensures
        is_prefix(complete_items(a), complete_items(a + b)),
{
    lemma_split_lines_extend(a, b);
    lemma_fold_lines_prefix(split_lines(a).0, split_lines(a + b).0);
}

/// Law: the items of the complete lines are the first items of the stream
/// once it ends.
pub proof fn lemma_complete_items_prefix_of_final(b: Seq<u8>)
    ensures
        is_prefix(complete_items(b), sse_items(b)),
{
    let (ls, rest) = split_lines(b);
    let all = if rest.len() > 0 { ls.push(rest) } else { ls };
    assert(is_prefix(ls, all)) by {
        assert(all.take(ls.len() as int) =~= ls);
    }
    lemma_fold_lines_prefix(ls, all);
    let items = fold_lines(all).1;
    if !acc_is_blank(fold_lines(all).0) {
        assert(items.push(SseItem::Event(acc_emit(fold_lines(all).0))).take(
            complete_items(b).len() as int,
        ) =~= items.take(complete_items(b).len() as int));
    }
}

} // verus!

verus! {

/// The event being assembled.
pub struct SseAccum {
    event: Vec<char>,
    data: Vec<char>,
    has_data: bool,
    id: Option<Vec<char>>,
}

impl View for SseAccum {
    type V = AccView;

    closed spec fn view(&self) -> AccView {
        AccView {
            event: self.event@,
            data: self.data@,
            has_data: self.has_data,
            id: match self.id {
                Some(v) => Some(v@),
                None => None,
            },
        }
    }
}

fn copy_vec(v: &Vec<char>) -> (r: Vec<char>)
    ensures
        r@ == v@,
{
    let r = crate::text::copy_range(v, 0, v.len());
    assert(v@.subrange(0, v@.len() as int) =~= v@);
    r
}

pub open spec fn opt_item(r: Option<Result<SseEvent, SseError>>) -> Option<SseItem> {
    match r {
        Some(x) => Some(item_of(x)),
        None => None,
    }
}

impl SseAccum {
    pub fn new() -> (a: Self)
        ensures
            a@ == blank_acc(),
    {
        SseAccum { event: Vec::new(), data: Vec::new(), has_data: false, id: None }
    }

    fn is_blank(&self) -> (r: bool)
        ensures
            r == acc_is_blank(self@),
    {
        self.event.len() == 0 && !self.has_data && self.id.is_none()
    }

    /// Hands out the gathered event and starts a new one.
    fn emit(&mut self) -> (ev: SseEvent)
        ensures
            ev@ == acc_emit(old(self)@),
            final(self)@ == blank_acc(),
    {
        let event = crate::text::string_from_chars(&self.event);
        let data = crate::text::string_from_chars(&self.data);
        let id = match &self.id {
            Some(v) => Some(crate::text::string_from_chars(v)),
            None => None,
        };
        *self = SseAccum::new();
        SseEvent { event, data, id }
    }

    /// One decoded line.
    fn text_line(&mut self, cs: &Vec<char>) -> (r: Option<SseEvent>)
        ensures
            (final(self)@, match r {
                Some(ev) => Some(ev@),
                None => None,
            }) == text_line_step(old(self)@, cs@),
    {
        let mut end = cs.len();
        assert(cs@.take(end as int) =~= cs@);
        while end > 0 && (cs[end - 1] == '\r' || cs[end - 1] == '\n')
            invariant
                end <= cs.len(),
                trim_line_end(cs@) == trim_line_end(cs@.take(end as int)),
            decreases end,
        {
            assert(cs@.take(end as int).drop_last() =~= cs@.take(end - 1));
            end = end - 1;
        }
        assert(trim_line_end(cs@) == cs@.take(end as int));
        if end == 0 {
            if self.is_blank() {
                return None;
            } else {
                return Some(self.emit());
            }
        }
        let start = crate::text::skip_ws(cs, 0, end);
        assert(cs@.subrange(0, end as int) =~= cs@.take(end as int));
        let ghost l = cs@.subrange(start as int, end as int);
        let ghost old_acc = self@;
        proof {
            assert([':']@ =~= colon());
            assert(['r', 'e', 't', 'r', 'y', ':']@ =~= retry_field());
            assert(['e', 'v', 'e', 'n', 't', ':']@ =~= event_field());
            assert(['d', 'a', 't', 'a', ':']@ =~= data_field());
            assert(['i', 'd', ':']@ =~= id_field());
            assert(trim_start(trim_line_end(cs@)) == l);
        }
        if crate::text::has_prefix_at(cs, start, end, &[':']) || crate::text::has_prefix_at(
            cs,
            start,
            end,
            &['r', 'e', 't', 'r', 'y', ':'],
        ) {
            assert(self@ == field_step(old_acc, l));
        } else if crate::text::has_prefix_at(cs, start, end, &['e', 'v', 'e', 'n', 't', ':']) {
            let (a, b) = crate::text::trim_range(cs, start + 6, end);
            assert(l.skip(6) =~= cs@.subrange(start + 6, end as int));
            self.event = crate::text::copy_range(cs, a, b);
            assert(self@ == field_step(old_acc, l));
        } else if crate::text::has_prefix_at(cs, start, end, &['d', 'a', 't', 'a', ':']) {
            let a = crate::text::skip_ws(cs, start + 5, end);
            assert(l.skip(5) =~= cs@.subrange(start + 5, end as int));
            let mut d: Vec<char> = if self.has_data {
                let mut d0 = copy_vec(&self.data);
                d0.push('\n');
                d0
            } else {
                Vec::new()
            };
            let ghost base = d@;
            let mut k = a;
            while k < end
                invariant
                    a <= k <= end <= cs.len(),
                    d@ == base + cs@.subrange(a as int, k as int),
                decreases end - k,
            {
                d.push(cs[k]);
                k = k + 1;
                assert(base + cs@.subrange(a as int, k as int) =~= (base + cs@.subrange(
                    a as int,
                    k - 1,
                )).push(cs@[k - 1]));
            }
            self.data = d;
            self.has_data = true;
            assert(self.data@ =~= if old_acc.has_data {
                old_acc.data.push('\n') + trim_start(l.skip(5))
            } else {
                trim_start(l.skip(5))
            });
            assert(self@ == field_step(old_acc, l));
        } else if crate::text::has_prefix_at(cs, start, end, &['i', 'd', ':']) {
            let (a, b) = crate::text::trim_range(cs, start + 3, end);
            assert(l.skip(3) =~= cs@.subrange(start + 3, end as int));
            self.id = Some(crate::text::copy_range(cs, a, b));
            assert(self@ == field_step(old_acc, l));
        }
        assert(self@ == field_step(old_acc, l));
        None
    }

    /// One line of bytes (with its `\n`, if any).
    fn process_line(&mut self, bytes: &Vec<u8>) -> (r: Option<Result<SseEvent, SseError>>)
        ensures
            (final(self)@, opt_item(r)) == line_step(old(self)@, bytes@),
    {
        match crate::text::utf8_decode(bytes.as_slice()) {
            None => {
                *self = SseAccum::new();
                Some(Err(SseError::InvalidUtf8))
            },
            Some(s) => {
                let cs = crate::text::chars_of(s.as_str());
                match self.text_line(&cs) {
                    Some(ev) => Some(Ok(ev)),
                    None => None,
                }
            },
        }
    }
}

} // verus!

verus! {

/// Incremental SSE decoder over a chunked byte stream.
///
/// Feed body chunks with [`SseDecoder::push`], call
/// [`SseDecoder::end_input`] once the body has ended, and take items with
/// [`SseDecoder::next_item`] until it returns `None` (which, before the end,
/// means that more input is needed). Whatever the chunking, the items handed
/// out are exactly [`sse_items`] of the whole body.
pub struct SseDecoder {
    buf: Vec<u8>,
    pos: usize,
    acc: SseAccum,
    eof: bool,
    tail: bool,
    done: bool,
    fed: Ghost<Seq<u8>>,
    lines: Ghost<Seq<Seq<u8>>>,
    produced: Ghost<Seq<SseItem>>,
}

impl SseDecoder {
    /// Every byte pushed so far.
    pub closed spec fn fed(&self) -> Seq<u8> {
        self.fed@
    }

    /// Whether the input has ended.
    pub closed spec fn ended(&self) -> bool {
        self.eof
    }

    /// Every item handed out so far.
    pub closed spec fn produced(&self) -> Seq<SseItem> {
        self.produced@
    }

    /// What the items handed out are heading for: the items of the complete
    /// lines while input may still arrive, the items of the whole stream once
    /// it has ended.
    pub open spec fn target(&self) -> Seq<SseItem> {
        if self.ended() {
            sse_items(self.fed())
        } else {
            complete_items(self.fed())
        }
    }

    pub closed spec fn wf(&self) -> bool {
        &&& self.pos <= self.buf@.len()
        &&& self.fed@ == concat_lines(self.lines@) + self.buf@.subrange(
            self.pos as int,
            self.buf@.len() as int,
        )
        &&& !self.tail ==> all_complete(self.lines@)
        &&& self.tail ==> {
            &&& self.eof
            &&& self.pos == self.buf@.len()
            &&& self.lines@.len() > 0
            &&& all_complete(self.lines@.drop_last())
            &&& no_newline(self.lines@.last())
            &&& self.lines@.last().len() > 0
        }
        &&& !self.done ==> (self.acc@, self.produced@) == fold_lines(self.lines@)
        &&& self.done ==> {
            &&& self.eof
            &&& self.produced@ == sse_items(self.fed@)
        }
    }

    /// A decoder that has read nothing.
    pub fn new() -> (d: Self)
        ensures
            d.wf(),
            d.fed() == Seq::<u8>::empty(),
            !d.ended(),
            d.produced() == Seq::<SseItem>::empty(),
    {
        let d = SseDecoder {
            buf: Vec::new(),
            pos: 0,
            acc: SseAccum::new(),
            eof: false,
            tail: false,
            done: false,
            fed: Ghost(Seq::empty()),
            lines: Ghost(Seq::empty()),
            produced: Ghost(Seq::empty()),
        };
        assert(d.buf@.subrange(0, 0) =~= Seq::<u8>::empty());
        assert(concat_lines(Seq::<Seq<u8>>::empty()) + Seq::<u8>::empty() =~= Seq::<u8>::empty());
        d
    }

    /// Appends a chunk of the body.
    pub fn push(&mut self, chunk: &[u8])
        requires
            old(self).wf(),
            !old(self).ended(),
        ensures
            final(self).wf(),
            final(self).fed() == old(self).fed() + chunk@,
            !final(self).ended(),
            final(self).produced() == old(self).produced(),
    {
        let mut nb: Vec<u8> = crate::text::copy_range(&self.buf, self.pos, self.buf.len());
        let ghost rest = nb@;
        let mut i: usize = 0;
        while i < chunk.len()
            invariant
                i <= chunk.len(),
                nb@ == rest + chunk@.take(i as int),
            decreases chunk.len() - i,
        {
            nb.push(chunk[i]);
            i = i + 1;
            assert(rest + chunk@.take(i as int) =~= (rest + chunk@.take(i - 1)).push(
                chunk@[i - 1],
            ));
        }
        assert(chunk@.take(chunk@.len() as int) =~= chunk@);
        self.buf = nb;
        self.pos = 0;
        self.fed = Ghost(self.fed@ + chunk@);
        assert(self.buf@.subrange(0, self.buf@.len() as int) =~= self.buf@);
        assert(self.fed@ =~= concat_lines(self.lines@) + self.buf@.subrange(
            0,
            self.buf@.len() as int,
        ));
    }

    /// Whether the end of the body was marked.
    pub fn input_ended(&self) -> (r: bool)
        ensures
            r == self.ended(),
    {
        self.eof
    }

    /// Marks the end of the body.
    pub fn end_input(&mut self)
        requires
            old(self).wf(),
        ensures
            final(self).wf(),
            final(self).fed() == old(self).fed(),
            final(self).ended(),
            final(self).produced() == old(self).produced(),
    {
        self.eof = true;
    }

    proof fn lemma_prefix_of_target(&self)
        requires
            self.wf(),
        ensures
            is_prefix(self.produced(), self.target()),
    {
        let rest = self.buf@.subrange(self.pos as int, self.buf@.len() as int);
        if self.done {
            assert(self.produced@.take(self.produced@.len() as int) =~= self.produced@);
        } else if self.tail {
            let ls = self.lines@;
            lemma_concat_push(ls.drop_last(), ls.last());
            assert(ls.drop_last().push(ls.last()) =~= ls);
            assert(rest =~= Seq::<u8>::empty());
            assert(self.fed@ =~= concat_lines(ls.drop_last()) + ls.last());
            lemma_split_lines_unique(self.fed@, ls.drop_last(), ls.last());
            assert(is_prefix(ls, ls)) by {
                assert(ls.take(ls.len() as int) =~= ls);
            }
            lemma_fold_lines_prefix(ls, ls);
            let (a, items) = fold_lines(ls);
            if !acc_is_blank(a) {
                assert(items.push(SseItem::Event(acc_emit(a))).take(items.len() as int)
                    =~= items);
            }
        } else {
            lemma_split_lines_shape(rest);
            let (lr, rr) = split_lines(rest);
            lemma_concat_append(self.lines@, lr);
            assert(self.fed@ =~= concat_lines(self.lines@ + lr) + rr);
            assert forall|i: int| 0 <= i < (self.lines@ + lr).len() implies complete_line(
                #[trigger] (self.lines@ + lr)[i],
            ) by {
                if i < self.lines@.len() {
                    assert((self.lines@ + lr)[i] == self.lines@[i]);
                } else {
                    assert((self.lines@ + lr)[i] == lr[i - self.lines@.len()]);
                }
            }
            lemma_split_lines_unique(self.fed@, self.lines@ + lr, rr);
            assert(is_prefix(self.lines@, self.lines@ + lr)) by {
                assert((self.lines@ + lr).take(self.lines@.len() as int) =~= self.lines@);
            }
            lemma_fold_lines_prefix(self.lines@, self.lines@ + lr);
            if self.eof {
                lemma_complete_items_prefix_of_final(self.fed@);
                let p = self.produced@;
                let c = complete_items(self.fed@);
                let f = sse_items(self.fed@);
                assert(f.take(p.len() as int) =~= c.take(p.len() as int));
            }
        }
    }

    /// The next item, or `None` when every byte read so far has been used
    /// (and, once the input has ended, every item has been handed out).
    pub fn next_item(&mut self) -> (r: Option<Result<SseEvent, SseError>>)
        requires
            old(self).wf(),
        ensures
            final(self).wf(),
            final(self).fed() == old(self).fed(),
            final(self).ended() == old(self).ended(),
            r matches Some(x) ==> final(self).produced() == old(self).produced().push(item_of(x)),
            r is None ==> final(self).produced() == old(self).produced(),
            r is None ==> final(self).produced() == final(self).target(),
            is_prefix(final(self).produced(), final(self).target()),
    {
        loop
            invariant
                self.wf(),
                self.fed() == old(self).fed(),
                self.ended() == old(self).ended(),
                self.produced() == old(self).produced(),
            decreases self.buf@.len() - self.pos, if self.done { 0int } else { 1int },
        {
            if self.done {
                let ghost rest = self.buf@.subrange(self.pos as int, self.buf@.len() as int);
                proof {
                    self.lemma_prefix_of_target();
                    assert(self.produced@.take(self.produced@.len() as int) =~= self.produced@);
                }
                return None;
            }
            let len = self.buf.len();
            let mut j = self.pos;
            while j < len && self.buf[j] != 10u8
                invariant
                    self.pos <= j <= len == self.buf@.len(),
                    no_newline(self.buf@.subrange(self.pos as int, j as int)),
                decreases len - j,
            {
                j = j + 1;
                assert(forall|i: int|
                    0 <= i < j - self.pos ==> self.buf@.subrange(self.pos as int, j as int)[i]
                        == self.buf@.subrange(self.pos as int, j - 1)[i] || i == j - 1
                        - self.pos);
            }
            let ghost before = self.buf@.subrange(self.pos as int, len as int);
            if j < len {
                // a complete line
                let line = crate::text::copy_range(&self.buf, self.pos, j + 1);
                proof {
                    assert(line@.drop_last() =~= self.buf@.subrange(self.pos as int, j as int));
                    assert(complete_line(line@));
                    lemma_concat_push(self.lines@, line@);
                    assert(before =~= line@ + self.buf@.subrange(j + 1, len as int));
                    assert(self.lines@.push(line@).drop_last() =~= self.lines@);
                    assert forall|i: int| 0 <= i < self.lines@.push(line@).len() implies complete_line(
                        #[trigger] self.lines@.push(line@)[i],
                    ) by {
                        if i < self.lines@.len() {
                            assert(self.lines@.push(line@)[i] == self.lines@[i]);
                        }
                    }
                }
                let ghost old_lines = self.lines@;
                self.lines = Ghost(self.lines@.push(line@));
                self.pos = j + 1;
                assert(self.fed@ =~= concat_lines(old_lines) + line@ + self.buf@.subrange(
                    j + 1,
                    len as int,
                ));
                assert(self.fed@ =~= concat_lines(self.lines@) + self.buf@.subrange(
                    self.pos as int,
                    len as int,
                ));
                let r = self.acc.process_line(&line);
                match r {
                    Some(x) => {
                        self.produced = Ghost(self.produced@.push(item_of(x)));
                        proof {
                            self.lemma_prefix_of_target();
                        }
                        return Some(x);
                    },
                    None => {},
                }
            } else if self.eof && self.pos < len {
                // the last line, which has no `\n`
                let line = crate::text::copy_range(&self.buf, self.pos, len);
                proof {
                    lemma_concat_push(self.lines@, line@);
                    assert(self.lines@.push(line@).drop_last() =~= self.lines@);
                    assert(self.lines@.push(line@).last() == line@);
                }
                self.lines = Ghost(self.lines@.push(line@));
                self.pos = len;
                self.tail = true;
                assert(self.buf@.subrange(len as int, len as int) =~= Seq::<u8>::empty());
                assert(self.fed@ =~= concat_lines(self.lines@) + self.buf@.subrange(
                    len as int,
                    len as int,
                ));
                let r = self.acc.process_line(&line);
                match r {
                    Some(x) => {
                        self.produced = Ghost(self.produced@.push(item_of(x)));
                        proof {
                            self.lemma_prefix_of_target();
                        }
                        return Some(x);
                    },
                    None => {},
                }
            } else if self.eof {
                // every line has been read
                proof {
                    let ls = self.lines@;
                    if self.tail {
                        lemma_concat_push(ls.drop_last(), ls.last());
                        assert(ls.drop_last().push(ls.last()) =~= ls);
                        assert(self.fed@ =~= concat_lines(ls.drop_last()) + ls.last());
                        lemma_split_lines_unique(self.fed@, ls.drop_last(), ls.last());
                    } else {
                        assert(before =~= Seq::<u8>::empty());
                        assert(self.fed@ =~= concat_lines(ls) + Seq::<u8>::empty());
                        lemma_split_lines_unique(self.fed@, ls, Seq::<u8>::empty());
                    }
                }
                self.done = true;
                if self.acc.is_blank() {
                    assert(self.produced@.take(self.produced@.len() as int) =~= self.produced@);
                    return None;
                } else {
                    let ev = self.acc.emit();
                    self.produced = Ghost(self.produced@.push(SseItem::Event(ev@)));
                    assert(self.produced@.take(self.produced@.len() as int) =~= self.produced@);
                    return Some(Ok(ev));
                }
            } else {
                // more input is needed
                proof {
                    lemma_concat_append(self.lines@, Seq::<Seq<u8>>::empty());
                    assert(self.lines@ + Seq::<Seq<u8>>::empty() =~= self.lines@);
                    lemma_split_lines_unique(self.fed@, self.lines@, before);
                    assert(self.produced@.take(self.produced@.len() as int) =~= self.produced@);
                }
                return None;
            }
        }
    }

    /// Law: the items handed out do not depend on how the body is chunked.
    /// Whatever chunks were pushed, the items handed out so far are the
    /// first items of [`sse_items`] of the whole body, however the body goes
    /// on (`rest` is what is still to come: nothing once the input ended).
    pub proof fn lemma_items_of_any_chunking(&self, rest: Seq<u8>)
        requires
            self.wf(),
            self.ended() ==> rest.len() == 0,
        ensures
            is_prefix(self.produced(), sse_items(self.fed() + rest)),
    {
        self.lemma_prefix_of_target();
        if self.ended() {
            assert(self.fed() + rest =~= self.fed());
        } else {
            let body = self.fed() + rest;
            lemma_complete_items_extend(self.fed(), rest);
            lemma_complete_items_prefix_of_final(body);
            let p = self.produced();
            let c = complete_items(self.fed());
            let f = sse_items(body);
            assert(f.take(p.len() as int) =~= p) by {
                assert forall|i: int| 0 <= i < p.len() implies f.take(p.len() as int)[i] == p[i] by {
                    assert(c[i] == p[i]);
                    assert(complete_items(body)[i] == c[i]);
                    assert(f[i] == complete_items(body)[i]);
                }
            }
        }
    }

}

} // verus!

verus! {

/// Law: a body decodes to the same items however it is chunked. Two
/// decoders that were pushed two chunkings of one body, whose input has
/// ended and which have been drained (their last `next_item` gave `None`),
/// handed out the same items: those of [`sse_items`] of the body.
pub proof fn lemma_chunking_independent(
    a: SseDecoder,
    b: SseDecoder,
    chunks_a: Seq<Seq<u8>>,
    chunks_b: Seq<Seq<u8>>,
)
    requires
        a.wf(),
        b.wf(),
        a.fed() == chunks_a.flatten(),
        b.fed() == chunks_b.flatten(),
        chunks_a.flatten() == chunks_b.flatten(),
        a.ended(),
        b.ended(),
        a.produced() == a.target(),
        b.produced() == b.target(),
    ensures
        a.produced() == b.produced(),
        a.produced() == sse_items(chunks_a.flatten()),
{
}

} // verus!

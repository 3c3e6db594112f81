//! Cursor pagination over OpenAI list responses: the page shape, the caps of
//! a cursor walk, and the walk's decisions from one page to the next.
use vstd::prelude::*;
use crate::json::JsonValue;

verus! {

/// Hard caps for a cursor walk over [`ListPage`]s.
///
/// `max_pages` bounds how many list requests are made (each page is one
/// request). `max_items`, when set, stops collection once that many rows
/// have been appended (across pages).
#[derive(Debug, Clone, Copy, PartialEq, Eq, Structural)]
pub struct ListPagesLimits {
    /// Upper bound on list requests (a walk makes at least one).
    pub max_pages: u32,
    /// Optional cap on total items returned; `None` means only `max_pages`
    /// limits volume.
    pub max_items: Option<u32>,
}

impl Default for ListPagesLimits {
    fn default() -> (r: ListPagesLimits)
        ensures
            r.max_pages == 100,
            r.max_items == Some(10_000u32),
    {
        ListPagesLimits { max_pages: 100, max_items: Some(10_000) }
    }
}

impl ListPagesLimits {
    /// No per-item cap (still bounded by `max_pages`, which is at least one).
    pub fn pages_only(max_pages: u32) -> (r: ListPagesLimits)
        ensures
            r.max_pages == if max_pages >= 1 { max_pages } else { 1 },
            r.max_items is None,
    {
        ListPagesLimits { max_pages: if max_pages >= 1 { max_pages } else { 1 }, max_items: None }
    }
}

/// Generic list/cursor page matching common OpenAI list responses.
pub struct ListPage<T> {
    /// Listed items.
    pub data: Vec<T>,
    /// Object type marker.
    pub object: Option<String>,
    /// First id in the page, when present.
    pub first_id: Option<String>,
    /// Last id in the page, when present.
    pub last_id: Option<String>,
    /// Whether more pages exist.
    pub has_more: Option<bool>,
    /// Members of the response not named above, in order.
    pub extra: Vec<(String, JsonValue)>,
}

/// Whether a page reports more pages (absent means no).
pub open spec fn has_more_spec<T>(p: ListPage<T>) -> bool {
    p.has_more == Some(true)
}

/// The `after` cursor for the next page: `last_id`, when more pages exist.
pub open spec fn after_cursor_spec<T>(p: ListPage<T>) -> Option<String> {
    if has_more_spec(p) {
        p.last_id
    } else {
        None
    }
}

impl<T> ListPage<T> {
    /// Whether the API reports additional pages.
    pub fn has_more(&self) -> (r: bool)
        ensures
            r == has_more_spec(*self),
    {
        match self.has_more {
            Some(b) => b,
            None => false,
        }
    }

    /// Cursor to pass as `after` (ascending list order) when more pages
    /// exist: `last_id`, which may be absent.
    pub fn after_cursor(&self) -> (r: Option<String>)
        ensures
            r == after_cursor_spec(*self),
    {
        if !self.has_more() {
            return None;
        }
        match &self.last_id {
            Some(s) => Some(s.clone()),
            None => None,
        }
    }
}

/// Appends `data` to `out` item by item; before each item, stops once `out`
/// holds `cap` items. The flag tells whether it stopped at the cap.
pub open spec fn take_items<T>(out: Seq<T>, data: Seq<T>, cap: Option<u32>) -> (Seq<T>, bool)
    decreases data.len(),
{
    if data.len() == 0 {
        (out, false)
    } else if cap matches Some(c) && out.len() >= c {
        (out, true)
    } else {
        take_items(out.push(data[0]), data.drop_first(), cap)
    }
}

/// What a walk does after reading a page.
#[derive(Debug, PartialEq, Eq)]
pub enum WalkStep {
    /// Request the next page with this `after` cursor.
    Next(String),
    /// The walk is over; its items are complete.
    Finished,
    /// The page reports more pages but gives no `last_id` to continue from.
    MissingCursor,
}

impl WalkStep {
    /// The error text of [`WalkStep::MissingCursor`].
    pub fn missing_cursor_message() -> (s: String)
        ensures
            s@ == "OpenAI list: has_more is true but last_id is missing; cannot advance after cursor"@,
    {
        String::from_str(
            "OpenAI list: has_more is true but last_id is missing; cannot advance after cursor",
        )
    }
}

/// State of a cursor walk: the items collected so far and the pages read.
pub struct ListWalk<T> {
    items: Vec<T>,
    pages: u32,
    max_pages: u32,
    max_items: Option<u32>,
    finished: bool,
}

impl<T> ListWalk<T> {
    pub closed spec fn items_spec(&self) -> Seq<T> {
        self.items@
    }

    pub closed spec fn pages_spec(&self) -> nat {
        self.pages as nat
    }

    pub closed spec fn max_pages_spec(&self) -> nat {
        self.max_pages as nat
    }

    pub closed spec fn max_items_spec(&self) -> Option<u32> {
        self.max_items
    }

    pub closed spec fn finished_spec(&self) -> bool {
        self.finished
    }

    /// The walk's invariant: at least one page is allowed, no more pages are
    /// read than allowed, and the items stay within the cap.
    pub closed spec fn wf(&self) -> bool {
        &&& 1 <= self.max_pages
        &&& self.pages <= self.max_pages
        &&& (self.max_items matches Some(c) ==> self.items@.len() <= c)
    }

    /// Whether the walk wants another page.
    pub open spec fn wants_page_spec(&self) -> bool {
        !self.finished_spec() && self.pages_spec() < self.max_pages_spec()
    }

    /// A walk under `limits` (at least one page is read).
    pub fn new(limits: ListPagesLimits) -> (w: ListWalk<T>)
        ensures
            w.wf(),
            w.items_spec() == Seq::<T>::empty(),
            w.pages_spec() == 0,
            w.max_pages_spec() == if limits.max_pages >= 1 { limits.max_pages } else { 1 },
            w.max_items_spec() == limits.max_items,
            !w.finished_spec(),
    {
        ListWalk {
            items: Vec::new(),
            pages: 0,
            max_pages: if limits.max_pages >= 1 { limits.max_pages } else { 1 },
            max_items: limits.max_items,
            finished: false,
        }
    }

    /// Whether another page should be requested.
    pub fn wants_page(&self) -> (r: bool)
        ensures
            r == self.wants_page_spec(),
    {
        !self.finished && self.pages < self.max_pages
    }

    /// Takes the page just read: appends its items up to the cap, then
    /// decides how the walk goes on.
    pub fn take_page(&mut self, page: ListPage<T>) -> (r: WalkStep)
        requires
            old(self).wf(),
            old(self).wants_page_spec(),
        ensures
            final(self).wf(),
            final(self).pages_spec() == old(self).pages_spec() + 1,
            final(self).max_pages_spec() == old(self).max_pages_spec(),
            final(self).max_items_spec() == old(self).max_items_spec(),
            final(self).items_spec() == take_items(
                old(self).items_spec(),
                page.data@,
                old(self).max_items_spec(),
            ).0,
            if take_items(old(self).items_spec(), page.data@, old(self).max_items_spec()).1 {
                r == WalkStep::Finished && final(self).finished_spec()
            } else {
                match after_cursor_spec(page) {
                    Some(a) => r == WalkStep::Next(a) && !final(self).finished_spec(),
                    None => final(self).finished_spec() && if has_more_spec(page) {
                        r == WalkStep::MissingCursor
                    } else {
                        r == WalkStep::Finished
                    },
                }
            },
    {
        let next_after = page.after_cursor();
        let has_more_flag = page.has_more();
        self.pages = self.pages + 1;
        let ghost out0 = self.items@;
        let ghost cap = self.max_items;
        let ghost all = page.data@;
        let data = page.data;
        proof {
            assert(all.skip(0) =~= all);
        }
        for item in it: data
            invariant
                it.seq() == all,
                take_items(out0, all, cap) == take_items(self.items@, all.skip(it.index() as int), cap),
                cap == self.max_items,
                cap == old(self).max_items,
                out0 == old(self).items@,
                all == page.data@,
                self.pages == old(self).pages + 1,
                self.finished == old(self).finished,
                self.max_pages == old(self).max_pages,
                1 <= self.max_pages,
                self.pages <= self.max_pages,
                (cap matches Some(c) ==> self.items@.len() <= c),
        {
            let ghost tail = all.skip(it.index() as int);
            assert(tail.drop_first() =~= all.skip(it.index() + 1));
            assert(tail[0] == item);
            if let Some(c) = self.max_items {
                if self.items.len() >= c as usize {
                    self.finished = true;
                    return WalkStep::Finished;
                }
            }
            self.items.push(item);
        }
        assert(all.skip(all.len() as int).len() == 0);
        match next_after {
            Some(after) => WalkStep::Next(after),
            None => {
                self.finished = true;
                if has_more_flag {
                    WalkStep::MissingCursor
                } else {
                    WalkStep::Finished
                }
            },
        }
    }

    /// The items collected.
    pub fn into_items(self) -> (v: Vec<T>)
        ensures
            v@ == self.items_spec(),
    {
        self.items
    }
}

} // verus!

verus! {

/// How many items of a page fit under the cap, given `had` items already.
pub open spec fn room(had: int, cap: Option<u32>, page_len: int) -> int {
    match cap {
        Some(c) => if c - had <= 0 {
            0
        } else if c - had < page_len {
            c - had
        } else {
            page_len
        },
        None => page_len,
    }
}

/// A page contributes its first items, as many as the cap leaves room for;
/// the walk stops at the cap exactly when the page has more items than that.
pub proof fn lemma_take_items_prefix<T>(out: Seq<T>, data: Seq<T>, cap: Option<u32>)
    ensures
        take_items(out, data, cap).0 == out + data.take(room(out.len() as int, cap, data.len() as int)),
        take_items(out, data, cap).1 == (room(out.len() as int, cap, data.len() as int) < data.len()),
    decreases data.len(),
{
    let n = room(out.len() as int, cap, data.len() as int);
    if data.len() == 0 {
        assert(out + data.take(0) =~= out);
    } else if cap matches Some(c) && out.len() >= c {
        assert(out + data.take(0) =~= out);
    } else {
        lemma_take_items_prefix(out.push(data[0]), data.drop_first(), cap);
        let m = room(out.len() as int + 1, cap, data.len() - 1);
        assert(m + 1 == n);
        assert(out.push(data[0]) + data.drop_first().take(m) =~= out + data.take(n));
    }
}

impl<T> ListWalk<T> {
    /// A walk never reads more pages than allowed (and is allowed at least
    /// one), and never holds more items than the cap.
    pub proof fn lemma_within_limits(&self)
        requires
            self.wf(),
        ensures
            1 <= self.max_pages_spec(),
            self.pages_spec() <= self.max_pages_spec(),
            self.max_items_spec() matches Some(c) ==> self.items_spec().len() <= c,
    {
    }
}

} // verus!

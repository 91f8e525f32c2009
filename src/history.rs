//! History reading: a channel's messages, fetched newest first, one page at
//! a time, each page asked for with the oldest message of the previous page
//! as its cursor.
//!
//! The reader is a state machine: the caller asks it for the next request,
//! performs the fetch, and hands back what happened.

use vstd::prelude::*;

use crate::model::Message;

verus! {

/// The most messages the platform serves in one page.
pub const PAGE_LIMIT: usize = 100;

/// What the reader asks the platform for: the newest messages older than
/// `before` (the newest of all when `before` is absent), at most `limit`.
#[derive(Clone, Copy, Debug, PartialEq, Eq, Structural)]
pub struct PageRequest {
    pub before: Option<u64>,
    pub limit: usize,
}

/// What came of one page fetch.
#[derive(Debug, PartialEq, Eq)]
pub enum FetchEvent {
    Page(Vec<Message>),
    TimedOut,
    Failed,
}

/// How the history fetch of a channel ended.
#[derive(Debug, PartialEq, Eq)]
pub enum HistoryOutcome {
    /// Every message, newest first.
    Complete(Vec<Message>),
    /// The time budget ran out; what was fetched until then.
    TimedOut(Vec<Message>),
    /// A page fetch failed.
    FetchFailed,
}

/// The reader's state: the cursor of the next request and the messages
/// fetched so far, newest first.
#[derive(Debug)]
pub struct HistoryReader {
    pub cursor: Option<u64>,
    pub fetched: Vec<Message>,
}

/// Where the reader goes after an event.
#[derive(Debug)]
pub enum ReaderStep {
    Continue(HistoryReader),
    Done(HistoryOutcome),
}

/// Whether `m` is older than the cursor `before`.
pub open spec fn is_older(m: Message, before: Option<u64>) -> bool {
    match before {
        Some(b) => m.id < b,
        None => true,
    }
}

/// The page that a platform holding the history `h` (newest first) serves
/// for a request with cursor `before`.
pub open spec fn served_page(h: Seq<Message>, before: Option<u64>) -> Seq<Message> {
    let older = h.filter(|m: Message| is_older(m, before));
    if older.len() <= PAGE_LIMIT {
        older
    } else {
        older.take(PAGE_LIMIT as int)
    }
}

/// Message IDs strictly decrease: the order in which the platform lists a
/// channel's history.
pub open spec fn newest_first(h: Seq<Message>) -> bool {
    forall|i: int, j: int| 0 <= i < j < h.len() ==> h[i].id > h[j].id
}

/// The cursor and the messages after a non-empty page was received.
pub open spec fn after_page(cursor_and_fetched: (Option<u64>, Seq<Message>), page: Seq<Message>) -> (
    Option<u64>,
    Seq<Message>,
) {
    (Some(page.last().id), cursor_and_fetched.1 + page)
}

/// What the reader returns when each of at most `fuel` requests is answered
/// by a platform holding `h`; `None` when the requests run out first.
pub open spec fn drive(h: Seq<Message>, cursor_and_fetched: (Option<u64>, Seq<Message>), fuel: nat) -> Option<
    Seq<Message>,
>
    decreases fuel,
{
    if fuel == 0 {
        None
    } else {
        let page = served_page(h, cursor_and_fetched.0);
        if page.len() == 0 {
            Some(cursor_and_fetched.1)
        } else {
            drive(h, after_page(cursor_and_fetched, page), (fuel - 1) as nat)
        }
    }
}

impl HistoryReader {
    /// A reader that has fetched nothing yet.
    pub fn new() -> (r: HistoryReader)
        ensures
            r.cursor is None,
            r.fetched@ == Seq::<Message>::empty(),
    {
        HistoryReader { cursor: None, fetched: Vec::new() }
    }

    /// The next page to ask for.
    pub fn next_request(&self) -> (r: PageRequest)
        ensures
            r.before == self.cursor,
            r.limit == PAGE_LIMIT,
    {
        PageRequest { before: self.cursor, limit: PAGE_LIMIT }
    }

    /// Takes in what the last request brought. An empty page ends the fetch
    /// with every message; a page moves the cursor to its oldest message; a
    /// timeout keeps what was fetched; a failure keeps nothing.
    pub fn step(self, event: FetchEvent) -> (r: ReaderStep)
        ensures
            match event {
                FetchEvent::Page(page) => if page@.len() == 0 {
                    r == ReaderStep::Done(HistoryOutcome::Complete(self.fetched))
                } else {
                    r matches ReaderStep::Continue(next) && (next.cursor, next.fetched@)
                        == after_page((self.cursor, self.fetched@), page@)
                },
                FetchEvent::TimedOut => r == ReaderStep::Done(HistoryOutcome::TimedOut(self.fetched)),
                FetchEvent::Failed => r == ReaderStep::Done(HistoryOutcome::FetchFailed),
            },
    {
        match event {
            FetchEvent::Page(mut page) => {
                if page.len() == 0 {
                    ReaderStep::Done(HistoryOutcome::Complete(self.fetched))
                } else {
                    let oldest = page[page.len() - 1].id;
                    let mut fetched = self.fetched;
                    fetched.append(&mut page);
                    ReaderStep::Continue(HistoryReader { cursor: Some(oldest), fetched })
                }
            },
            FetchEvent::TimedOut => ReaderStep::Done(HistoryOutcome::TimedOut(self.fetched)),
            FetchEvent::Failed => ReaderStep::Done(HistoryOutcome::FetchFailed),
        }
    }
}

impl HistoryOutcome {
    /// The messages of a complete fetch; none for a channel to be skipped
    /// after a timeout or a failed fetch.
    pub fn into_complete(self) -> (r: Option<Vec<Message>>)
        ensures
            match self {
                HistoryOutcome::Complete(m) => r == Some(m),
                _ => r is None,
            },
    {
        match self {
            HistoryOutcome::Complete(m) => Some(m),
            _ => None,
        }
    }
}

/// The cursor after the first `k` messages of `h` were fetched.
pub open spec fn cursor_at(h: Seq<Message>, k: int) -> Option<u64> {
    if k == 0 {
        None
    } else {
        Some(h[k - 1].id)
    }
}

/// Filtering a sequence whose first `k` elements fail the predicate and whose
/// others pass it leaves the elements from `k` on.
proof fn lemma_filter_split(h: Seq<Message>, before: Option<u64>, k: int)
    requires
        0 <= k <= h.len(),
        forall|i: int| 0 <= i < k ==> !is_older(#[trigger] h[i], before),
        forall|i: int| k <= i < h.len() ==> is_older(#[trigger] h[i], before),
    ensures
        h.filter(|m: Message| is_older(m, before)) == h.skip(k),
    decreases h.len(),
{
    reveal(Seq::filter);
    let p = |m: Message| is_older(m, before);
    if h.len() == 0 {
        assert(h.skip(k) =~= Seq::<Message>::empty());
    } else {
        let d = h.drop_last();
        if k < h.len() {
            lemma_filter_split(d, before, k);
            assert(p(h.last()));
            assert(d.skip(k).push(h.last()) =~= h.skip(k));
        } else {
            lemma_filter_split(d, before, k - 1);
            assert(!p(h[h.len() - 1]));
            assert(d.skip(k - 1) =~= Seq::<Message>::empty());
            assert(h.skip(k) =~= Seq::<Message>::empty());
        }
    }
}

/// After `k` messages were fetched, the platform serves the next ones.
proof fn lemma_served_page_continues(h: Seq<Message>, k: int)
    requires
        newest_first(h),
        0 <= k <= h.len(),
    ensures
        served_page(h, cursor_at(h, k)) == h.subrange(
            k,
            if h.len() - k <= PAGE_LIMIT {
                h.len() as int
            } else {
                k + PAGE_LIMIT
            },
        ),
{
    let c = cursor_at(h, k);
    assert forall|i: int| 0 <= i < k implies !is_older(#[trigger] h[i], c) by {
        if i < k - 1 {
            assert(h[i].id > h[k - 1].id);
        }
    }
    lemma_filter_split(h, c, k);
    if h.len() - k > PAGE_LIMIT {
        assert(h.skip(k).take(PAGE_LIMIT as int) =~= h.subrange(k, k + PAGE_LIMIT));
    }
    assert(h.skip(k) =~= h.subrange(k, h.len() as int));
}

proof fn lemma_drive_from(h: Seq<Message>, k: int, fuel: nat)
    requires
        newest_first(h),
        0 <= k <= h.len(),
        fuel >= h.len() - k + 1,
    ensures
        drive(h, (cursor_at(h, k), h.take(k)), fuel) == Some(h),
    decreases h.len() - k,
{
    lemma_served_page_continues(h, k);
    let page = served_page(h, cursor_at(h, k));
    if k == h.len() {
        assert(page.len() == 0);
        assert(h.take(k) =~= h);
    } else {
        let k2 = if h.len() - k <= PAGE_LIMIT {
            h.len() as int
        } else {
            k + PAGE_LIMIT
        };
        assert(page.len() > 0);
        assert(h.take(k) + page =~= h.take(k2));
        assert(page.last() == h[k2 - 1]);
        lemma_drive_from(h, k2, (fuel - 1) as nat);
    }
}

/// Fetching page by page from a fresh reader yields the whole history: every
/// message exactly once, in the platform's order, whatever its length.
pub proof fn lemma_pagination_complete(h: Seq<Message>)
    requires
        newest_first(h),
    ensures
        drive(h, (None, Seq::empty()), h.len() + 1) == Some(h),
{
    assert(h.take(0) =~= Seq::<Message>::empty());
    lemma_drive_from(h, 0, h.len() + 1);
}

} // verus!

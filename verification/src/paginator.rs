//! The cursor over a remote collection that is read page by page.
//!
//! The cursor decides; its owner fetches. `next` hands out the buffered
//! rows one by one and says when a page is wanted, `request_url` gives the
//! address of that page, and `receive` takes the answer.

use crate::base::Base;
use crate::query::{request_pairs, QueryBuilder, QuerySpec};
use crate::record::Record;
use crate::url::{address, address_text, text_view};
use vstd::prelude::*;

verus! {

/// One record on the wire: its identifier beside its fields.
#[derive(Debug)]
pub struct SRecord<T> {
    pub id: String,
    pub fields: T,
}

/// One page of an answer. An empty `offset` says that it is the last.
#[derive(Debug)]
pub struct RecordPage<T> {
    pub records: Vec<SRecord<T>>,
    pub offset: String,
}

/// What a cursor holds: the offset of the page to fetch next, where one is
/// left, and the rows that are fetched and not yet handed out.
pub struct Cursor<T> {
    pub pending: Option<Seq<char>>,
    pub buffered: Seq<T>,
}

/// Where a cursor stands.
#[derive(Clone, Copy, Debug, PartialEq, Eq, Structural)]
pub enum State {
    /// Nothing was fetched yet: the pending offset is the empty one.
    NotStarted,
    /// Rows are buffered.
    HasBufferedItems,
    /// The buffer is used up and a further page is known.
    AwaitingFetch,
    /// The buffer is used up and no page is left.
    Exhausted,
}

/// What a cursor answers when it is asked for the next row.
#[derive(Debug)]
pub enum Advance<T> {
    /// The next row.
    Item(T),
    /// The buffer is used up: the next page has to be fetched and received.
    Fetch,
    /// No row is left.
    End,
}

impl<T> Cursor<T> {
    /// Where the cursor stands.
    pub open spec fn state(self) -> State {
        if self.buffered.len() > 0 {
            State::HasBufferedItems
        } else if self.pending == Some(Seq::<char>::empty()) {
            State::NotStarted
        } else if self.pending.is_some() {
            State::AwaitingFetch
        } else {
            State::Exhausted
        }
    }

    /// What holds of every cursor that was started and then driven: while
    /// the first page is still to come, nothing is buffered.
    pub open spec fn wf(self) -> bool {
        self.pending == Some(Seq::<char>::empty()) ==> self.buffered.len() == 0
    }

    /// The answer to a request for the next row, and the cursor after it.
    pub open spec fn advanced(self) -> (Advance<T>, Cursor<T>) {
        if self.buffered.len() > 0 {
            (
                Advance::Item(self.buffered[0]),
                Cursor { pending: self.pending, buffered: self.buffered.drop_first() },
            )
        } else if self.pending.is_some() {
            (Advance::Fetch, self)
        } else {
            (Advance::End, self)
        }
    }
}

/// The rows of a page: the fields of each record, with the record's
/// identifier set on them, in the order of the page.
pub open spec fn decoded<T: Record>(records: Seq<SRecord<T>>) -> Seq<T> {
    Seq::new(records.len(), |i: int| records[i].fields.with_id(records[i].id))
}

/// The offset that a page leaves pending: none after the last page.
pub open spec fn next_offset(offset: Seq<char>) -> Option<Seq<char>> {
    if offset.len() == 0 {
        None
    } else {
        Some(offset)
    }
}

/// What a cursor yields on the answer `response` to its request, and the
/// cursor after it. A failed request yields nothing and changes nothing. A
/// page replaces the buffer, its first row is yielded, and its offset is
/// the next one.
pub open spec fn received<T: Record>(cursor: Cursor<T>, response: Option<RecordPage<T>>) -> (
    Option<T>,
    Cursor<T>,
) {
    match response {
        None => (None, cursor),
        Some(page) => {
            let rows = decoded(page.records@);
            let pending = next_offset(page.offset@);
            if rows.len() == 0 {
                (None, Cursor { pending, buffered: Seq::empty() })
            } else {
                (Some(rows[0]), Cursor { pending, buffered: rows.drop_first() })
            }
        },
    }
}

impl<T> Cursor<T> {
    /// The cursor after `k` requests for the next row.
    pub open spec fn advanced_by(self, k: nat) -> Cursor<T>
        decreases k,
    {
        if k == 0 {
            self
        } else {
            self.advanced_by((k - 1) as nat).advanced().1
        }
    }
}

/// Asking for a row and receiving an answer keep a cursor as it should be.
/// After a page was received the cursor is past its start for good.
pub proof fn lemma_cursor_stays_wf<T: Record>(cursor: Cursor<T>, response: Option<RecordPage<T>>)
    requires
        cursor.wf(),
    ensures
        cursor.advanced().1.wf(),
        received(cursor, response).1.wf(),
        response.is_some() ==> received(cursor, response).1.state() != State::NotStarted,
{
}

/// The cursor moves between its states as follows. Before the first page
/// and between two pages it asks for a page and stays as it is. Exhausted,
/// it ends and stays exhausted. With rows buffered it hands out the first;
/// after the last of them it awaits the next page where an offset is
/// pending, and is exhausted where none is.
pub proof fn lemma_states_follow_the_rows<T>(cursor: Cursor<T>)
    requires
        cursor.wf(),
    ensures
        cursor.state() == State::NotStarted || cursor.state() == State::AwaitingFetch
            ==> cursor.advanced() == (Advance::<T>::Fetch, cursor),
        cursor.state() == State::Exhausted ==> cursor.advanced() == (Advance::<T>::End, cursor),
        cursor.state() == State::HasBufferedItems ==> {
            &&& cursor.advanced().0 == Advance::Item(cursor.buffered[0])
            &&& cursor.advanced().1.state() == if cursor.buffered.len() > 1 {
                State::HasBufferedItems
            } else if cursor.pending.is_some() {
                State::AwaitingFetch
            } else {
                State::Exhausted
            }
        },
{
}

/// The first row of a run and the rows behind it.
pub open spec fn with_first<T>(first: Option<T>, rest: Seq<T>) -> Seq<T> {
    match first {
        Some(row) => seq![row] + rest,
        None => rest,
    }
}

/// Buffered rows are handed out in their order, and none of them costs a
/// request: however many rows a caller takes from the buffer, the cursor
/// asks for no page and keeps its pending offset. Only when the buffer is
/// used up does it ask for a page, where an offset is pending, or end.
pub proof fn lemma_buffered_rows_need_no_fetch<T>(cursor: Cursor<T>, k: nat)
    requires
        k <= cursor.buffered.len(),
    ensures
        cursor.advanced_by(k).pending == cursor.pending,
        cursor.advanced_by(k).buffered == cursor.buffered.skip(k as int),
        k < cursor.buffered.len() ==> cursor.advanced_by(k).advanced().0 == Advance::Item(
            cursor.buffered[k as int],
        ),
        k == cursor.buffered.len() && cursor.pending.is_some() ==> cursor.advanced_by(
            k,
        ).advanced().0 == Advance::<T>::Fetch,
        k == cursor.buffered.len() && cursor.pending.is_none() ==> cursor.advanced_by(
            k,
        ).advanced().0 == Advance::<T>::End,
    decreases k,
{
    if k == 0 {
        assert(cursor.buffered.skip(0) =~= cursor.buffered);
    } else {
        lemma_buffered_rows_need_no_fetch(cursor, (k - 1) as nat);
        let before = cursor.advanced_by((k - 1) as nat);
        assert(before.buffered.drop_first() =~= cursor.buffered.skip(k as int));
    }
}

/// A page with an empty offset is the last: its rows are yielded, the first
/// at once and the others from the buffer, and after them the cursor ends
/// without asking for another page. Where such a page holds no record, the
/// cursor is exhausted at once.
pub proof fn lemma_last_page_ends<T: Record>(cursor: Cursor<T>, page: RecordPage<T>, k: nat)
    requires
        page.offset@.len() == 0,
    ensures
        ({
            let (first, after) = received(cursor, Some(page));
            &&& after.pending.is_none()
            &&& with_first(first, after.buffered) == decoded(page.records@)
            &&& first.is_none() <==> page.records@.len() == 0
            &&& first.is_none() ==> after.state() == State::Exhausted
            &&& k <= after.buffered.len() ==> after.advanced_by(k).advanced().0
                != Advance::<T>::Fetch
            &&& after.advanced_by(after.buffered.len()).advanced() == (
                Advance::<T>::End,
                Cursor { pending: None, buffered: Seq::<T>::empty() },
            )
        }),
{
    let (first, after) = received(cursor, Some(page));
    let rows = decoded(page.records@);
    if rows.len() > 0 {
        assert(seq![rows[0]] + rows.drop_first() =~= rows);
    }
    if k <= after.buffered.len() {
        lemma_buffered_rows_need_no_fetch(after, k);
    }
    lemma_buffered_rows_need_no_fetch(after, after.buffered.len());
    assert(after.buffered.skip(after.buffered.len() as int) =~= Seq::<T>::empty());
}

/// The rows that a caller gets who asks for rows until none comes, while
/// the cursor's requests are answered with `pages`, one after the other, and
/// fail once `pages` are used up. The run ends where the cursor ends, and
/// where a request yields no row.
pub open spec fn run_rows<T: Record>(cursor: Cursor<T>, pages: Seq<RecordPage<T>>) -> Seq<T>
    decreases pages.len(), cursor.buffered.len(),
{
    if cursor.buffered.len() > 0 {
        seq![cursor.buffered[0]] + run_rows(cursor.advanced().1, pages)
    } else if cursor.pending.is_none() || pages.len() == 0 {
        Seq::empty()
    } else {
        let (first, after) = received(cursor, Some(pages[0]));
        match first {
            Some(row) => seq![row] + run_rows(after, pages.drop_first()),
            None => Seq::empty(),
        }
    }
}

/// The offsets that the cursor asks for in that run, in their order.
pub open spec fn run_requests<T: Record>(cursor: Cursor<T>, pages: Seq<RecordPage<T>>) -> Seq<
    Seq<char>,
>
    decreases pages.len(), cursor.buffered.len(),
{
    if cursor.buffered.len() > 0 {
        run_requests(cursor.advanced().1, pages)
    } else if cursor.pending.is_none() {
        Seq::empty()
    } else if pages.len() == 0 {
        seq![cursor.pending.unwrap()]
    } else {
        let (first, after) = received(cursor, Some(pages[0]));
        match first {
            Some(row) => seq![cursor.pending.unwrap()] + run_requests(after, pages.drop_first()),
            None => seq![cursor.pending.unwrap()],
        }
    }
}

/// The rows of all `pages`, in the order of the pages.
pub open spec fn all_rows<T: Record>(pages: Seq<RecordPage<T>>) -> Seq<T>
    decreases pages.len(),
{
    if pages.len() == 0 {
        Seq::empty()
    } else {
        decoded(pages[0].records@) + all_rows(pages.drop_first())
    }
}

/// The offset `first`, and behind it the offset of each of `pages` but the
/// last.
pub open spec fn chained_offsets<T>(first: Seq<char>, pages: Seq<RecordPage<T>>) -> Seq<Seq<char>>
    decreases pages.len(),
{
    if pages.len() <= 1 {
        seq![first]
    } else {
        seq![first] + chained_offsets(pages[0].offset@, pages.drop_first())
    }
}

/// A run hands out what is buffered and goes on as from an empty buffer.
pub proof fn lemma_run_starts_with_buffer<T: Record>(cursor: Cursor<T>, pages: Seq<RecordPage<T>>)
    ensures
        run_rows(cursor, pages) == cursor.buffered + run_rows(
            Cursor { pending: cursor.pending, buffered: Seq::empty() },
            pages,
        ),
        run_requests(cursor, pages) == run_requests(
            Cursor { pending: cursor.pending, buffered: Seq::empty() },
            pages,
        ),
    decreases cursor.buffered.len(),
{
    let emptied = Cursor { pending: cursor.pending, buffered: Seq::<T>::empty() };
    if cursor.buffered.len() > 0 {
        let next = cursor.advanced().1;
        lemma_run_starts_with_buffer(next, pages);
        assert(seq![cursor.buffered[0]] + next.buffered =~= cursor.buffered);
        assert(run_rows(cursor, pages) =~= cursor.buffered + run_rows(emptied, pages));
    } else {
        assert(cursor.buffered =~= Seq::<T>::empty());
        assert(cursor == emptied);
        assert(run_rows(cursor, pages) =~= cursor.buffered + run_rows(emptied, pages));
    }
}

/// Where every page but the last holds a record and a further offset, and
/// the last page has the empty offset, a run from an empty buffer yields
/// the rows of all the pages in their order and then ends. It asks once for
/// each page: first for the pending offset, then for the offset that each
/// page but the last gave.
pub proof fn lemma_run_reads_every_page<T: Record>(cursor: Cursor<T>, pages: Seq<RecordPage<T>>)
    requires
        cursor.buffered.len() == 0,
        cursor.pending.is_some(),
        pages.len() > 0,
        forall|i: int|
            0 <= i < pages.len() - 1 ==> (#[trigger] pages[i]).offset@.len() > 0
                && pages[i].records@.len() > 0,
        pages.last().offset@.len() == 0,
    ensures
        run_rows(cursor, pages) == all_rows(pages),
        run_requests(cursor, pages) == chained_offsets(cursor.pending.unwrap(), pages),
        run_requests(cursor, pages).len() == pages.len(),
    decreases pages.len(),
{
    let (first, after) = received(cursor, Some(pages[0]));
    let rows = decoded(pages[0].records@);
    let rest = pages.drop_first();
    let emptied = Cursor { pending: after.pending, buffered: Seq::<T>::empty() };
    lemma_run_starts_with_buffer(after, rest);
    if rows.len() > 0 {
        assert(seq![rows[0]] + rows.drop_first() =~= rows);
    }
    if pages.len() == 1 {
        assert(all_rows(rest) =~= Seq::<T>::empty());
        assert(run_rows(emptied, rest) =~= Seq::<T>::empty());
        assert(run_requests(emptied, rest) =~= Seq::<Seq<char>>::empty());
        assert(run_rows(cursor, pages) =~= all_rows(pages));
        assert(run_requests(cursor, pages) =~= chained_offsets(cursor.pending.unwrap(), pages));
    } else {
        assert(pages[0].offset@.len() > 0 && pages[0].records@.len() > 0);
        assert forall|i: int| 0 <= i < rest.len() - 1 implies (#[trigger] rest[i]).offset@.len()
            > 0 && rest[i].records@.len() > 0 by {
            assert(rest[i] == pages[i + 1]);
        }
        assert(rest.last() == pages.last());
        lemma_run_reads_every_page(emptied, rest);
        assert(run_rows(cursor, pages) =~= all_rows(pages));
        assert(run_requests(cursor, pages) =~= chained_offsets(cursor.pending.unwrap(), pages));
    }
}

/// A forward-only cursor over the rows that a query selects.
pub struct Paginator<'base, T: Record> {
    offset: Option<String>,
    // The buffered rows, the next one last.
    window: Vec<T>,
    query_builder: QueryBuilder<'base, T>,
}

// Sets each record's identifier on its fields. The rows come out in
// reverse, so that the first of the page is the last of the result.
fn decode<T: Record>(records: Vec<SRecord<T>>) -> (window: Vec<T>)
    ensures
        window@.len() == records@.len(),
        forall|i: int|
            0 <= i < window@.len() ==> #[trigger] window@[window@.len() - 1 - i] == decoded(
                records@,
            )[i],
        forall|i: int|
            0 <= i < window@.len() ==> (#[trigger] window@[window@.len() - 1 - i]).id_view()
                == records@[i].id@,
{
    let ghost all = records@;
    let mut rest = records;
    let mut window: Vec<T> = Vec::new();
    while rest.len() > 0
        invariant
            rest@.len() + window@.len() == all.len(),
            rest@ == all.subrange(0, rest@.len() as int),
            forall|k: int|
                0 <= k < window@.len() ==> #[trigger] window@[k] == decoded(all)[all.len() - 1
                    - k],
            forall|k: int|
                0 <= k < window@.len() ==> (#[trigger] window@[k]).id_view() == all[all.len() - 1
                    - k].id@,
        decreases rest@.len(),
    {
        let ghost at = rest@.len() - 1;
        let last = rest.pop();
        match last {
            Some(record) => {
                assert(record == all[at]);
                let SRecord { id, fields } = record;
                let mut row = fields;
                row.set_id(id);
                window.push(row);
                assert(rest@ =~= all.subrange(0, rest@.len() as int));
            },
            None => {},
        }
    }
    assert forall|i: int| 0 <= i < window@.len() implies #[trigger] window@[window@.len() - 1
        - i] == decoded(records@)[i] by {
        let k = window@.len() - 1 - i;
        assert(window@[k] == decoded(all)[all.len() - 1 - k]);
    }
    assert forall|i: int| 0 <= i < window@.len() implies (#[trigger] window@[window@.len() - 1
        - i]).id_view() == records@[i].id@ by {
        let k = window@.len() - 1 - i;
        assert(window@[k].id_view() == all[all.len() - 1 - k].id@);
    }
    window
}

impl<'base, T: Record> Paginator<'base, T> {
    /// The table that the cursor reads.
    pub closed spec fn origin(&self) -> &'base Base<T> {
        self.query_builder.origin()
    }

    /// What the cursor's query asks for.
    pub closed spec fn query(&self) -> QuerySpec {
        self.query_builder.model()
    }

    /// What the cursor holds.
    pub closed spec fn cursor(&self) -> Cursor<T> {
        Cursor {
            pending: text_view(self.offset),
            buffered: Seq::new(
                self.window@.len(),
                |i: int| self.window@[self.window@.len() - 1 - i],
            ),
        }
    }

    pub(crate) fn start(query: QueryBuilder<'base, T>) -> (p: Self)
        ensures
            p.origin() == query.origin(),
            p.query() == query.model(),
            p.cursor().pending == Some(Seq::<char>::empty()),
            p.cursor().buffered.len() == 0,
    {
        Paginator { offset: Some(String::new()), window: Vec::new(), query_builder: query }
    }

    /// Where the cursor stands.
    pub fn state(&self) -> (s: State)
        ensures
            s == self.cursor().state(),
    {
        if self.window.len() > 0 {
            State::HasBufferedItems
        } else {
            match &self.offset {
                Some(offset) => {
                    if offset.as_str().is_empty() {
                        assert(offset@ =~= Seq::<char>::empty());
                        State::NotStarted
                    } else {
                        State::AwaitingFetch
                    }
                },
                None => State::Exhausted,
            }
        }
    }

    /// The next row, or what stands in its way. A buffered row is handed
    /// out without any request. With the buffer used up, a page is wanted
    /// where an offset is pending, and the rows have ended where none is.
    pub fn next(&mut self) -> (r: Advance<T>)
        ensures
            r == old(self).cursor().advanced().0,
            final(self).cursor() == old(self).cursor().advanced().1,
            final(self).origin() == old(self).origin(),
            final(self).query() == old(self).query(),
    {
        let ghost before = self.cursor();
        match self.window.pop() {
            Some(row) => {
                assert(self.cursor().buffered =~= before.buffered.drop_first());
                assert(row == before.buffered[0]);
                Advance::Item(row)
            },
            None => {
                assert(self.cursor().buffered =~= before.buffered);
                if self.offset.is_some() {
                    Advance::Fetch
                } else {
                    Advance::End
                }
            },
        }
    }

    /// The address of the page that is pending, with the parameters of the
    /// query: `None` where no page is pending, or where the table's address
    /// and the parameters cannot be written as a URL.
    pub fn request_url(&self) -> (url: Option<String>)
        ensures
            text_view(url) == match self.cursor().pending {
                Some(offset) => address_text(
                    self.origin().path_view(),
                    request_pairs(offset, self.query()),
                ),
                None => None,
            },
    {
        match &self.offset {
            Some(offset) => {
                let params = self.query_builder.params(offset.as_str());
                let path = self.query_builder.base().path();
                address(path.as_str(), &params)
            },
            None => None,
        }
    }

    /// Takes the answer to the request for the pending page: the decoded
    /// page, or `None` where the request or the decoding failed. Yields the
    /// first row of the page, or nothing where the request failed or the
    /// page is empty. Each row carries the identifier of its record.
    pub fn receive(&mut self, response: Option<RecordPage<T>>) -> (r: Option<T>)
        ensures
            r == received(old(self).cursor(), response).0,
            final(self).cursor() == received(old(self).cursor(), response).1,
            final(self).origin() == old(self).origin(),
            final(self).query() == old(self).query(),
            response matches Some(page) ==> {
                &&& r matches Some(row) ==> row.id_view() == page.records@[0].id@
                &&& forall|i: int|
                    0 <= i < final(self).cursor().buffered.len() ==> (
                    #[trigger] final(self).cursor().buffered[i]).id_view() == page.records@[i
                        + 1].id@
            },
    {
        let ghost before = self.cursor();
        match response {
            None => {
                assert(self.cursor().buffered =~= before.buffered);
                None
            },
            Some(page) => {
                let ghost rows = decoded(page.records@);
                let RecordPage { records, offset } = page;
                if offset.as_str().is_empty() {
                    self.offset = None;
                } else {
                    self.offset = Some(offset);
                }
                self.window = decode(records);
                let ghost full = self.window@;
                let first = self.window.pop();
                proof {
                    if rows.len() == 0 {
                        assert(self.cursor().buffered =~= Seq::<T>::empty());
                    } else {
                        assert(full[full.len() - 1 - 0] == rows[0]);
                        assert forall|i: int| 0 <= i < self.window@.len() implies
                            self.cursor().buffered[i] == rows.drop_first()[i] by {
                            assert(full[full.len() - 1 - (i + 1)] == rows[i + 1]);
                        }
                        assert(self.cursor().buffered =~= rows.drop_first());
                        assert forall|i: int| 0 <= i < self.cursor().buffered.len() implies (
                        #[trigger] self.cursor().buffered[i]).id_view() == records@[i
                            + 1].id@ by {
                            assert(full[full.len() - 1 - (i + 1)].id_view() == records@[i
                                + 1].id@);
                        }
                    }
                }
                first
            },
        }
    }
}

} // verus!

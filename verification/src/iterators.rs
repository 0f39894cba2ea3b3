//! Paging through the results of queries.

use std::collections::VecDeque;

use vstd::prelude::*;

use crate::codec::{decoded, encoded, Datum, Message};
use crate::error::{DecodeErrorView, Error, ErrorView, Result};
use crate::fields::{decode, encode};
use crate::layout::Layout;
use crate::message_type::MsgType;
use crate::proto::{KeyModification, Kv, QueryResponse, QueryResultBytes, QueryStateClose};
use crate::proto::QueryStateNext;

verus! {

/// A request to the peer on behalf of a transaction.
#[derive(Debug, Clone)]
pub struct LedgerRequest {
    pub msg_type: MsgType,
    pub payload: Vec<u8>,
}

/// The state of a query: what is left of the current batch, whether the peer has
/// more, and whether the query has been closed.
#[verifier::ext_equal]
pub struct QueryView {
    pub id: Seq<char>,
    pub batch: Seq<Seq<u8>>,
    pub has_more: bool,
    pub closed: bool,
}

/// What a query gives next.
#[verifier::ext_equal]
pub enum StepView {
    /// A record, which leaves the batch.
    Record(Seq<u8>),
    /// The batch is empty and the peer has more.
    Fetch,
    /// There are no more records.
    Done,
}

impl QueryView {
    /// The query that a response of the peer opens.
    pub open spec fn opened(page: PageView) -> QueryView {
        QueryView { id: page.id, batch: page.results, has_more: page.has_more, closed: false }
    }

    /// What the query gives next.
    pub open spec fn step(self) -> StepView {
        if self.batch.len() > 0 {
            StepView::Record(self.batch[0])
        } else if self.has_more && !self.closed {
            StepView::Fetch
        } else {
            StepView::Done
        }
    }

    /// The query after that.
    pub open spec fn stepped(self) -> QueryView {
        if self.batch.len() > 0 {
            QueryView { batch: self.batch.skip(1), ..self }
        } else {
            self
        }
    }

    /// The query with the next batch.
    pub open spec fn fed(self, page: PageView) -> QueryView {
        QueryView { batch: page.results, has_more: page.has_more, ..self }
    }
}

/// What a [`QueryResponse`] says.
#[verifier::ext_equal]
pub struct PageView {
    pub results: Seq<Seq<u8>>,
    pub has_more: bool,
    pub id: Seq<char>,
    pub metadata: Seq<u8>,
}

/// The encoded records of results.
pub open spec fn result_bytes(results: Seq<QueryResultBytes>) -> Seq<Seq<u8>> {
    Seq::new(results.len(), |i: int| results[i].result_bytes@)
}

impl View for QueryResponse {
    type V = PageView;

    open spec fn view(&self) -> PageView {
        PageView {
            results: result_bytes(self.results@),
            has_more: self.has_more,
            id: self.id@,
            metadata: self.metadata@,
        }
    }
}

/// The page in the record of a [`QueryResponse`].
pub open spec fn record_page(record: Seq<Datum>) -> PageView {
    PageView {
        results: Seq::new(
            record[0]->Messages_0.len(),
            |i: int| record[0]->Messages_0[i][0]->Bytes_0,
        ),
        has_more: record[1]->Int_0 == 1,
        id: record[2]->Text_0,
        metadata: record[3]->Bytes_0,
    }
}

/// The page that the payload of a reply stands for.
pub open spec fn page_of(payload: Seq<u8>) -> std::result::Result<PageView, DecodeErrorView> {
    match decoded(Layout::QueryResponse, payload) {
        Ok(record) => Ok(record_page(record)),
        Err(e) => Err(e),
    }
}

/// Reads a page.
pub(crate) fn read_page(payload: &[u8]) -> (r: Result<QueryResponse>)
    ensures
        match page_of(payload@) {
            Ok(page) => r matches Ok(response) && response@ == page,
            Err(e) => r matches Err(error) && error@ == ErrorView::Decode(e),
        },
{
    let decoded_page: std::result::Result<QueryResponse, crate::error::DecodeError> = decode(
        payload,
    );
    match decoded_page {
        Ok(response) => {
            assert(response@ =~= record_page(response.record())) by {
                let list = response.record()[0]->Messages_0;
                assert forall|i: int| 0 <= i < response.results@.len() implies #[trigger] list[i][0]
                    == Datum::Bytes(response.results@[i].result_bytes@) by {}
                assert(response@.results =~= record_page(response.record()).results);
            }
            Ok(response)
        },
        Err(e) => Err(Error::Decode(e)),
    }
}

/// Paging shared by the iterators: the current batch is drained, then the next one
/// is fetched.
struct QueryIter {
    id: String,
    batch: VecDeque<QueryResultBytes>,
    has_more: bool,
    closed: bool,
}

/// What an iterator gives next.
pub enum Step<T> {
    /// A record.
    Record(T),
    /// The request for the next batch, whose reply is to be fed to the iterator.
    Fetch(LedgerRequest),
    /// There are no more records.
    Done,
}

/// The payload that asks for more results of a query.
pub open spec fn next_payload(id: Seq<char>) -> Seq<u8> {
    encoded(Layout::QueryStateNext, seq![Datum::Text(id)])
}

/// The payload that closes a query.
pub open spec fn close_payload(id: Seq<char>) -> Seq<u8> {
    encoded(Layout::QueryStateClose, seq![Datum::Text(id)])
}

fn to_deque(results: Vec<QueryResultBytes>) -> (r: VecDeque<QueryResultBytes>)
    ensures
        r@ == results@,
{
    let mut batch: VecDeque<QueryResultBytes> = VecDeque::new();
    let mut left = results;
    let ghost all = left@;
    while left.len() > 0
        invariant
            left@ + batch@ == all,
        decreases left@.len(),
    {
        let ghost before = left@;
        let ghost held = batch@;
        match left.pop() {
            Some(last) => {
                batch.push_front(last);
                assert(left@ + batch@ =~= before + held);
            },
            None => {},
        }
    }
    assert(batch@ =~= all);
    batch
}

impl QueryIter {
    closed spec fn state(&self) -> QueryView {
        QueryView {
            id: self.id@,
            batch: result_bytes(self.batch@),
            has_more: self.has_more,
            closed: self.closed,
        }
    }

    fn new(resp: QueryResponse) -> (r: QueryIter)
        ensures
            r.state() == QueryView::opened(resp@),
    {
        QueryIter {
            id: resp.id,
            batch: to_deque(resp.results),
            has_more: resp.has_more,
            closed: false,
        }
    }

    fn next_raw(&mut self) -> (r: Step<Vec<u8>>)
        ensures
            final(self).state() == old(self).state().stepped(),
            match old(self).state().step() {
                StepView::Record(bytes) => r matches Step::Record(record) && record@ == bytes,
                StepView::Fetch => r matches Step::Fetch(request) && request.msg_type
                    == MsgType::QueryStateNext && request.payload@ == next_payload(
                    old(self).state().id,
                ),
                StepView::Done => r is Done,
            },
    {
        let ghost before = self.state();
        match self.batch.pop_front() {
            Some(qrb) => {
                assert(self.state() =~= before.stepped()) by {
                    assert(self.state().batch =~= before.batch.skip(1));
                }
                return Step::Record(qrb.result_bytes);
            },
            None => {},
        }
        if !self.has_more || self.closed {
            return Step::Done;
        }
        let next = QueryStateNext { id: self.id.clone() };
        assert(next.record() =~= seq![Datum::Text(self.id@)]);
        Step::Fetch(LedgerRequest { msg_type: MsgType::QueryStateNext, payload: encode(&next) })
    }

    fn feed(&mut self, payload: &[u8]) -> (r: Result<()>)
        ensures
            match page_of(payload@) {
                Ok(page) => r is Ok && final(self).state() == old(self).state().fed(page),
                Err(e) => (r matches Err(error) && error@ == ErrorView::Decode(e))
                    && final(self).state() == old(self).state(),
            },
    {
        match read_page(payload) {
            Ok(resp) => {
                self.batch = to_deque(resp.results);
                self.has_more = resp.has_more;
                Ok(())
            },
            Err(e) => Err(e),
        }
    }

    fn close(&mut self) -> (r: Option<LedgerRequest>)
        ensures
            final(self).state() == (QueryView { closed: true, ..old(self).state() }),
            match r {
                Some(request) => !old(self).state().closed && request.msg_type
                    == MsgType::QueryStateClose && request.payload@ == close_payload(
                    old(self).state().id,
                ),
                None => old(self).state().closed,
            },
    {
        if self.closed {
            return None;
        }
        self.closed = true;
        let close = QueryStateClose { id: self.id.clone() };
        assert(close.record() =~= seq![Datum::Text(self.id@)]);
        Some(LedgerRequest { msg_type: MsgType::QueryStateClose, payload: encode(&close) })
    }
}

/// What an iterator gives next, where the record decodes as `layout` says.
pub open spec fn typed_step<M: Message>(state: QueryView, r: Result<Step<M>>) -> bool {
    match state.step() {
        StepView::Record(bytes) => match decoded(M::layout(), bytes) {
            Ok(record) => r matches Ok(Step::Record(value)) && value.record() == record,
            Err(e) => r matches Err(error) && error@ == ErrorView::Decode(e),
        },
        StepView::Fetch => r matches Ok(Step::Fetch(request)) && request.msg_type
            == MsgType::QueryStateNext && request.payload@ == next_payload(state.id),
        StepView::Done => r matches Ok(Step::Done),
    }
}

fn decode_step<M: Message>(step: Step<Vec<u8>>) -> (r: Result<Step<M>>)
    ensures
        match step {
            Step::Record(bytes) => match decoded(M::layout(), bytes@) {
                Ok(record) => r matches Ok(Step::Record(value)) && value.record() == record,
                Err(e) => r matches Err(error) && error@ == ErrorView::Decode(e),
            },
            Step::Fetch(request) => r matches Ok(Step::Fetch(same)) && same == request,
            Step::Done => r matches Ok(Step::Done),
        },
{
    match step {
        Step::Record(bytes) => match decode::<M>(bytes.as_slice()) {
            Ok(value) => Ok(Step::Record(value)),
            Err(e) => Err(Error::Decode(e)),
        },
        Step::Fetch(request) => Ok(Step::Fetch(request)),
        Step::Done => Ok(Step::Done),
    }
}

/// Iterator over the records of range, partial-composite-key and rich queries.
///
/// It is to be closed when done; the peer also cleans up open iterators when the
/// transaction completes.
pub struct StateQueryIterator {
    inner: QueryIter,
}

/// Iterator over the changes of a key.
pub struct HistoryQueryIterator {
    inner: QueryIter,
}

impl View for StateQueryIterator {
    type V = QueryView;

    closed spec fn view(&self) -> QueryView {
        self.inner.state()
    }
}

impl View for HistoryQueryIterator {
    type V = QueryView;

    closed spec fn view(&self) -> QueryView {
        self.inner.state()
    }
}

impl StateQueryIterator {
    /// The iterator over the query that `resp` opened.
    pub fn new(resp: QueryResponse) -> (r: StateQueryIterator)
        ensures
            r@ == QueryView::opened(resp@),
    {
        StateQueryIterator { inner: QueryIter::new(resp) }
    }

    /// The next record, or what is needed to get it.
    pub fn next(&mut self) -> (r: Result<Step<Kv>>)
        ensures
            final(self)@ == old(self)@.stepped(),
            typed_step(old(self)@, r),
    {
        let step = self.inner.next_raw();
        decode_step(step)
    }

    /// Takes in the payload of the peer's reply to a fetch.
    pub fn feed(&mut self, payload: &[u8]) -> (r: Result<()>)
        ensures
            match page_of(payload@) {
                Ok(page) => r is Ok && final(self)@ == old(self)@.fed(page),
                Err(e) => (r matches Err(error) && error@ == ErrorView::Decode(e))
                    && final(self)@ == old(self)@,
            },
    {
        self.inner.feed(payload)
    }

    /// Moves the records that are at hand to `out`, until more have to be fetched
    /// or there are none left.
    pub fn collect_remaining(&mut self, out: &mut Vec<Kv>) -> (r: Result<Option<LedgerRequest>>)
        ensures
            match kvs(old(self)@.batch) {
                Ok(records) => {
                    &&& records_of(final(out)@) == records_of(old(out)@) + records
                    &&& final(self)@ == (QueryView { batch: seq![], ..old(self)@ })
                    &&& if old(self)@.has_more && !old(self)@.closed {
                        r matches Ok(Some(request)) && request.msg_type == MsgType::QueryStateNext
                            && request.payload@ == next_payload(old(self)@.id)
                    } else {
                        r matches Ok(None)
                    }
                },
                Err(e) => {
                    &&& r matches Err(error)
                    &&& error@ == ErrorView::Decode(e)
                    &&& exists|n: int|
                        {
                            &&& 0 <= n < old(self)@.batch.len()
                            &&& kvs(old(self)@.batch.take(n + 1)) is Err
                            &&& #[trigger] kvs(old(self)@.batch.take(n)) is Ok
                            &&& records_of(final(out)@) == records_of(old(out)@) + kvs(
                                old(self)@.batch.take(n),
                            )->Ok_0
                            &&& final(self)@ == (QueryView {
                                batch: old(self)@.batch.skip(n + 1),
                                ..old(self)@
                            })
                        }
                },
            },
    {
        let ghost start = self@;
        let ghost had = records_of(out@);
        let ghost mut done: nat = 0;
        loop
            invariant
                done <= start.batch.len(),
                self@ == (QueryView { batch: start.batch.skip(done as int), ..start }),
                kvs(start.batch.take(done as int)) is Ok,
                records_of(out@) == had + kvs(start.batch.take(done as int))->Ok_0,
                start == old(self)@,
                had == records_of(old(out)@),
            decreases self@.batch.len(),
        {
            let ghost batch = self@.batch;
            let step = self.next();
            proof {
                if batch.len() > 0 {
                    let shorter = start.batch.take(done as int);
                    let longer = start.batch.take(done as int + 1);
                    assert(longer.drop_last() =~= shorter);
                    assert(longer.last() == batch[0]);
                    lemma_kvs_fail_early(start.batch, done as int + 1);
                }
            }
            match step {
                Ok(Step::Record(kv)) => {
                    let ghost earlier = out@;
                    out.push(kv);
                    proof {
                        assert(records_of(out@) =~= records_of(earlier).push(kv.record()));
                        assert(start.batch.skip(done as int).skip(1) =~= start.batch.skip(
                            done as int + 1,
                        ));
                        done = done + 1;
                        assert(records_of(out@) =~= had + kvs(
                            start.batch.take(done as int),
                        )->Ok_0);
                    }
                },
                Ok(Step::Fetch(request)) => {
                    assert(start.batch.take(done as int) =~= start.batch);
                    assert(self@.batch =~= seq![]);
                    return Ok(Some(request));
                },
                Ok(Step::Done) => {
                    assert(start.batch.take(done as int) =~= start.batch);
                    assert(self@.batch =~= seq![]);
                    return Ok(None);
                },
                Err(e) => {
                    assert(kvs(start.batch.take(done as int)) is Ok);
                    assert(start.batch.skip(done as int).skip(1) =~= start.batch.skip(
                        done as int + 1,
                    ));
                    return Err(e);
                },
            }
        }
    }

    /// Closes the iterator: the request to send, unless it was closed before.
    pub fn close(&mut self) -> (r: Option<LedgerRequest>)
        ensures
            final(self)@ == (QueryView { closed: true, ..old(self)@ }),
            match r {
                Some(request) => !old(self)@.closed && request.msg_type == MsgType::QueryStateClose
                    && request.payload@ == close_payload(old(self)@.id),
                None => old(self)@.closed,
            },
    {
        self.inner.close()
    }
}

impl HistoryQueryIterator {
    /// The iterator over the query that `resp` opened.
    pub fn new(resp: QueryResponse) -> (r: HistoryQueryIterator)
        ensures
            r@ == QueryView::opened(resp@),
    {
        HistoryQueryIterator { inner: QueryIter::new(resp) }
    }

    /// The next change, or what is needed to get it.
    pub fn next(&mut self) -> (r: Result<Step<KeyModification>>)
        ensures
            final(self)@ == old(self)@.stepped(),
            typed_step(old(self)@, r),
    {
        let step = self.inner.next_raw();
        decode_step(step)
    }

    /// Takes in the payload of the peer's reply to a fetch.
    pub fn feed(&mut self, payload: &[u8]) -> (r: Result<()>)
        ensures
            match page_of(payload@) {
                Ok(page) => r is Ok && final(self)@ == old(self)@.fed(page),
                Err(e) => (r matches Err(error) && error@ == ErrorView::Decode(e))
                    && final(self)@ == old(self)@,
            },
    {
        self.inner.feed(payload)
    }

    /// Closes the iterator: the request to send, unless it was closed before.
    pub fn close(&mut self) -> (r: Option<LedgerRequest>)
        ensures
            final(self)@ == (QueryView { closed: true, ..old(self)@ }),
            match r {
                Some(request) => !old(self)@.closed && request.msg_type == MsgType::QueryStateClose
                    && request.payload@ == close_payload(old(self)@.id),
                None => old(self)@.closed,
            },
    {
        self.inner.close()
    }
}

/// The records of key-value pairs.
pub open spec fn records_of(list: Seq<Kv>) -> Seq<Seq<Datum>> {
    Seq::new(list.len(), |i: int| list[i].record())
}

/// The records that a batch of encoded key-value pairs stands for, or what is wrong
/// with the first faulty one.
pub open spec fn kvs(batch: Seq<Seq<u8>>) -> std::result::Result<Seq<Seq<Datum>>, DecodeErrorView>
    decreases batch.len(),
{
    if batch.len() == 0 {
        Ok(seq![])
    } else {
        match kvs(batch.drop_last()) {
            Err(e) => Err(e),
            Ok(records) => match decoded(Layout::Kv, batch.last()) {
                Err(e) => Err(e),
                Ok(record) => Ok(records.push(record)),
            },
        }
    }
}

proof fn lemma_kvs_fail_early(batch: Seq<Seq<u8>>, count: int)
    requires
        0 <= count <= batch.len(),
    ensures
        kvs(batch.take(count)) matches Err(e) ==> kvs(batch) == Err::<Seq<Seq<Datum>>, _>(e),
    decreases batch.len(),
{
    if count == batch.len() {
        assert(batch.take(count) =~= batch);
    } else {
        assert(batch.drop_last().take(count) =~= batch.take(count));
        lemma_kvs_fail_early(batch.drop_last(), count);
    }
}

// ---- laws ------------------------------------------------------------------
/// The records that a query gives in all, where the peer answers each fetch with
/// the next one of `pages`.
pub open spec fn drained(query: QueryView, pages: Seq<PageView>) -> Seq<Seq<u8>>
    decreases pages.len(), query.batch.len(),
{
    match query.step() {
        StepView::Record(bytes) => seq![bytes] + drained(query.stepped(), pages),
        StepView::Fetch => if pages.len() == 0 {
            seq![]
        } else {
            drained(query.fed(pages[0]), pages.skip(1))
        },
        StepView::Done => seq![],
    }
}

/// The queries that are named in the fetches, one after the other, where the peer
/// answers each fetch with the next one of `pages`.
pub open spec fn asked(query: QueryView, pages: Seq<PageView>) -> Seq<Seq<char>>
    decreases pages.len(), query.batch.len(),
{
    match query.step() {
        StepView::Record(_) => asked(query.stepped(), pages),
        StepView::Fetch => if pages.len() == 0 {
            seq![query.id]
        } else {
            seq![query.id] + asked(query.fed(pages[0]), pages.skip(1))
        },
        StepView::Done => seq![],
    }
}

/// The query that is left in the end, where the peer answers each fetch with the
/// next one of `pages`.
pub open spec fn left_over(query: QueryView, pages: Seq<PageView>) -> QueryView
    decreases pages.len(), query.batch.len(),
{
    match query.step() {
        StepView::Record(_) => left_over(query.stepped(), pages),
        StepView::Fetch => if pages.len() == 0 {
            query
        } else {
            left_over(query.fed(pages[0]), pages.skip(1))
        },
        StepView::Done => query,
    }
}

/// The results of all pages, one page after the other.
pub open spec fn all_results(pages: Seq<PageView>) -> Seq<Seq<u8>>
    decreases pages.len(),
{
    if pages.len() == 0 {
        seq![]
    } else {
        pages[0].results + all_results(pages.skip(1))
    }
}

proof fn lemma_batch_drains(query: QueryView, pages: Seq<PageView>)
    ensures
        drained(query, pages) == query.batch + drained(
            QueryView { batch: seq![], ..query },
            pages,
        ),
        asked(query, pages) == asked(QueryView { batch: seq![], ..query }, pages),
        left_over(query, pages) == left_over(QueryView { batch: seq![], ..query }, pages),
    decreases query.batch.len(),
{
    let empty = QueryView { batch: seq![], ..query };
    if query.batch.len() == 0 {
        assert(query =~= empty);
        assert(query.batch + drained(empty, pages) =~= drained(empty, pages));
    } else {
        lemma_batch_drains(query.stepped(), pages);
        assert(drained(query, pages) =~= query.batch + drained(empty, pages));
    }
}

/// A query gives the results of its pages in order, none twice and none left out,
/// where every page but the last says that there are more. It asks the peer once for
/// each later page, by the name that the first page gave, and is then done for good.
pub proof fn paging_gives_every_result_once(first: PageView, later: Seq<PageView>)
    requires
        first.has_more == (later.len() > 0),
        forall|i: int|
            0 <= i < later.len() ==> (#[trigger] later[i]).has_more == (i + 1 < later.len()),
    ensures
        drained(QueryView::opened(first), later) == first.results + all_results(later),
        asked(QueryView::opened(first), later) == Seq::new(later.len(), |i: int| first.id),
        left_over(QueryView::opened(first), later).step() is Done,
        left_over(QueryView::opened(first), later).stepped() == left_over(
            QueryView::opened(first),
            later,
        ),
{
    lemma_pages_drain(QueryView::opened(first), later);
}

proof fn lemma_pages_drain(query: QueryView, pages: Seq<PageView>)
    requires
        !query.closed,
        query.has_more == (pages.len() > 0),
        forall|i: int|
            0 <= i < pages.len() ==> (#[trigger] pages[i]).has_more == (i + 1 < pages.len()),
    ensures
        drained(query, pages) == query.batch + all_results(pages),
        asked(query, pages) == Seq::new(pages.len(), |i: int| query.id),
        left_over(query, pages).step() is Done,
    decreases pages.len(),
{
    let empty = QueryView { batch: seq![], ..query };
    lemma_batch_drains(query, pages);
    if pages.len() > 0 {
        let rest = pages.skip(1);
        assert forall|i: int| 0 <= i < rest.len() implies (#[trigger] rest[i]).has_more == (i + 1
            < rest.len()) by {
            assert(rest[i] == pages[i + 1]);
        }
        lemma_pages_drain(empty.fed(pages[0]), rest);
    }
    assert(drained(query, pages) =~= query.batch + all_results(pages));
    assert(asked(query, pages) =~= Seq::new(pages.len(), |i: int| query.id));
}

/// A query asks the peer for more only where its batch is used up.
pub proof fn fetches_wait_for_the_batch(query: QueryView)
    ensures
        query.step() is Fetch ==> query.batch.len() == 0 && query.has_more && !query.closed,
        query.batch.len() > 0 ==> query.step() == StepView::Record(query.batch[0]),
{
}

/// A query that is done stays done, whatever is asked of it.
pub proof fn done_stays_done(query: QueryView)
    requires
        query.step() is Done,
    ensures
        query.stepped() == query,
        query.stepped().step() is Done,
{
}

/// A closed query gives what is left of its batch and asks for no more.
pub proof fn closed_query_fetches_nothing(query: QueryView, pages: Seq<PageView>)
    requires
        query.closed,
    ensures
        !(query.step() is Fetch),
        drained(query, pages) == query.batch,
        asked(query, pages) == Seq::<Seq<char>>::empty(),
{
    lemma_batch_drains(query, pages);
    assert(drained(query, pages) =~= query.batch);
}

} // verus!

//! What the iterators over query results give.

use vstd::prelude::*;
use vstd::utf8::encode_utf8;

use crate::codec::{decoded, Datum, Message};
use crate::error::{DecodeErrorView, ErrorView, Result};
use crate::iterators::{kvs, page_of, record_page, records_of};
use crate::iterators::{result_bytes, typed_step, PageView, QueryView, Step};
use crate::iterators::{close_payload, next_payload, HistoryQueryIterator, LedgerRequest};
use crate::iterators::{StateQueryIterator, StepView};
use crate::ledger_laws::{can_be_read, is_read_as, peers_find_the_query_to_close};
use crate::ledger_laws::peers_find_the_query_to_go_on_with;
use crate::message_laws::{key_modification_bytes, key_modification_is_read, kv_bytes, kv_is_read};
use crate::message_laws::timestamp_bytes;
use crate::message_type::MsgType;
use crate::proto::{KeyModification, Kv, QueryResponse, QueryResultBytes, QueryStateClose};
use crate::proto::QueryStateNext;

verus! {

/// A page has the results, the name and the flag of the peer's response.
pub proof fn pages_have_the_fields_of_the_response(response: QueryResponse, i: int)
    ensures
        response@.results.len() == response.results@.len(),
        0 <= i < response.results@.len() ==> response@.results[i]
            == response.results@[i].result_bytes@,
        response@.has_more == response.has_more,
        response@.id == response.id@,
        response@.metadata == response.metadata@,
{
}

/// The next page takes the place of the batch and says whether there are more; the
/// query stays the same, and closed where it was.
pub proof fn pages_take_the_place_of_the_batch(query: QueryView, page: PageView)
    ensures
        query.fed(page).batch == page.results,
        query.fed(page).has_more == page.has_more,
        query.fed(page).id == query.id,
        query.fed(page).closed == query.closed,
{
}

/// A query gives the first record of its batch, which leaves it, while there is one;
/// with an empty batch it goes on where the peer has more and it is open, and is done
/// otherwise.
pub proof fn queries_give_the_first_of_their_batch(query: QueryView)
    ensures
        query.step() is Record <==> query.batch.len() > 0,
        query.step() matches StepView::Record(bytes) ==> bytes == query.batch[0]
            && query.stepped().batch == query.batch.skip(1),
        query.step() is Fetch <==> query.batch.len() == 0 && query.has_more && !query.closed,
        query.step() is Done <==> query.batch.len() == 0 && (!query.has_more || query.closed),
        query.stepped().id == query.id,
        query.stepped().has_more == query.has_more,
        query.stepped().closed == query.closed,
        query.batch.len() == 0 ==> query.stepped() == query,
{
}

/// What an iterator gives is what its query gives: a record as it reads, the request
/// for the next page by the name of the query, or the end. A record that cannot be
/// read is a failure.
pub proof fn iterators_give_what_the_query_gives<M: Message>(
    query: QueryView,
    given: crate::error::Result<Step<M>>,
)
    requires
        typed_step(query, given),
    ensures
        given matches Ok(Step::Record(record)) ==> query.batch.len() > 0 && is_read_as(
            query.batch[0],
            record,
        ),
        given matches Err(error) ==> error@ == ErrorView::Decode(
            decoded(M::layout(), query.batch[0])->Err_0,
        ),
        given is Err <==> query.batch.len() > 0 && decoded(M::layout(), query.batch[0]) is Err,
        given matches Ok(Step::Fetch(request)) ==> query.batch.len() == 0 && query.has_more
            && !query.closed && request.msg_type == MsgType::QueryStateNext && request.payload@
            == crate::iterators::next_payload(query.id),
        given matches Ok(Step::Done) ==> query.batch.len() == 0 && (!query.has_more
            || query.closed),
{
}

/// A record of a query that a peer writes with its namespace, key and value is given
/// with each in its field.
pub proof fn records_have_their_key(
    query: QueryView,
    given: crate::error::Result<Step<Kv>>,
    namespace: Seq<char>,
    key: Seq<char>,
    value: Seq<u8>,
)
    requires
        typed_step(query, given),
        query.batch.len() > 0,
        query.batch[0] == kv_bytes(namespace, key, value),
        encode_utf8(namespace).len() <= u64::MAX,
        encode_utf8(key).len() <= u64::MAX,
        value.len() <= u64::MAX,
    ensures
        given matches Ok(Step::Record(record)) && record.namespace@ == namespace && record.key@
            == key && record.value@ == value,
{
    if let Ok(Step::Record(record)) = given {
        kv_is_read(record, namespace, key, value);
    } else {
        kv_is_read(arbitrary(), namespace, key, value);
    }
}

/// A change of a key that a peer writes is given with the transaction, the value, the
/// moment and whether it was a deletion.
pub proof fn changes_have_their_value(
    query: QueryView,
    given: crate::error::Result<Step<KeyModification>>,
    tx_id: Seq<char>,
    value: Seq<u8>,
    seconds: i64,
    nanos: i32,
    is_delete: bool,
)
    requires
        typed_step(query, given),
        query.batch.len() > 0,
        query.batch[0] == key_modification_bytes(tx_id, value, seconds, nanos, is_delete),
        encode_utf8(tx_id).len() <= u64::MAX,
        value.len() <= u64::MAX,
        timestamp_bytes(seconds, nanos).len() <= u64::MAX,
    ensures
        given matches Ok(Step::Record(record)) && record.tx_id@ == tx_id && record.value@ == value
            && record.is_delete == is_delete && (record.timestamp matches Some(t) && t.seconds
            == seconds && t.nanos == nanos),
{
    if let Ok(Step::Record(record)) = given {
        key_modification_is_read(record, tx_id, value, seconds, nanos, is_delete);
    } else {
        key_modification_is_read(arbitrary(), tx_id, value, seconds, nanos, is_delete);
    }
}

/// All records of a batch are read, each in its place, where none is faulty.
pub proof fn batches_are_read_record_by_record(batch: Seq<Seq<u8>>)
    ensures
        kvs(batch) is Ok <==> forall|i: int|
            0 <= i < batch.len() ==> decoded(Kv::layout(), #[trigger] batch[i]) is Ok,
        kvs(batch) matches Ok(records) ==> records.len() == batch.len() && forall|i: int|
            0 <= i < batch.len() ==> decoded(Kv::layout(), #[trigger] batch[i]) == Ok::<
                _,
                DecodeErrorView,
            >(records[i]),
    decreases batch.len(),
{
    if batch.len() > 0 {
        let shorter = batch.drop_last();
        batches_are_read_record_by_record(shorter);
        assert forall|i: int| 0 <= i < shorter.len() implies shorter[i] == batch[i] by {}
        assert(batch.last() == batch[batch.len() - 1]);
        if forall|i: int|
            0 <= i < batch.len() ==> decoded(Kv::layout(), #[trigger] batch[i]) is Ok {
            assert forall|i: int| 0 <= i < shorter.len() implies decoded(
                Kv::layout(),
                #[trigger] shorter[i],
            ) is Ok by {
                assert(batch[i] == shorter[i]);
            }
        }
        if kvs(batch) is Ok {
            assert forall|i: int| 0 <= i < batch.len() implies decoded(
                Kv::layout(),
                #[trigger] batch[i],
            ) == Ok::<_, DecodeErrorView>(kvs(batch)->Ok_0[i]) by {
                if i < shorter.len() {
                    assert(decoded(Kv::layout(), shorter[i]) == Ok::<_, DecodeErrorView>(
                        kvs(shorter)->Ok_0[i],
                    ));
                }
            }
        }
    }
}

/// Of a batch with faulty records the first one is told.
pub proof fn the_first_faulty_record_is_told(batch: Seq<Seq<u8>>, at: int)
    requires
        0 <= at < batch.len(),
        decoded(Kv::layout(), batch[at]) is Err,
        forall|i: int| 0 <= i < at ==> decoded(Kv::layout(), #[trigger] batch[i]) is Ok,
    ensures
        kvs(batch) == Err::<Seq<Seq<Datum>>, _>(decoded(Kv::layout(), batch[at])->Err_0),
    decreases batch.len(),
{
    let shorter = batch.drop_last();
    assert forall|i: int| 0 <= i < shorter.len() implies shorter[i] == batch[i] by {}
    if at == batch.len() - 1 {
        batches_are_read_record_by_record(shorter);
        assert forall|i: int| 0 <= i < shorter.len() implies decoded(
            Kv::layout(),
            #[trigger] shorter[i],
        ) is Ok by {
            assert(batch[i] == shorter[i]);
        }
    } else {
        assert forall|i: int| 0 <= i < at implies decoded(
            Kv::layout(),
            #[trigger] shorter[i],
        ) is Ok by {
            assert(batch[i] == shorter[i]);
        }
        the_first_faulty_record_is_told(shorter, at);
    }
}

/// The records of key-value pairs are one for each, in their order.
pub proof fn every_pair_has_its_record(list: Seq<Kv>, i: int)
    ensures
        records_of(list).len() == list.len(),
        0 <= i < list.len() ==> records_of(list)[i] == list[i].record(),
{
}

/// The bytes of results are one run for each, in their order.
pub proof fn every_result_has_its_bytes(results: Seq<QueryResultBytes>, i: int)
    ensures
        result_bytes(results).len() == results.len(),
        0 <= i < results.len() ==> result_bytes(results)[i] == results[i].result_bytes@,
{
}

// ---- operations ------------------------------------------------------------
proof fn lemma_read_page(payload: Seq<u8>, page: QueryResponse)
    requires
        is_read_as(payload, page),
    ensures
        page_of(payload) == Ok::<_, DecodeErrorView>(page@),
{
    let list = page.record()[0]->Messages_0;
    assert forall|i: int| 0 <= i < page.results@.len() implies #[trigger] list[i][0]
        == Datum::Bytes(page.results@[i].result_bytes@) by {}
    assert(page@.results =~= record_page(page.record()).results);
    assert(page@ =~= record_page(page.record()));
}
/// An iterator over records starts with the results of the response, open.
pub proof fn iterators_over_records_start_with_the_response(
    response: QueryResponse,
    it: StateQueryIterator,
    i: int,
)
    requires
        call_ensures(StateQueryIterator::new, (response,), it),
    ensures
        it@.batch.len() == response.results@.len(),
        0 <= i < response.results@.len() ==> it@.batch[i] == response.results@[i].result_bytes@,
        it@.has_more == response.has_more,
        it@.id == response.id@,
        !it@.closed,
{
}

/// The next of records is the first of the batch, which leaves it; with an empty batch the
/// next page of the query is asked for where the peer has more and the iterator is open.
pub proof fn the_next_of_records_is_the_first_of_the_batch(
    it: &mut StateQueryIterator,
    given: Result<Step<Kv>>,
    found: QueryStateNext,
)
    requires
        call_ensures(StateQueryIterator::next, (it,), given),
        next_payload(old(it)@.id).len() <= u64::MAX,
    ensures
        old(it)@.batch.len() > 0 ==> final(it)@.batch == old(it)@.batch.skip(1),
        old(it)@.batch.len() == 0 ==> final(it)@.batch == old(it)@.batch,
        final(it)@.id == old(it)@.id,
        final(it)@.has_more == old(it)@.has_more,
        final(it)@.closed == old(it)@.closed,
        given matches Ok(Step::Record(record)) ==> old(it)@.batch.len() > 0 && is_read_as(
            old(it)@.batch[0],
            record,
        ),
        given is Err <==> old(it)@.batch.len() > 0 && !can_be_read::<Kv>(old(it)@.batch[0]),
        given matches Err(error) ==> (error@ matches ErrorView::Decode(_)),
        old(it)@.batch.len() == 0 ==> match given {
            Ok(Step::Fetch(request)) => {
                &&& old(it)@.has_more && !old(it)@.closed
                &&& request.msg_type == MsgType::QueryStateNext
                &&& is_read_as(request.payload@, found) ==> found.id@ == old(it)@.id
                &&& can_be_read::<QueryStateNext>(request.payload@)
            },
            Ok(Step::Done) => !old(it)@.has_more || old(it)@.closed,
            _ => false,
        },
{
    peers_find_the_query_to_go_on_with(found, old(it)@.id);
}

/// The page that is fed to an iterator over records takes the place of its batch; where it
/// cannot be read nothing changes.
pub proof fn records_are_fed_page_by_page(
    it: &mut StateQueryIterator,
    payload: &[u8],
    given: Result<()>,
    page: QueryResponse,
    i: int,
)
    requires
        call_ensures(StateQueryIterator::feed, (it, payload), given),
    ensures
        given is Ok <==> can_be_read::<QueryResponse>(payload@),
        given matches Err(error) ==> (error@ matches ErrorView::Decode(_)) && final(it)@
            == old(it)@,
        is_read_as(payload@, page) ==> {
            &&& final(it)@.batch.len() == page.results@.len()
            &&& 0 <= i < page.results@.len() ==> final(it)@.batch[i]
                == page.results@[i].result_bytes@
            &&& final(it)@.has_more == page.has_more
        },
        final(it)@.id == old(it)@.id,
        final(it)@.closed == old(it)@.closed,
{
    if is_read_as(payload@, page) {
        lemma_read_page(payload@, page);
    }
}

/// An iterator over records is closed by the name of its query, once; it stays as it was
/// otherwise.
pub proof fn records_are_closed_once(
    it: &mut StateQueryIterator,
    given: Option<LedgerRequest>,
    found: QueryStateClose,
)
    requires
        call_ensures(StateQueryIterator::close, (it,), given),
        close_payload(old(it)@.id).len() <= u64::MAX,
    ensures
        given is Some <==> !old(it)@.closed,
        given matches Some(request) ==> {
            &&& request.msg_type == MsgType::QueryStateClose
            &&& can_be_read::<QueryStateClose>(request.payload@)
            &&& is_read_as(request.payload@, found) ==> found.id@ == old(it)@.id
        },
        final(it)@.closed,
        final(it)@.batch == old(it)@.batch,
        final(it)@.has_more == old(it)@.has_more,
        final(it)@.id == old(it)@.id,
{
    peers_find_the_query_to_close(found, old(it)@.id);
}

/// An iterator over changes starts with the results of the response, open.
pub proof fn iterators_over_changes_start_with_the_response(
    response: QueryResponse,
    it: HistoryQueryIterator,
    i: int,
)
    requires
        call_ensures(HistoryQueryIterator::new, (response,), it),
    ensures
        it@.batch.len() == response.results@.len(),
        0 <= i < response.results@.len() ==> it@.batch[i] == response.results@[i].result_bytes@,
        it@.has_more == response.has_more,
        it@.id == response.id@,
        !it@.closed,
{
}

/// The next of changes is the first of the batch, which leaves it; with an empty batch the
/// next page of the query is asked for where the peer has more and the iterator is open.
pub proof fn the_next_of_changes_is_the_first_of_the_batch(
    it: &mut HistoryQueryIterator,
    given: Result<Step<KeyModification>>,
    found: QueryStateNext,
)
    requires
        call_ensures(HistoryQueryIterator::next, (it,), given),
        next_payload(old(it)@.id).len() <= u64::MAX,
    ensures
        old(it)@.batch.len() > 0 ==> final(it)@.batch == old(it)@.batch.skip(1),
        old(it)@.batch.len() == 0 ==> final(it)@.batch == old(it)@.batch,
        final(it)@.id == old(it)@.id,
        final(it)@.has_more == old(it)@.has_more,
        final(it)@.closed == old(it)@.closed,
        given matches Ok(Step::Record(record)) ==> old(it)@.batch.len() > 0 && is_read_as(
            old(it)@.batch[0],
            record,
        ),
        given is Err <==> old(it)@.batch.len() > 0
            && !can_be_read::<KeyModification>(old(it)@.batch[0]),
        given matches Err(error) ==> (error@ matches ErrorView::Decode(_)),
        old(it)@.batch.len() == 0 ==> match given {
            Ok(Step::Fetch(request)) => {
                &&& old(it)@.has_more && !old(it)@.closed
                &&& request.msg_type == MsgType::QueryStateNext
                &&& is_read_as(request.payload@, found) ==> found.id@ == old(it)@.id
                &&& can_be_read::<QueryStateNext>(request.payload@)
            },
            Ok(Step::Done) => !old(it)@.has_more || old(it)@.closed,
            _ => false,
        },
{
    peers_find_the_query_to_go_on_with(found, old(it)@.id);
}

/// The page that is fed to an iterator over changes takes the place of its batch; where it
/// cannot be read nothing changes.
pub proof fn changes_are_fed_page_by_page(
    it: &mut HistoryQueryIterator,
    payload: &[u8],
    given: Result<()>,
    page: QueryResponse,
    i: int,
)
    requires
        call_ensures(HistoryQueryIterator::feed, (it, payload), given),
    ensures
        given is Ok <==> can_be_read::<QueryResponse>(payload@),
        given matches Err(error) ==> (error@ matches ErrorView::Decode(_)) && final(it)@
            == old(it)@,
        is_read_as(payload@, page) ==> {
            &&& final(it)@.batch.len() == page.results@.len()
            &&& 0 <= i < page.results@.len() ==> final(it)@.batch[i]
                == page.results@[i].result_bytes@
            &&& final(it)@.has_more == page.has_more
        },
        final(it)@.id == old(it)@.id,
        final(it)@.closed == old(it)@.closed,
{
    if is_read_as(payload@, page) {
        lemma_read_page(payload@, page);
    }
}

/// An iterator over changes is closed by the name of its query, once; it stays as it was
/// otherwise.
pub proof fn changes_are_closed_once(
    it: &mut HistoryQueryIterator,
    given: Option<LedgerRequest>,
    found: QueryStateClose,
)
    requires
        call_ensures(HistoryQueryIterator::close, (it,), given),
        close_payload(old(it)@.id).len() <= u64::MAX,
    ensures
        given is Some <==> !old(it)@.closed,
        given matches Some(request) ==> {
            &&& request.msg_type == MsgType::QueryStateClose
            &&& can_be_read::<QueryStateClose>(request.payload@)
            &&& is_read_as(request.payload@, found) ==> found.id@ == old(it)@.id
        },
        final(it)@.closed,
        final(it)@.batch == old(it)@.batch,
        final(it)@.has_more == old(it)@.has_more,
        final(it)@.id == old(it)@.id,
{
    peers_find_the_query_to_close(found, old(it)@.id);
}

/// All records at hand are added behind what was there, in their order, where none is
/// faulty; the next page is then asked for where the peer has more.
pub proof fn records_at_hand_are_collected(
    it: &mut StateQueryIterator,
    out: &mut Vec<Kv>,
    given: Result<Option<LedgerRequest>>,
    found: QueryStateNext,
    i: int,
)
    requires
        call_ensures(StateQueryIterator::collect_remaining, (it, out), given),
        next_payload(old(it)@.id).len() <= u64::MAX,
    ensures
        given is Ok <==> forall|k: int|
            0 <= k < old(it)@.batch.len() ==> can_be_read::<Kv>(#[trigger] old(it)@.batch[k]),
        given matches Err(error) ==> (error@ matches ErrorView::Decode(_)),
        given matches Ok(more) ==> {
            &&& final(out)@.len() == old(out)@.len() + old(it)@.batch.len()
            &&& 0 <= i < old(out)@.len() ==> final(out)@[i].record() == old(out)@[i].record()
            &&& 0 <= i < old(it)@.batch.len() ==> is_read_as(
                old(it)@.batch[i],
                final(out)@[old(out)@.len() + i],
            )
            &&& final(it)@.batch.len() == 0
            &&& final(it)@.id == old(it)@.id
            &&& final(it)@.has_more == old(it)@.has_more
            &&& final(it)@.closed == old(it)@.closed
            &&& more is Some <==> old(it)@.has_more && !old(it)@.closed
            &&& more matches Some(request) ==> request.msg_type == MsgType::QueryStateNext
                && can_be_read::<QueryStateNext>(request.payload@) && (is_read_as(
                request.payload@,
                found,
            ) ==> found.id@ == old(it)@.id)
        },
{
    peers_find_the_query_to_go_on_with(found, old(it)@.id);
    batches_are_read_record_by_record(old(it)@.batch);
    if given is Ok {
        let records = kvs(old(it)@.batch)->Ok_0;
        let had = records_of(old(out)@);
        assert(records_of(final(out)@).len() == had.len() + records.len());
        if 0 <= i < old(out)@.len() {
            assert(records_of(final(out)@)[i] == (had + records)[i]);
        }
        if 0 <= i < records.len() {
            assert(records_of(final(out)@)[had.len() + i] == (had + records)[had.len() + i]);
            assert(decoded(Kv::layout(), old(it)@.batch[i]) == Ok::<_, DecodeErrorView>(
                records[i],
            ));
        }
    }
}

} // verus!

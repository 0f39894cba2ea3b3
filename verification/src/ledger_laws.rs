//! What the peer finds in the requests of a transaction, and what a transaction finds
//! in the replies.

use vstd::prelude::*;
use vstd::utf8::encode_utf8;

use crate::codec::{decoded, of_kind, shaped, Datum, Message};
use crate::codec_laws::{decode_inverts_encode, record_reads_back};
use crate::error::{DecodeErrorView, Error, ErrorView, Result};
use crate::iterators::{close_payload, next_payload, page_of, LedgerRequest, PageView};
use crate::iterators::QueryView;
use crate::layout::{fields, Layout};
use crate::ledger::{asks, asks_privately, callee, invoke_payload, invoked, key_payload};
use crate::ledger::{history_payload, page_payload, put_payload, query_payload, range_of};
use crate::ledger::{range_payload, record_response};
use crate::ledger::response_record;
use crate::message_laws::query_response_bytes;
use crate::message_laws::{query_response_metadata_bytes, query_response_metadata_is_read};
use crate::message_laws::{lemma_query_response, lemma_query_response_metadata};
use crate::codec::RECURSION_LIMIT;
use crate::message_type::MsgType;
use crate::proto::{ChaincodeMessage, ChaincodeSpec, DelState, GetHistoryForKey};
use crate::proto::{GetQueryResult, GetState, GetStateByRange, PurgePrivateState, PutState};
use crate::proto::{QueryMetadata, QueryStateClose, QueryStateNext};
use crate::proto;
use crate::response::ResponseView;
use crate::text;
use crate::wire_form::{fits, result_runs, set_number, set_run, written};

verus! {

/// Whether `bytes` are read as `message`.
pub open spec fn is_read_as<M: Message>(bytes: Seq<u8>, message: M) -> bool {
    decoded(M::layout(), bytes) == Ok::<_, DecodeErrorView>(message.record())
}

/// Whether `bytes` can be read as a message of the type.
pub open spec fn can_be_read<M: Message>(bytes: Seq<u8>) -> bool {
    decoded(M::layout(), bytes) is Ok
}

// ---- requests --------------------------------------------------------------
/// The peer finds in a request for a value the key and the collection.
pub proof fn peers_find_the_key_to_get(found: GetState, key: Seq<char>, collection: Seq<char>)
    requires
        key_payload(Layout::GetState, key, collection).len() <= u64::MAX,
    ensures
        can_be_read::<GetState>(key_payload(Layout::GetState, key, collection)),
        is_read_as(key_payload(Layout::GetState, key, collection), found) ==> found.key@ == key
            && found.collection@ == collection,
{
    reveal(fields);
    let record = seq![Datum::Text(key), Datum::Text(collection)];
    record_reads_back(Layout::GetState, record);
    assert(found.record() == record ==> found.record()[0] == record[0] && found.record()[1]
        == record[1]);
}

/// The peer finds in a request to delete a key the key and the collection.
pub proof fn peers_find_the_key_to_delete(found: DelState, key: Seq<char>, collection: Seq<char>)
    requires
        key_payload(Layout::DelState, key, collection).len() <= u64::MAX,
    ensures
        can_be_read::<DelState>(key_payload(Layout::DelState, key, collection)),
        is_read_as(key_payload(Layout::DelState, key, collection), found) ==> found.key@ == key
            && found.collection@ == collection,
{
    reveal(fields);
    let record = seq![Datum::Text(key), Datum::Text(collection)];
    record_reads_back(Layout::DelState, record);
    assert(found.record() == record ==> found.record()[0] == record[0] && found.record()[1]
        == record[1]);
}

/// The peer finds in a request to purge a key the key and the collection.
pub proof fn peers_find_the_key_to_purge(
    found: PurgePrivateState,
    key: Seq<char>,
    collection: Seq<char>,
)
    requires
        key_payload(Layout::PurgePrivateState, key, collection).len() <= u64::MAX,
    ensures
        can_be_read::<PurgePrivateState>(key_payload(Layout::PurgePrivateState, key, collection)),
        is_read_as(key_payload(Layout::PurgePrivateState, key, collection), found) ==> found.key@
            == key && found.collection@ == collection,
{
    reveal(fields);
    let record = seq![Datum::Text(key), Datum::Text(collection)];
    record_reads_back(Layout::PurgePrivateState, record);
    assert(found.record() == record ==> found.record()[0] == record[0] && found.record()[1]
        == record[1]);
}

/// The peer finds in a request to set a key the key, the value and the collection.
pub proof fn peers_find_what_to_put(
    found: PutState,
    key: Seq<char>,
    value: Seq<u8>,
    collection: Seq<char>,
)
    requires
        put_payload(key, value, collection).len() <= u64::MAX,
    ensures
        can_be_read::<PutState>(put_payload(key, value, collection)),
        is_read_as(put_payload(key, value, collection), found) ==> found.key@ == key
            && found.value@ == value && found.collection@ == collection,
{
    reveal(fields);
    let record = seq![Datum::Text(key), Datum::Bytes(value), Datum::Text(collection)];
    record_reads_back(Layout::PutState, record);
    assert(found.record() == record ==> found.record()[0] == record[0] && found.record()[1]
        == record[1] && found.record()[2] == record[2]);
}

/// The peer finds in a range request both ends of the range, the collection and what
/// is said of the page, whatever each of them is.
pub proof fn peers_find_the_range(
    found: GetStateByRange,
    start_key: Seq<char>,
    end_key: Seq<char>,
    collection: Seq<char>,
    metadata: Seq<u8>,
)
    requires
        range_payload(start_key, end_key, collection, metadata).len() <= u64::MAX,
    ensures
        can_be_read::<GetStateByRange>(range_payload(start_key, end_key, collection, metadata)),
        is_read_as(range_payload(start_key, end_key, collection, metadata), found) ==> {
            &&& found.start_key@ == start_key
            &&& found.end_key@ == end_key
            &&& found.collection@ == collection
            &&& found.metadata@ == metadata
        },
        decoded(
            Layout::GetStateByRange,
            range_payload(start_key, end_key, collection, metadata),
        ) == Ok::<_, DecodeErrorView>(
            seq![
                Datum::Text(start_key),
                Datum::Text(end_key),
                Datum::Text(collection),
                Datum::Bytes(metadata),
            ],
        ),
{
    reveal(fields);
    let record = seq![
        Datum::Text(start_key),
        Datum::Text(end_key),
        Datum::Text(collection),
        Datum::Bytes(metadata),
    ];
    record_reads_back(Layout::GetStateByRange, record);
    assert(found.record() == record ==> found.record()[0] == record[0] && found.record()[1]
        == record[1] && found.record()[2] == record[2] && found.record()[3] == record[3]);
}

/// The peer finds in what is said of a page its size and the bookmark.
pub proof fn peers_find_the_page(found: QueryMetadata, page_size: i32, bookmark: Seq<char>)
    requires
        page_payload(page_size, bookmark).len() <= u64::MAX,
    ensures
        can_be_read::<QueryMetadata>(page_payload(page_size, bookmark)),
        is_read_as(page_payload(page_size, bookmark), found) ==> found.page_size == page_size
            && found.bookmark@ == bookmark,
{
    reveal(fields);
    let record = seq![Datum::Int(page_size as int), Datum::Text(bookmark)];
    record_reads_back(Layout::QueryMetadata, record);
    assert(found.record() == record ==> found.record()[0] == record[0] && found.record()[1]
        == record[1]);
}

/// The peer finds in the request for the next page the query.
pub proof fn peers_find_the_query_to_go_on_with(found: QueryStateNext, id: Seq<char>)
    requires
        next_payload(id).len() <= u64::MAX,
    ensures
        can_be_read::<QueryStateNext>(next_payload(id)),
        is_read_as(next_payload(id), found) ==> found.id@ == id,
{
    reveal(fields);
    let record = seq![Datum::Text(id)];
    record_reads_back(Layout::QueryStateNext, record);
    assert(found.record() == record ==> found.record()[0] == record[0]);
}

/// The peer finds in the request to close a query which one.
pub proof fn peers_find_the_query_to_close(found: QueryStateClose, id: Seq<char>)
    requires
        close_payload(id).len() <= u64::MAX,
    ensures
        can_be_read::<QueryStateClose>(close_payload(id)),
        is_read_as(close_payload(id), found) ==> found.id@ == id,
{
    reveal(fields);
    let record = seq![Datum::Text(id)];
    record_reads_back(Layout::QueryStateClose, record);
    assert(found.record() == record ==> found.record()[0] == record[0]);
}

/// The peer finds in a rich query the query, of no collection and no page.
pub proof fn peers_find_the_query(found: GetQueryResult, query: Seq<char>)
    requires
        query_payload(query).len() <= u64::MAX,
    ensures
        can_be_read::<GetQueryResult>(query_payload(query)),
        is_read_as(query_payload(query), found) ==> found.query@ == query
            && found.collection@.len() == 0 && found.metadata@.len() == 0,
{
    reveal(fields);
    let record = seq![Datum::Text(query), Datum::Text(seq![]), Datum::Bytes(seq![])];
    record_reads_back(Layout::GetQueryResult, record);
    assert(found.record() == record ==> found.record()[0] == record[0] && found.record()[1]
        == record[1] && found.record()[2] == record[2]);
}

/// The peer finds in a request for a history the key.
pub proof fn peers_find_the_key_of_the_history(found: GetHistoryForKey, key: Seq<char>)
    requires
        history_payload(key).len() <= u64::MAX,
    ensures
        can_be_read::<GetHistoryForKey>(history_payload(key)),
        is_read_as(history_payload(key), found) ==> found.key@ == key,
{
    reveal(fields);
    let record = seq![Datum::Text(key)];
    record_reads_back(Layout::GetHistoryForKey, record);
    assert(found.record() == record ==> found.record()[0] == record[0]);
}

/// The peer finds in a call of another chaincode all the arguments that were given,
/// whatever the channel is, and the name of the callee; nothing else is set.
pub proof fn peers_find_the_call(
    found: ChaincodeSpec,
    chaincode_name: Seq<char>,
    args: Seq<Seq<u8>>,
    channel: Seq<char>,
)
    requires
        invoke_payload(chaincode_name, args, channel).len() <= u64::MAX,
    ensures
        can_be_read::<ChaincodeSpec>(invoke_payload(chaincode_name, args, channel)),
        is_read_as(invoke_payload(chaincode_name, args, channel), found) ==> {
            &&& found.type_code == 0 && found.timeout == 0
            &&& found.chaincode_id matches Some(id) && id.name@ == callee(chaincode_name, channel)
                && id.path@.len() == 0 && id.version@.len() == 0
            &&& found.input matches Some(input) && input.args.deep_view() == args
                && input.decorations@.len() == 0 && !input.is_init
        },
{
    reveal(fields);
    let id = seq![
        Datum::Text(seq![]),
        Datum::Text(callee(chaincode_name, channel)),
        Datum::Text(seq![]),
    ];
    let input = seq![Datum::ManyBytes(args), Datum::Entries(seq![]), Datum::Int(0)];
    let record = seq![
        Datum::Int(0),
        Datum::Message(Some(id)),
        Datum::Message(Some(input)),
        Datum::Int(0),
    ];
    assert(shaped(Layout::ChaincodeId, id));
    assert(shaped(Layout::ChaincodeInput, input));
    assert(of_kind(fields(Layout::ChaincodeSpec)[1].kind, record[1]));
    assert(of_kind(fields(Layout::ChaincodeSpec)[2].kind, record[2]));
    record_reads_back(Layout::ChaincodeSpec, record);
    if found.record() == record {
        assert(found.record()[0] == record[0]);
        assert(found.record()[1] == record[1]);
        assert(found.record()[2] == record[2]);
        assert(found.record()[3] == record[3]);
        let found_id = found.chaincode_id->0;
        let found_input = found.input->0;
        assert(found_id.record() == id);
        assert(found_input.record() == input);
        assert(found_id.record()[0] == id[0] && found_id.record()[1] == id[1]
            && found_id.record()[2] == id[2]);
        assert(found_input.record()[0] == input[0] && found_input.record()[1] == input[1]
            && found_input.record()[2] == input[2]);
    }
}

/// The callee is the chaincode by its name alone on the channel of the caller, and by
/// its name, a slash and the channel on another.
pub proof fn callees_are_named_with_their_channel(name: Seq<char>, channel: Seq<char>)
    ensures
        channel.len() == 0 ==> callee(name, channel) == name,
        channel.len() > 0 ==> {
            &&& callee(name, channel).len() == name.len() + 1 + channel.len()
            &&& callee(name, channel).take(name.len() as int) == name
            &&& callee(name, channel)[name.len() as int] == '/'
            &&& callee(name, channel).skip(name.len() as int + 1) == channel
        },
{
    reveal_strlit("/");
    if channel.len() > 0 {
        assert(callee(name, channel).take(name.len() as int) =~= name);
        assert(callee(name, channel).skip(name.len() as int + 1) =~= channel);
    }
}

/// A request has the kind and the payload that it is said to have.
pub proof fn requests_have_kind_and_payload(r: LedgerRequest, msg_type: MsgType, payload: Seq<u8>)
    ensures
        asks(r, msg_type, payload) <==> r.msg_type == msg_type && r.payload@ == payload,
{
}

/// A request about private data is refused where the collection is empty, and only
/// there.
pub proof fn private_requests_need_a_collection(
    r: Result<LedgerRequest>,
    collection: Seq<char>,
    msg_type: MsgType,
    payload: Seq<u8>,
)
    requires
        asks_privately(r, collection, msg_type, payload),
    ensures
        r is Err <==> collection.len() == 0,
        r matches Err(e) ==> e@ == ErrorView::InvalidArgument("collection must not be empty"@),
        r matches Ok(request) ==> request.msg_type == msg_type && request.payload@ == payload,
{
}

// ---- replies ---------------------------------------------------------------
/// A query finds in the peer's reply the results in their order, whether there are
/// more, and the name of the query.
pub proof fn queries_find_their_page(
    results: Seq<Seq<u8>>,
    has_more: bool,
    id: Seq<char>,
    metadata: Seq<u8>,
)
    requires
        fits(results),
        fits(result_runs(results)),
        encode_utf8(id).len() <= u64::MAX,
        metadata.len() <= u64::MAX,
    ensures
        page_of(query_response_bytes(results, has_more, id, metadata)) == Ok::<_, DecodeErrorView>(
            (PageView { results, has_more, id, metadata }),
        ),
{
    let bytes = query_response_bytes(results, has_more, id, metadata);
    lemma_query_response(results, has_more, id, metadata, seq![], RECURSION_LIMIT as nat);
    assert(bytes + Seq::<u8>::empty() =~= bytes);
    let page = page_of(bytes)->Ok_0;
    assert(page.results =~= results);
}

/// A query starts with the whole page of the reply, open.
pub proof fn queries_start_with_their_page(page: PageView)
    ensures
        QueryView::opened(page).batch == page.results,
        QueryView::opened(page).has_more == page.has_more,
        QueryView::opened(page).id == page.id,
        !QueryView::opened(page).closed,
{
}

/// A range query finds beside its page what the peer says of it: how many records
/// were fetched and the bookmark of the next page.
pub proof fn range_queries_find_their_metadata(
    found: proto::QueryResponseMetadata,
    results: Seq<Seq<u8>>,
    has_more: bool,
    id: Seq<char>,
    count: i32,
    bookmark: Seq<char>,
)
    requires
        fits(results),
        fits(result_runs(results)),
        encode_utf8(id).len() <= u64::MAX,
        encode_utf8(bookmark).len() <= u64::MAX,
        query_response_metadata_bytes(count, bookmark).len() <= u64::MAX,
    ensures
        ({
            let metadata = query_response_metadata_bytes(count, bookmark);
            let said = range_of(query_response_bytes(results, has_more, id, metadata));
            &&& said matches Ok((page, Some(record)))
            &&& page == (PageView { results, has_more, id, metadata })
            &&& found.record() == record ==> found.fetched_records_count == count
                && found.bookmark@ == bookmark
        }),
{
    let metadata = query_response_metadata_bytes(count, bookmark);
    queries_find_their_page(results, has_more, id, metadata);
    lemma_query_response_metadata(count, bookmark, seq![], RECURSION_LIMIT as nat);
    assert(metadata + Seq::<u8>::empty() =~= metadata);
    query_response_metadata_is_read(found, count, bookmark);
}

/// A reply without metadata gives none.
pub proof fn range_queries_may_have_no_metadata(
    results: Seq<Seq<u8>>,
    has_more: bool,
    id: Seq<char>,
)
    requires
        fits(results),
        fits(result_runs(results)),
        encode_utf8(id).len() <= u64::MAX,
    ensures
        range_of(query_response_bytes(results, has_more, id, seq![])) == Ok::<_, DecodeErrorView>(
            (PageView { results, has_more, id, metadata: seq![] }, None::<Seq<Datum>>),
        ),
{
    queries_find_their_page(results, has_more, id, seq![]);
}

/// A reply that cannot be read is a fault of the query, and no page.
pub proof fn faulty_replies_give_no_page(payload: Seq<u8>)
    ensures
        decoded(Layout::QueryResponse, payload) matches Err(e) ==> page_of(payload) == Err::<
            PageView,
            _,
        >(e) && range_of(payload) == Err::<(PageView, Option<Seq<Datum>>), _>(e),
        page_of(payload) is Ok <==> decoded(Layout::QueryResponse, payload) is Ok,
{
}

/// The bytes of a response: its status, its message and its payload.
pub proof fn responses_are_written_field_by_field(given: proto::Response, response: ResponseView)
    requires
        given.record() == response_record(response),
    ensures
        given.status == response.status,
        given.message@ == response.message,
        given.payload@ == response.payload,
        written(given) == set_number(1, response.status as int) + set_run(
            2,
            encode_utf8(response.message),
        ) + set_run(3, response.payload),
{
    let record = response_record(response);
    assert(given.record()[0] == record[0]);
    assert(given.record()[1] == record[1]);
    assert(given.record()[2] == record[2]);
    crate::message_laws::response_is_written(given);
}

/// The response in the record of a message has the fields of the message.
pub proof fn responses_have_the_fields_of_the_message(given: proto::Response)
    ensures
        record_response(given.record()).status == given.status,
        record_response(given.record()).message == given.message@,
        record_response(given.record()).payload == given.payload@,
{
}

/// A callee that ended in an error gives the caller its report, and one that answered
/// with anything but a completion or an error is out of place. What cannot be read is
/// a fault.
pub proof fn callers_learn_of_failed_calls(last: ChaincodeMessage)
    requires
        written(last).len() <= u64::MAX,
        last.kind() != MsgType::Completed,
    ensures
        last.kind() == MsgType::Error ==> invoked(written(last)) == Err::<ResponseView, _>(
            ErrorView::Peer(text::lossy(last.payload@)),
        ),
        last.kind() != MsgType::Error ==> invoked(written(last)) == Err::<ResponseView, _>(
            ErrorView::Protocol(
                "unexpected nested message type "@ + last.kind().spelled()
                    + " from invoked chaincode"@,
            ),
        ),
{
    decode_inverts_encode(last);
}

/// A reply to a call that cannot be read is a fault of reading, and so is a
/// completion whose payload is no response.
pub proof fn callers_learn_of_faulty_replies(payload: Seq<u8>, last: ChaincodeMessage)
    ensures
        decoded(Layout::ChaincodeMessage, payload) matches Err(e) ==> invoked(payload) == Err::<
            ResponseView,
            _,
        >(ErrorView::Decode(e)),
        is_read_as(payload, last) && last.kind() == MsgType::Completed ==> (decoded(
            Layout::Response,
            last.payload@,
        ) matches Err(e) ==> invoked(payload) == Err::<ResponseView, _>(ErrorView::Decode(e))),
{
}

} // verus!

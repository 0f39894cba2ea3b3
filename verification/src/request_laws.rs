//! What the requests of a transaction ask of the peer, and what it makes of the replies.

use vstd::prelude::*;

use crate::codec::{Datum, Message};
use crate::composite_key::{component_fault, create_composite_key, split_composite_key};
use crate::composite_key::{terminated, texts, validate_composite_component};
use crate::composite_key::split_inverts_create;
use crate::composite_key_laws::components_are_refused_for_a_reason;
use crate::composite_key_laws::the_first_faulty_component_is_told;
use crate::error::{ErrorView, Result};
use crate::iterators::{HistoryQueryIterator, LedgerRequest, StateQueryIterator};
use crate::ledger::{history_reply, invoke_reply, page_reply, query_reply, range_reply};
use crate::ledger::{page_payload, require_collection, value_reply};
use crate::ledger_laws::{can_be_read, is_read_as, peers_find_the_call};
use crate::ledger_laws::peers_find_the_key_of_the_history;
use crate::ledger_laws::{peers_find_the_key_to_delete, peers_find_the_key_to_get};
use crate::ledger_laws::{peers_find_the_key_to_purge, peers_find_the_page, peers_find_the_query};
use crate::ledger_laws::{peers_find_the_range, peers_find_what_to_put};
use crate::ledger_laws::callees_are_named_with_their_channel;
use crate::ledger_laws::responses_have_the_fields_of_the_message;
use crate::message_type::MsgType;
use crate::proto;
use crate::proto::{ChaincodeMessage, ChaincodeSpec, DelState, GetHistoryForKey, GetQueryResult};
use crate::proto::{GetState, GetStateByRange, PurgePrivateState, PutState, QueryMetadata};
use crate::proto::{QueryResponse, QueryResponseMetadata};
use crate::response::Response;
use crate::stub::ChaincodeStub;
use crate::text;

verus! {

// ---- world state -----------------------------------------------------------
/// A request for a value: the peer finds the key, and no collection.
pub proof fn get_state_asks_for_the_key(
    stub: ChaincodeStub,
    key: &str,
    request: LedgerRequest,
    found: GetState,
)
    requires
        call_ensures(ChaincodeStub::get_state, (&stub, key), request),
        request.payload@.len() <= u64::MAX,
    ensures
        request.msg_type == MsgType::GetState,
        can_be_read::<GetState>(request.payload@),
        is_read_as(request.payload@, found) ==> found.key@ == key@ && found.collection@.len() == 0,
{
    peers_find_the_key_to_get(found, key@, seq![]);
}

/// A request to set a value: refused for an empty key and no other; the peer finds the
/// key, the value, and no collection.
pub proof fn put_state_sets_the_value(
    stub: ChaincodeStub,
    key: &str,
    value: Vec<u8>,
    given: Result<LedgerRequest>,
    found: PutState,
)
    requires
        call_ensures(ChaincodeStub::put_state, (&stub, key, value), given),
        given matches Ok(request) ==> request.payload@.len() <= u64::MAX,
    ensures
        given is Err <==> key@.len() == 0,
        given matches Err(e) ==> e@ == ErrorView::InvalidArgument("key must not be empty"@),
        given matches Ok(request) ==> request.msg_type == MsgType::PutState && can_be_read::<
            PutState,
        >(request.payload@) && (is_read_as(request.payload@, found) ==> found.key@ == key@
            && found.value@ == value@ && found.collection@.len() == 0),
{
    if given is Ok {
        peers_find_what_to_put(found, key@, value@, seq![]);
    }
}

/// A request to delete a key: the peer finds the key, and no collection.
pub proof fn del_state_deletes_the_key(
    stub: ChaincodeStub,
    key: &str,
    request: LedgerRequest,
    found: DelState,
)
    requires
        call_ensures(ChaincodeStub::del_state, (&stub, key), request),
        request.payload@.len() <= u64::MAX,
    ensures
        request.msg_type == MsgType::DelState,
        can_be_read::<DelState>(request.payload@),
        is_read_as(request.payload@, found) ==> found.key@ == key@ && found.collection@.len() == 0,
{
    peers_find_the_key_to_delete(found, key@, seq![]);
}

/// A range query: the peer finds both ends, no collection, and no page.
pub proof fn range_queries_ask_for_their_range(
    stub: ChaincodeStub,
    start_key: &str,
    end_key: &str,
    request: LedgerRequest,
    found: GetStateByRange,
)
    requires
        call_ensures(ChaincodeStub::get_state_by_range, (&stub, start_key, end_key), request),
        request.payload@.len() <= u64::MAX,
    ensures
        request.msg_type == MsgType::GetStateByRange,
        can_be_read::<GetStateByRange>(request.payload@),
        is_read_as(request.payload@, found) ==> {
            &&& found.start_key@ == start_key@
            &&& found.end_key@ == end_key@
            &&& found.collection@.len() == 0
            &&& found.metadata@.len() == 0
        },
{
    peers_find_the_range(found, start_key@, end_key@, seq![], seq![]);
}

/// A paginated range query: the peer finds both ends, no collection, and in what is said
/// of the page its size and the bookmark.
pub proof fn paginated_queries_ask_for_their_page(
    stub: ChaincodeStub,
    start_key: &str,
    end_key: &str,
    page_size: i32,
    bookmark: &str,
    request: LedgerRequest,
    found: GetStateByRange,
    page: QueryMetadata,
)
    requires
        call_ensures(
            ChaincodeStub::get_state_by_range_with_pagination,
            (&stub, start_key, end_key, page_size, bookmark),
            request,
        ),
        request.payload@.len() <= u64::MAX,
        found.metadata@.len() <= u64::MAX,
    ensures
        request.msg_type == MsgType::GetStateByRange,
        can_be_read::<GetStateByRange>(request.payload@),
        is_read_as(request.payload@, found) ==> {
            &&& found.start_key@ == start_key@
            &&& found.end_key@ == end_key@
            &&& found.collection@.len() == 0
            &&& can_be_read::<QueryMetadata>(found.metadata@)
            &&& is_read_as(found.metadata@, page) ==> page.page_size == page_size && page.bookmark@
                == bookmark@
        },
{
    let metadata = page_payload(page_size, bookmark@);
    peers_find_the_range(found, start_key@, end_key@, seq![], metadata);
    if is_read_as(request.payload@, found) {
        peers_find_the_page(page, page_size, bookmark@);
    }
}

/// A rich query: the peer finds the query, no collection, and no page.
pub proof fn rich_queries_ask_their_query(
    stub: ChaincodeStub,
    query: &str,
    request: LedgerRequest,
    found: GetQueryResult,
)
    requires
        call_ensures(ChaincodeStub::get_query_result, (&stub, query), request),
        request.payload@.len() <= u64::MAX,
    ensures
        request.msg_type == MsgType::GetQueryResult,
        can_be_read::<GetQueryResult>(request.payload@),
        is_read_as(request.payload@, found) ==> found.query@ == query@ && found.collection@.len()
            == 0 && found.metadata@.len() == 0,
{
    peers_find_the_query(found, query@);
}

/// A request for a history: the peer finds the key.
pub proof fn histories_are_asked_for_by_key(
    stub: ChaincodeStub,
    key: &str,
    request: LedgerRequest,
    found: GetHistoryForKey,
)
    requires
        call_ensures(ChaincodeStub::get_history_for_key, (&stub, key), request),
        request.payload@.len() <= u64::MAX,
    ensures
        request.msg_type == MsgType::GetHistoryForKey,
        can_be_read::<GetHistoryForKey>(request.payload@),
        is_read_as(request.payload@, found) ==> found.key@ == key@,
{
    peers_find_the_key_of_the_history(found, key@);
}

/// A query by a partial composite key is the range from that key to the same with
/// U+10FFFF behind it; it is refused where the key could not be created, in the same
/// words.
pub proof fn partial_keys_are_ranges(
    stub: ChaincodeStub,
    object_type: &str,
    attributes: &[&str],
    created: Result<String>,
    given: Result<LedgerRequest>,
    found: GetStateByRange,
)
    requires
        call_ensures(create_composite_key, (object_type, attributes), created),
        call_ensures(
            ChaincodeStub::get_state_by_partial_composite_key,
            (&stub, object_type, attributes),
            given,
        ),
        given matches Ok(request) ==> request.payload@.len() <= u64::MAX,
    ensures
        given is Ok <==> created is Ok,
        created matches Err(e) ==> (given matches Err(told) && told@ == e@),
        created matches Ok(key) ==> (given matches Ok(request) && request.msg_type
            == MsgType::GetStateByRange && can_be_read::<GetStateByRange>(request.payload@) && (
        is_read_as(request.payload@, found) ==> found.start_key@ == key@ && found.end_key@ == key@
            + seq!['\u{10FFFF}'] && found.collection@.len() == 0 && found.metadata@.len() == 0)),
{
    if created is Ok {
        let key = created->Ok_0@;
        peers_find_the_range(found, key, key.push('\u{10FFFF}'), seq![], seq![]);
        assert(key.push('\u{10FFFF}') =~= key + seq!['\u{10FFFF}']);
    }
}

// ---- private data ----------------------------------------------------------
/// A request for a private value: refused for an empty collection; the peer finds the
/// collection and the key.
pub proof fn private_values_are_asked_for_by_key(
    stub: ChaincodeStub,
    collection: &str,
    key: &str,
    given: Result<LedgerRequest>,
    hash: Result<LedgerRequest>,
    found: GetState,
)
    requires
        call_ensures(ChaincodeStub::get_private_data, (&stub, collection, key), given),
        call_ensures(ChaincodeStub::get_private_data_hash, (&stub, collection, key), hash),
        given matches Ok(request) ==> request.payload@.len() <= u64::MAX,
    ensures
        given is Err <==> collection@.len() == 0,
        given matches Err(e) ==> e@ == ErrorView::InvalidArgument("collection must not be empty"@),
        given matches Ok(request) ==> request.msg_type == MsgType::GetState && can_be_read::<
            GetState,
        >(request.payload@) && (is_read_as(request.payload@, found) ==> found.key@ == key@
            && found.collection@ == collection@),
        hash is Err <==> collection@.len() == 0,
        hash matches Err(e) ==> e@ == ErrorView::InvalidArgument("collection must not be empty"@),
        hash matches Ok(request) ==> request.msg_type == MsgType::GetPrivateDataHash
            && request.payload@ == given->Ok_0.payload@,
{
    if given is Ok {
        peers_find_the_key_to_get(found, key@, collection@);
    }
}

/// A request to set a private value: refused for an empty collection or an empty key, the
/// first of them; the peer finds the collection, the key and the value.
pub proof fn private_values_are_set(
    stub: ChaincodeStub,
    collection: &str,
    key: &str,
    value: Vec<u8>,
    given: Result<LedgerRequest>,
    found: PutState,
)
    requires
        call_ensures(ChaincodeStub::put_private_data, (&stub, collection, key, value), given),
        given matches Ok(request) ==> request.payload@.len() <= u64::MAX,
    ensures
        given is Err <==> collection@.len() == 0 || key@.len() == 0,
        collection@.len() == 0 ==> (given matches Err(e) && e@ == ErrorView::InvalidArgument(
            "collection must not be empty"@,
        )),
        collection@.len() > 0 && key@.len() == 0 ==> (given matches Err(e) && e@
            == ErrorView::InvalidArgument("key must not be empty"@)),
        given matches Ok(request) ==> request.msg_type == MsgType::PutState && can_be_read::<
            PutState,
        >(request.payload@) && (is_read_as(request.payload@, found) ==> found.key@ == key@
            && found.value@ == value@ && found.collection@ == collection@),
{
    if given is Ok {
        peers_find_what_to_put(found, key@, value@, collection@);
    }
}

/// A request to delete or to purge a private value: refused for an empty collection; the
/// peer finds the collection and the key.
pub proof fn private_values_are_deleted_and_purged(
    stub: ChaincodeStub,
    collection: &str,
    key: &str,
    deleting: Result<LedgerRequest>,
    purging: Result<LedgerRequest>,
    deleted: DelState,
    purged: PurgePrivateState,
)
    requires
        call_ensures(ChaincodeStub::del_private_data, (&stub, collection, key), deleting),
        call_ensures(ChaincodeStub::purge_private_data, (&stub, collection, key), purging),
        deleting matches Ok(request) ==> request.payload@.len() <= u64::MAX,
        purging matches Ok(request) ==> request.payload@.len() <= u64::MAX,
    ensures
        deleting is Err <==> collection@.len() == 0,
        purging is Err <==> collection@.len() == 0,
        deleting matches Err(e) ==> e@ == ErrorView::InvalidArgument(
            "collection must not be empty"@,
        ),
        purging matches Err(e) ==> e@ == ErrorView::InvalidArgument(
            "collection must not be empty"@,
        ),
        deleting matches Ok(request) ==> request.msg_type == MsgType::DelState && can_be_read::<
            DelState,
        >(request.payload@) && (is_read_as(request.payload@, deleted) ==> deleted.key@ == key@
            && deleted.collection@ == collection@),
        purging matches Ok(request) ==> request.msg_type == MsgType::PurgePrivateData
            && can_be_read::<PurgePrivateState>(request.payload@) && (is_read_as(
            request.payload@,
            purged,
        ) ==> purged.key@ == key@ && purged.collection@ == collection@),
{
    if deleting is Ok {
        peers_find_the_key_to_delete(deleted, key@, collection@);
    }
    if purging is Ok {
        peers_find_the_key_to_purge(purged, key@, collection@);
    }
}

/// A range query over a private collection: refused for an empty one; the peer finds the
/// collection and both ends.
pub proof fn private_ranges_are_asked_for(
    stub: ChaincodeStub,
    collection: &str,
    start_key: &str,
    end_key: &str,
    given: Result<LedgerRequest>,
    found: GetStateByRange,
)
    requires
        call_ensures(
            ChaincodeStub::get_private_data_by_range,
            (&stub, collection, start_key, end_key),
            given,
        ),
        given matches Ok(request) ==> request.payload@.len() <= u64::MAX,
    ensures
        given is Err <==> collection@.len() == 0,
        given matches Err(e) ==> e@ == ErrorView::InvalidArgument("collection must not be empty"@),
        given matches Ok(request) ==> request.msg_type == MsgType::GetStateByRange && can_be_read::<
            GetStateByRange,
        >(request.payload@) && (is_read_as(request.payload@, found) ==> found.start_key@
            == start_key@ && found.end_key@ == end_key@ && found.collection@ == collection@
            && found.metadata@.len() == 0),
{
    if given is Ok {
        peers_find_the_range(found, start_key@, end_key@, collection@, seq![]);
    }
}

// ---- calls -----------------------------------------------------------------
/// A call of another chaincode: the peer finds all arguments, whatever the channel is,
/// and the name of the chaincode, with the channel behind a slash where one is given.
pub proof fn calls_hand_over_their_arguments(
    stub: ChaincodeStub,
    name: &str,
    args: Vec<Vec<u8>>,
    channel: &str,
    request: LedgerRequest,
    found: ChaincodeSpec,
)
    requires
        call_ensures(ChaincodeStub::invoke_chaincode, (&stub, name, args, channel), request),
        request.payload@.len() <= u64::MAX,
    ensures
        request.msg_type == MsgType::InvokeChaincode,
        can_be_read::<ChaincodeSpec>(request.payload@),
        is_read_as(request.payload@, found) ==> {
            &&& found.input matches Some(input) && input.args.deep_view() == args.deep_view()
            &&& found.chaincode_id matches Some(id) && if channel@.len() == 0 {
                id.name@ == name@
            } else {
                id.name@ == name@ + seq!['/'] + channel@
            }
        },
{
    peers_find_the_call(found, name@, args.deep_view(), channel@);
    callees_are_named_with_their_channel(name@, channel@);
    reveal_strlit("/");
    assert("/"@ =~= seq!['/']);
}

// ---- replies ---------------------------------------------------------------
/// The value of a key is the payload of the reply.
pub proof fn values_are_the_payload(reply: ChaincodeMessage, value: Vec<u8>)
    requires
        call_ensures(value_reply, (reply,), value),
    ensures
        value@ == reply.payload@,
{
}

/// A query opens with what the peer's response holds: its results in their order, its
/// name, and whether there are more. A reply that cannot be read is a failure.
pub proof fn queries_open_with_the_response(
    reply: ChaincodeMessage,
    response: QueryResponse,
    query: Result<StateQueryIterator>,
    history: Result<HistoryQueryIterator>,
)
    requires
        call_ensures(query_reply, (&reply,), query),
        call_ensures(history_reply, (&reply,), history),
    ensures
        query is Ok <==> can_be_read::<QueryResponse>(reply.payload@),
        history is Ok <==> can_be_read::<QueryResponse>(reply.payload@),
        query matches Err(e) ==> (e@ matches ErrorView::Decode(_)),
        history matches Err(e) ==> (e@ matches ErrorView::Decode(_)),
        is_read_as(reply.payload@, response) ==> {
            &&& query matches Ok(iter) && iter@.id == response.id@ && iter@.has_more
                == response.has_more && !iter@.closed && iter@.batch.len()
                == response.results@.len() && forall|i: int|
                0 <= i < response.results@.len() ==> (#[trigger] iter@.batch[i])
                    == response.results@[i].result_bytes@
            &&& history matches Ok(iter) && iter@ == query->Ok_0@
        },
{
    if is_read_as(reply.payload@, response) {
        let list = response.record()[0]->Messages_0;
        assert forall|i: int| 0 <= i < response.results@.len() implies #[trigger] list[i][0]
            == proto_bytes(response, i) by {}
        let batch = query->Ok_0@.batch;
        assert(batch.len() == response.results@.len());
        assert forall|i: int| 0 <= i < response.results@.len() implies (#[trigger] batch[i])
            == response.results@[i].result_bytes@ by {
            assert(list[i][0] == proto_bytes(response, i));
        }
    }
}

spec fn proto_bytes(response: QueryResponse, i: int) -> Datum {
    Datum::Bytes(response.results@[i].result_bytes@)
}

/// A range query opens as any other, and has the metadata of the response where there are
/// any; a paginated one has blank metadata where there are none.
pub proof fn ranges_open_with_their_metadata(
    reply: ChaincodeMessage,
    response: QueryResponse,
    said: QueryResponseMetadata,
    query: Result<StateQueryIterator>,
    range: Result<(StateQueryIterator, Option<QueryResponseMetadata>)>,
    page: Result<(StateQueryIterator, QueryResponseMetadata)>,
)
    requires
        call_ensures(query_reply, (&reply,), query),
        call_ensures(range_reply, (&reply,), range),
        call_ensures(page_reply, (&reply,), page),
        is_read_as(reply.payload@, response),
    ensures
        response.metadata@.len() == 0 ==> {
            &&& range matches Ok((iter, meta)) && iter@ == query->Ok_0@ && meta is None
            &&& page matches Ok((iter, meta)) && iter@ == query->Ok_0@ && meta.bookmark@.len() == 0
                && meta.fetched_records_count == 0
        },
        response.metadata@.len() > 0 && is_read_as(response.metadata@, said) ==> {
            &&& range matches Ok((iter, Some(meta))) && iter@ == query->Ok_0@ && meta.bookmark@
                == said.bookmark@ && meta.fetched_records_count == said.fetched_records_count
            &&& page matches Ok((iter, meta)) && iter@ == query->Ok_0@ && meta.bookmark@
                == said.bookmark@ && meta.fetched_records_count == said.fetched_records_count
        },
        response.metadata@.len() > 0 && !can_be_read::<QueryResponseMetadata>(response.metadata@)
            ==> range is Err && page is Err,
{
    if response.metadata@.len() > 0 && is_read_as(response.metadata@, said) {
        let meta = range->Ok_0.1->0;
        assert(meta.record()[0] == said.record()[0] && meta.record()[1] == said.record()[1]);
        let other = page->Ok_0.1;
        assert(other.record()[0] == said.record()[0] && other.record()[1] == said.record()[1]);
    }
}

/// The caller of another chaincode gets the response that its last message completes
/// with, and a failure where that is an error, is anything else, or cannot be read.
pub proof fn callers_get_what_the_callee_ended_with(
    reply: ChaincodeMessage,
    last: ChaincodeMessage,
    response: proto::Response,
    given: Result<Response>,
)
    requires
        call_ensures(invoke_reply, (&reply,), given),
    ensures
        !can_be_read::<ChaincodeMessage>(reply.payload@) ==> given is Err,
        is_read_as(reply.payload@, last) ==> {
            &&& last.kind() == MsgType::Completed && is_read_as(last.payload@, response) ==> (
            given matches Ok(r) && r.status == response.status && r.message@ == response.message@
                && r.payload@ == response.payload@)
            &&& last.kind() == MsgType::Completed && !can_be_read::<proto::Response>(last.payload@)
                ==> (given matches Err(e) && (e@ matches ErrorView::Decode(_)))
            &&& last.kind() == MsgType::Error ==> (given matches Err(e) && e@ == ErrorView::Peer(
                text::lossy(last.payload@),
            ))
            &&& last.kind() != MsgType::Completed && last.kind() != MsgType::Error ==> (
            given matches Err(e) && e@ == ErrorView::Protocol(
                "unexpected nested message type "@ + last.kind().spelled()
                    + " from invoked chaincode"@,
            ))
        },
{
    responses_have_the_fields_of_the_message(response);
}

// ---- composite keys --------------------------------------------------------
/// A composite key that was created splits back into its object type and attributes.
pub proof fn created_keys_are_split_back(
    object_type: &str,
    attributes: &[&str],
    created: Result<String>,
    key: &str,
    split: Result<(String, Vec<String>)>,
)
    requires
        call_ensures(create_composite_key, (object_type, attributes), created),
        created matches Ok(made) ==> key@ == made@,
        call_ensures(crate::composite_key::split_composite_key, (key,), split),
    ensures
        created is Ok ==> (split matches Ok((t, a)) && t@ == object_type@ && a.deep_view().len()
            == attributes@.len() && forall|i: int|
            0 <= i < attributes@.len() ==> (#[trigger] a.deep_view()[i]) == attributes@[i]@),
{
    if created is Ok {
        split_inverts_create(object_type@, texts(attributes@));
    }
}

/// The keys that a stub creates and splits are those of the library.
pub proof fn stubs_make_composite_keys(
    stub: ChaincodeStub,
    object_type: &str,
    attributes: &[&str],
    by_stub: Result<String>,
    by_hand: Result<String>,
    key: &str,
    split: Result<(String, Vec<String>)>,
    split_by_hand: Result<(String, Vec<String>)>,
    component: &str,
    valid: Result<()>,
)
    requires
        call_ensures(
            ChaincodeStub::create_composite_key,
            (&stub, object_type, attributes),
            by_stub,
        ),
        call_ensures(create_composite_key, (object_type, attributes), by_hand),
        call_ensures(ChaincodeStub::split_composite_key, (&stub, key), split),
        call_ensures(split_composite_key, (key,), split_by_hand),
        call_ensures(validate_composite_component, (component,), valid),
    ensures
        by_stub is Ok <==> by_hand is Ok,
        by_stub matches Ok(made) ==> made@ == by_hand->Ok_0@ && made@.len() > 0 && made@[0]
            == '\u{0}' && made@.last() == '\u{0}',
        by_stub matches Err(e) ==> e@ == by_hand->Err_0@,
        split is Ok <==> split_by_hand is Ok,
        split matches Ok((t, a)) ==> t@ == split_by_hand->Ok_0.0@ && a.deep_view()
            == split_by_hand->Ok_0.1.deep_view(),
        split matches Err(e) ==> e@ == split_by_hand->Err_0@,
        valid is Ok <==> component@.len() > 0 && !component@.contains('\u{0}')
            && !component@.contains('\u{10FFFF}'),
        valid matches Err(e) ==> (e@ matches ErrorView::InvalidArgument(_)),
        by_stub is Ok ==> object_type@.len() > 0 && !object_type@.contains('\u{0}')
            && !object_type@.contains('\u{10FFFF}'),
{
    components_are_refused_for_a_reason(component@);
    components_are_refused_for_a_reason(object_type@);
    if by_stub is Ok {
        let all = seq![object_type@] + texts(attributes@);
        assert(all.len() > 0);
        if component_fault(object_type@) is Some {
            assert(all[0] == object_type@);
            the_first_faulty_component_is_told(all, 0);
        }
        let made = by_stub->Ok_0@;
        assert(terminated(all).last() == '\u{0}');
        assert(made.last() == terminated(all).last());
    }
}

/// A collection is needed, and any text but the empty one is one.
pub proof fn collections_have_a_name(collection: &str, checked: Result<()>)
    requires
        call_ensures(require_collection, (collection,), checked),
    ensures
        checked is Ok <==> collection@.len() > 0,
        checked matches Err(e) ==> e@ == ErrorView::InvalidArgument(
            "collection must not be empty"@,
        ),
{
}

} // verus!

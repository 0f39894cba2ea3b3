//! The ledger requests of a transaction, and what the peer's replies to them mean.

use vstd::prelude::*;

use crate::bytes_map::BytesMap;
use crate::codec::{decoded, encoded, Datum, Message};
use crate::composite_key;
use crate::error::{DecodeErrorView, Error, ErrorView, Result};
use crate::fields::{decode, encode};
use crate::iterators::{page_of, read_page, HistoryQueryIterator, LedgerRequest, PageView};
use crate::iterators::{QueryView, StateQueryIterator};
use crate::codec_laws::{decode_inverts_encode, record_reads_back};
use crate::layout::{fields, Layout};
use crate::message_type::MsgType;
use crate::proto;
use crate::proto::{ChaincodeId, ChaincodeInput, ChaincodeMessage, ChaincodeSpec, DelState};
use crate::proto::{GetHistoryForKey, GetQueryResult, GetState, GetStateByRange};
use crate::proto::{PurgePrivateState, PutState, QueryMetadata, QueryResponseMetadata};
use crate::response::{Response, ResponseView};
use crate::stub::ChaincodeStub;
use crate::text;

verus! {

/// The payload that names a key of a collection; of the world state where the
/// collection is empty.
pub open spec fn key_payload(layout: Layout, key: Seq<char>, collection: Seq<char>) -> Seq<u8> {
    encoded(layout, seq![Datum::Text(key), Datum::Text(collection)])
}

/// The payload that sets the value of a key.
pub open spec fn put_payload(key: Seq<char>, value: Seq<u8>, collection: Seq<char>) -> Seq<u8> {
    encoded(
        Layout::PutState,
        seq![Datum::Text(key), Datum::Bytes(value), Datum::Text(collection)],
    )
}

/// The payload that asks for a range of keys.
pub open spec fn range_payload(
    start_key: Seq<char>,
    end_key: Seq<char>,
    collection: Seq<char>,
    metadata: Seq<u8>,
) -> Seq<u8> {
    encoded(
        Layout::GetStateByRange,
        seq![
            Datum::Text(start_key),
            Datum::Text(end_key),
            Datum::Text(collection),
            Datum::Bytes(metadata),
        ],
    )
}

/// The payload that asks for a page of a query.
pub open spec fn page_payload(page_size: i32, bookmark: Seq<char>) -> Seq<u8> {
    encoded(Layout::QueryMetadata, seq![Datum::Int(page_size as int), Datum::Text(bookmark)])
}

/// The name by which another chaincode is called: on a channel of its own where
/// one is given.
pub open spec fn callee(chaincode_name: Seq<char>, channel: Seq<char>) -> Seq<char> {
    if channel.len() == 0 {
        chaincode_name
    } else {
        chaincode_name + "/"@ + channel
    }
}

/// The payload that calls another chaincode.
pub open spec fn invoke_payload(
    chaincode_name: Seq<char>,
    args: Seq<Seq<u8>>,
    channel: Seq<char>,
) -> Seq<u8> {
    encoded(
        Layout::ChaincodeSpec,
        seq![
            Datum::Int(0),
            Datum::Message(
                Some(
                    seq![
                        Datum::Text(seq![]),
                        Datum::Text(callee(chaincode_name, channel)),
                        Datum::Text(seq![]),
                    ],
                ),
            ),
            Datum::Message(
                Some(seq![Datum::ManyBytes(args), Datum::Entries(seq![]), Datum::Int(0)]),
            ),
            Datum::Int(0),
        ],
    )
}

/// The payload that asks a rich query of the world state.
pub open spec fn query_payload(query: Seq<char>) -> Seq<u8> {
    encoded(
        Layout::GetQueryResult,
        seq![Datum::Text(query), Datum::Text(seq![]), Datum::Bytes(seq![])],
    )
}

/// The payload that asks for the history of a key.
pub open spec fn history_payload(key: Seq<char>) -> Seq<u8> {
    encoded(Layout::GetHistoryForKey, seq![Datum::Text(key)])
}

/// Whether `r` is the given request.
pub open spec fn asks(r: LedgerRequest, msg_type: MsgType, payload: Seq<u8>) -> bool {
    r.msg_type == msg_type && r.payload@ == payload
}

/// Whether `r` is the given request, unless the collection is empty.
pub open spec fn asks_privately(
    r: Result<LedgerRequest>,
    collection: Seq<char>,
    msg_type: MsgType,
    payload: Seq<u8>,
) -> bool {
    if collection.len() == 0 {
        r matches Err(e) && e@ == ErrorView::InvalidArgument("collection must not be empty"@)
    } else {
        r matches Ok(request) && asks(request, msg_type, payload)
    }
}

/// Fails on an empty collection.
pub fn require_collection(collection: &str) -> (r: Result<()>)
    ensures
        if collection@.len() == 0 {
            r matches Err(e) && e@ == ErrorView::InvalidArgument("collection must not be empty"@)
        } else {
            r is Ok
        },
{
    if collection.is_empty() {
        return Err(Error::InvalidArgument("collection must not be empty".to_owned()));
    }
    Ok(())
}

fn get_data(msg_type: MsgType, key: &str, collection: &str) -> (r: LedgerRequest)
    ensures
        asks(r, msg_type, key_payload(Layout::GetState, key@, collection@)),
{
    let message = GetState { key: key.to_owned(), collection: collection.to_owned() };
    assert(message.record() =~= seq![Datum::Text(key@), Datum::Text(collection@)]);
    LedgerRequest { msg_type, payload: encode(&message) }
}

fn put_data(collection: &str, key: &str, value: Vec<u8>) -> (r: Result<LedgerRequest>)
    ensures
        if key@.len() == 0 {
            r matches Err(e) && e@ == ErrorView::InvalidArgument("key must not be empty"@)
        } else {
            r matches Ok(request) && asks(
                request,
                MsgType::PutState,
                put_payload(key@, value@, collection@),
            )
        },
{
    if key.is_empty() {
        return Err(Error::InvalidArgument("key must not be empty".to_owned()));
    }
    let message = PutState { key: key.to_owned(), value, collection: collection.to_owned() };
    assert(message.record() =~= seq![
        Datum::Text(key@),
        Datum::Bytes(value@),
        Datum::Text(collection@),
    ]);
    Ok(LedgerRequest { msg_type: MsgType::PutState, payload: encode(&message) })
}

fn del_data(collection: &str, key: &str) -> (r: LedgerRequest)
    ensures
        asks(r, MsgType::DelState, key_payload(Layout::DelState, key@, collection@)),
{
    let message = DelState { key: key.to_owned(), collection: collection.to_owned() };
    assert(message.record() =~= seq![Datum::Text(key@), Datum::Text(collection@)]);
    LedgerRequest { msg_type: MsgType::DelState, payload: encode(&message) }
}

fn range_query(
    collection: &str,
    start_key: &str,
    end_key: &str,
    metadata: Option<QueryMetadata>,
) -> (r: LedgerRequest)
    ensures
        asks(
            r,
            MsgType::GetStateByRange,
            range_payload(
                start_key@,
                end_key@,
                collection@,
                match metadata {
                    None => seq![],
                    Some(m) => page_payload(m.page_size, m.bookmark@),
                },
            ),
        ),
{
    let metadata: Vec<u8> = match metadata {
        None => Vec::new(),
        Some(m) => {
            assert(m.record() =~= seq![Datum::Int(m.page_size as int), Datum::Text(m.bookmark@)]);
            encode(&m)
        },
    };
    let message = GetStateByRange {
        start_key: start_key.to_owned(),
        end_key: end_key.to_owned(),
        collection: collection.to_owned(),
        metadata,
    };
    assert(message.record() =~= seq![
        Datum::Text(start_key@),
        Datum::Text(end_key@),
        Datum::Text(collection@),
        Datum::Bytes(metadata@),
    ]);
    LedgerRequest { msg_type: MsgType::GetStateByRange, payload: encode(&message) }
}

impl ChaincodeStub {
    // ---- world state -------------------------------------------------------
    /// Asks for the value of `key` in the world state; the reply is empty if the
    /// key does not exist.
    pub fn get_state(&self, key: &str) -> (r: LedgerRequest)
        ensures
            asks(r, MsgType::GetState, key_payload(Layout::GetState, key@, seq![])),
    {
        proof {
            reveal_strlit("");
            assert(""@ =~= seq![]);
        }
        get_data(MsgType::GetState, key, "")
    }

    /// Sets the value of `key`, which must not be empty.
    pub fn put_state(&self, key: &str, value: Vec<u8>) -> (r: Result<LedgerRequest>)
        ensures
            if key@.len() == 0 {
                r matches Err(e) && e@ == ErrorView::InvalidArgument("key must not be empty"@)
            } else {
                r matches Ok(request) && asks(
                    request,
                    MsgType::PutState,
                    put_payload(key@, value@, seq![]),
                )
            },
    {
        proof {
            reveal_strlit("");
            assert(""@ =~= seq![]);
        }
        put_data("", key, value)
    }

    /// Deletes `key`.
    pub fn del_state(&self, key: &str) -> (r: LedgerRequest)
        ensures
            asks(r, MsgType::DelState, key_payload(Layout::DelState, key@, seq![])),
    {
        proof {
            reveal_strlit("");
            assert(""@ =~= seq![]);
        }
        del_data("", key)
    }

    /// Range query from `start_key` up to but not including `end_key`; empty
    /// strings mean unbounded.
    pub fn get_state_by_range(&self, start_key: &str, end_key: &str) -> (r: LedgerRequest)
        ensures
            asks(
                r,
                MsgType::GetStateByRange,
                range_payload(start_key@, end_key@, seq![], seq![]),
            ),
    {
        proof {
            reveal_strlit("");
            assert(""@ =~= seq![]);
        }
        range_query("", start_key, end_key, None)
    }

    /// Paginated range query. Only valid in read-only transactions.
    pub fn get_state_by_range_with_pagination(
        &self,
        start_key: &str,
        end_key: &str,
        page_size: i32,
        bookmark: &str,
    ) -> (r: LedgerRequest)
        ensures
            asks(
                r,
                MsgType::GetStateByRange,
                range_payload(start_key@, end_key@, seq![], page_payload(page_size, bookmark@)),
            ),
    {
        proof {
            reveal_strlit("");
            assert(""@ =~= seq![]);
        }
        let meta = QueryMetadata { page_size, bookmark: bookmark.to_owned() };
        range_query("", start_key, end_key, Some(meta))
    }

    /// Rich query.
    pub fn get_query_result(&self, query: &str) -> (r: LedgerRequest)
        ensures
            asks(r, MsgType::GetQueryResult, query_payload(query@)),
    {
        let message = GetQueryResult {
            query: query.to_owned(),
            collection: String::new(),
            metadata: Vec::new(),
        };
        assert(message.record() =~= seq![
            Datum::Text(query@),
            Datum::Text(seq![]),
            Datum::Bytes(seq![]),
        ]);
        LedgerRequest { msg_type: MsgType::GetQueryResult, payload: encode(&message) }
    }

    /// History of the values of `key` across blocks.
    pub fn get_history_for_key(&self, key: &str) -> (r: LedgerRequest)
        ensures
            asks(r, MsgType::GetHistoryForKey, history_payload(key@)),
    {
        let message = GetHistoryForKey { key: key.to_owned() };
        assert(message.record() =~= seq![Datum::Text(key@)]);
        LedgerRequest { msg_type: MsgType::GetHistoryForKey, payload: encode(&message) }
    }

    /// Range query over the composite keys that start with the given components.
    pub fn get_state_by_partial_composite_key(&self, object_type: &str, attributes: &[&str]) -> (r:
        Result<LedgerRequest>)
        ensures
            match composite_key::first_fault(
                seq![object_type@] + composite_key::texts(attributes@),
            ) {
                Some(fault) => r matches Err(e) && e@ == ErrorView::InvalidArgument(fault),
                None => {
                    let prefix = composite_key::composite_key(
                        object_type@,
                        composite_key::texts(attributes@),
                    );
                    r matches Ok(request) && asks(
                        request,
                        MsgType::GetStateByRange,
                        range_payload(
                            prefix,
                            prefix.push(composite_key::MAX_UNICODE_RUNE),
                            seq![],
                            seq![],
                        ),
                    )
                },
            },
    {
        let prefix = match composite_key::create_composite_key(object_type, attributes) {
            Ok(prefix) => prefix,
            Err(e) => return Err(e),
        };
        let mut end = prefix.clone();
        end.push(composite_key::MAX_UNICODE_RUNE);
        Ok(self.get_state_by_range(prefix.as_str(), end.as_str()))
    }

    // ---- private data ------------------------------------------------------
    /// Asks for the value of `key` in a private collection.
    pub fn get_private_data(&self, collection: &str, key: &str) -> (r: Result<LedgerRequest>)
        ensures
            asks_privately(
                r,
                collection@,
                MsgType::GetState,
                key_payload(Layout::GetState, key@, collection@),
            ),
    {
        match require_collection(collection) {
            Ok(()) => Ok(get_data(MsgType::GetState, key, collection)),
            Err(e) => Err(e),
        }
    }

    /// Asks for the hash of a private value, which any organisation may do.
    pub fn get_private_data_hash(&self, collection: &str, key: &str) -> (r: Result<LedgerRequest>)
        ensures
            asks_privately(
                r,
                collection@,
                MsgType::GetPrivateDataHash,
                key_payload(Layout::GetState, key@, collection@),
            ),
    {
        match require_collection(collection) {
            Ok(()) => Ok(get_data(MsgType::GetPrivateDataHash, key, collection)),
            Err(e) => Err(e),
        }
    }

    /// Sets the value of `key` in a private collection.
    pub fn put_private_data(&self, collection: &str, key: &str, value: Vec<u8>) -> (r: Result<
        LedgerRequest,
    >)
        ensures
            if collection@.len() > 0 && key@.len() == 0 {
                r matches Err(e) && e@ == ErrorView::InvalidArgument("key must not be empty"@)
            } else {
                asks_privately(
                    r,
                    collection@,
                    MsgType::PutState,
                    put_payload(key@, value@, collection@),
                )
            },
    {
        match require_collection(collection) {
            Ok(()) => put_data(collection, key, value),
            Err(e) => Err(e),
        }
    }

    /// Deletes `key` in a private collection.
    pub fn del_private_data(&self, collection: &str, key: &str) -> (r: Result<LedgerRequest>)
        ensures
            asks_privately(
                r,
                collection@,
                MsgType::DelState,
                key_payload(Layout::DelState, key@, collection@),
            ),
    {
        match require_collection(collection) {
            Ok(()) => Ok(del_data(collection, key)),
            Err(e) => Err(e),
        }
    }

    /// Purges `key` of a private collection.
    pub fn purge_private_data(&self, collection: &str, key: &str) -> (r: Result<LedgerRequest>)
        ensures
            asks_privately(
                r,
                collection@,
                MsgType::PurgePrivateData,
                key_payload(Layout::PurgePrivateState, key@, collection@),
            ),
    {
        match require_collection(collection) {
            Ok(()) => {},
            Err(e) => return Err(e),
        }
        let message = PurgePrivateState { key: key.to_owned(), collection: collection.to_owned() };
        assert(message.record() =~= seq![Datum::Text(key@), Datum::Text(collection@)]);
        Ok(LedgerRequest { msg_type: MsgType::PurgePrivateData, payload: encode(&message) })
    }

    /// Range query over a private collection.
    pub fn get_private_data_by_range(&self, collection: &str, start_key: &str, end_key: &str) -> (r:
        Result<LedgerRequest>)
        ensures
            asks_privately(
                r,
                collection@,
                MsgType::GetStateByRange,
                range_payload(start_key@, end_key@, collection@, seq![]),
            ),
    {
        match require_collection(collection) {
            Ok(()) => Ok(range_query(collection, start_key, end_key, None)),
            Err(e) => Err(e),
        }
    }

    // ---- chaincode to chaincode --------------------------------------------
    /// Invokes another chaincode on this peer. Calls on the same channel join this
    /// transaction's read and write set; calls on another are read-only.
    pub fn invoke_chaincode(&self, chaincode_name: &str, args: Vec<Vec<u8>>, channel: &str) -> (r:
        LedgerRequest)
        ensures
            asks(
                r,
                MsgType::InvokeChaincode,
                invoke_payload(chaincode_name@, args.deep_view(), channel@),
            ),
    {
        let name = if channel.is_empty() {
            chaincode_name.to_owned()
        } else {
            text::triple(chaincode_name, "/", channel)
        };
        let chaincode_id = ChaincodeId { path: String::new(), name, version: String::new() };
        let input = ChaincodeInput { args, decorations: BytesMap::new(), is_init: false };
        let message = ChaincodeSpec {
            type_code: 0,
            chaincode_id: Some(chaincode_id),
            input: Some(input),
            timeout: 0,
        };
        proof {
            let id = seq![
                Datum::Text(seq![]),
                Datum::Text(callee(chaincode_name@, channel@)),
                Datum::Text(seq![]),
            ];
            let given = seq![
                Datum::ManyBytes(args.deep_view()),
                Datum::Entries(seq![]),
                Datum::Int(0),
            ];
            assert(chaincode_id.record() =~= id);
            assert(input.record() =~= given);
            assert(message.record() =~= seq![
                Datum::Int(0),
                Datum::Message(Some(id)),
                Datum::Message(Some(given)),
                Datum::Int(0),
            ]);
        }
        LedgerRequest { msg_type: MsgType::InvokeChaincode, payload: encode(&message) }
    }
}

// ---- replies ---------------------------------------------------------------
/// The value in the reply to a request for one.
pub fn value_reply(reply: ChaincodeMessage) -> (r: Vec<u8>)
    ensures
        r == reply.payload,
{
    reply.payload
}

/// The iterator over the query that the reply to a rich query opens.
pub fn query_reply(reply: &ChaincodeMessage) -> (r: Result<StateQueryIterator>)
    ensures
        match page_of(reply.payload@) {
            Ok(page) => r matches Ok(iter) && iter@ == QueryView::opened(page),
            Err(e) => r matches Err(error) && error@ == ErrorView::Decode(e),
        },
{
    match read_page(reply.payload.as_slice()) {
        Ok(resp) => Ok(StateQueryIterator::new(resp)),
        Err(e) => Err(e),
    }
}

/// The iterator over the query that the reply to a request for a key's history
/// opens.
pub fn history_reply(reply: &ChaincodeMessage) -> (r: Result<HistoryQueryIterator>)
    ensures
        match page_of(reply.payload@) {
            Ok(page) => r matches Ok(iter) && iter@ == QueryView::opened(page),
            Err(e) => r matches Err(error) && error@ == ErrorView::Decode(e),
        },
{
    match read_page(reply.payload.as_slice()) {
        Ok(resp) => Ok(HistoryQueryIterator::new(resp)),
        Err(e) => Err(e),
    }
}

/// What the reply to a range query says: the query that it opens and, where there
/// is any, the record of the metadata.
pub open spec fn range_of(payload: Seq<u8>) -> std::result::Result<
    (PageView, Option<Seq<Datum>>),
    DecodeErrorView,
> {
    match page_of(payload) {
        Err(e) => Err(e),
        Ok(page) => if page.metadata.len() == 0 {
            Ok((page, None))
        } else {
            match decoded(Layout::QueryResponseMetadata, page.metadata) {
                Err(e) => Err(e),
                Ok(metadata) => Ok((page, Some(metadata))),
            }
        },
    }
}

/// The iterator over the query that the reply to a range query opens, and the
/// metadata of the reply.
pub fn range_reply(reply: &ChaincodeMessage) -> (r: Result<
    (StateQueryIterator, Option<QueryResponseMetadata>),
>)
    ensures
        match range_of(reply.payload@) {
            Ok((page, metadata)) => {
                &&& r matches Ok((iter, meta))
                &&& iter@ == QueryView::opened(page)
                &&& match metadata {
                    Some(record) => meta matches Some(m) && m.record() == record,
                    None => meta is None,
                }
            },
            Err(e) => r matches Err(error) && error@ == ErrorView::Decode(e),
        },
{
    let resp = match read_page(reply.payload.as_slice()) {
        Ok(resp) => resp,
        Err(e) => return Err(e),
    };
    if resp.metadata.len() == 0 {
        return Ok((StateQueryIterator::new(resp), None));
    }
    match decode::<QueryResponseMetadata>(resp.metadata.as_slice()) {
        Ok(meta) => Ok((StateQueryIterator::new(resp), Some(meta))),
        Err(e) => Err(Error::Decode(e)),
    }
}

/// Like [`range_reply`] for a paginated query: metadata that is missing counts as
/// blank.
pub fn page_reply(reply: &ChaincodeMessage) -> (r: Result<
    (StateQueryIterator, QueryResponseMetadata),
>)
    ensures
        match range_of(reply.payload@) {
            Ok((page, metadata)) => {
                &&& r matches Ok((iter, meta))
                &&& iter@ == QueryView::opened(page)
                &&& match metadata {
                    Some(record) => meta.record() == record,
                    None => meta.fetched_records_count == 0 && meta.bookmark@.len() == 0,
                }
            },
            Err(e) => r matches Err(error) && error@ == ErrorView::Decode(e),
        },
{
    match range_reply(reply) {
        Err(e) => Err(e),
        Ok((iter, Some(meta))) => Ok((iter, meta)),
        Ok((iter, None)) => Ok(
            (iter, QueryResponseMetadata { fetched_records_count: 0, bookmark: String::new() }),
        ),
    }
}

/// The response in its record.
pub open spec fn record_response(record: Seq<Datum>) -> ResponseView {
    ResponseView {
        status: record[0]->Int_0 as i32,
        message: record[1]->Text_0,
        payload: record[2]->Bytes_0,
    }
}

/// What the reply to a call of another chaincode says. Its payload nests the
/// callee's last message.
pub open spec fn invoked(payload: Seq<u8>) -> std::result::Result<ResponseView, ErrorView> {
    match decoded(Layout::ChaincodeMessage, payload) {
        Err(e) => Err(ErrorView::Decode(e)),
        Ok(inner) => {
            let msg_type = MsgType::numbered(inner[0]->Int_0 as i32);
            let content = inner[2]->Bytes_0;
            if msg_type == MsgType::Completed {
                match decoded(Layout::Response, content) {
                    Err(e) => Err(ErrorView::Decode(e)),
                    Ok(record) => Ok(record_response(record)),
                }
            } else if msg_type == MsgType::Error {
                Err(ErrorView::Peer(text::lossy(content)))
            } else {
                Err(
                    ErrorView::Protocol(
                        "unexpected nested message type "@ + msg_type.spelled()
                            + " from invoked chaincode"@,
                    ),
                )
            }
        },
    }
}

/// The response of another chaincode that was called.
pub fn invoke_reply(reply: &ChaincodeMessage) -> (r: Result<Response>)
    ensures
        match invoked(reply.payload@) {
            Ok(response) => r matches Ok(given) && given@ == response,
            Err(e) => r matches Err(error) && error@ == e,
        },
        match decoded(Layout::ChaincodeMessage, reply.payload@) {
            Ok(inner) => MsgType::numbered(inner[0]->Int_0 as i32) == MsgType::Error
                ==> text::lossy_keeps_text(inner[2]->Bytes_0),
            Err(_) => true,
        },
{
    let inner: ChaincodeMessage = match decode(reply.payload.as_slice()) {
        Ok(inner) => inner,
        Err(e) => return Err(Error::Decode(e)),
    };
    match inner.msg_type() {
        MsgType::Completed => match decode::<proto::Response>(inner.payload.as_slice()) {
            Ok(response) => Ok(Response::from_proto(response)),
            Err(e) => Err(Error::Decode(e)),
        },
        MsgType::Error => Err(Error::Peer(text::lossy_text(inner.payload.as_slice()))),
        other => Err(
            Error::Protocol(
                text::triple(
                    "unexpected nested message type ",
                    other.name(),
                    " from invoked chaincode",
                ),
            ),
        ),
    }
}

// ---- laws ------------------------------------------------------------------
/// The peer that decodes a request for a key finds the key and the collection that
/// were asked for.
pub proof fn key_requests_read_back(layout: Layout, key: Seq<char>, collection: Seq<char>)
    requires
        layout is GetState || layout is DelState || layout is PurgePrivateState,
        key_payload(layout, key, collection).len() <= u64::MAX,
    ensures
        decoded(layout, key_payload(layout, key, collection)) == Ok::<_, DecodeErrorView>(
            seq![Datum::Text(key), Datum::Text(collection)],
        ),
{
    reveal(fields);
    record_reads_back(layout, seq![Datum::Text(key), Datum::Text(collection)]);
}

/// The peer that decodes a request to set a key finds the key, the value and the
/// collection.
pub proof fn put_requests_read_back(key: Seq<char>, value: Seq<u8>, collection: Seq<char>)
    requires
        put_payload(key, value, collection).len() <= u64::MAX,
    ensures
        decoded(Layout::PutState, put_payload(key, value, collection)) == Ok::<_, DecodeErrorView>(
            seq![Datum::Text(key), Datum::Bytes(value), Datum::Text(collection)],
        ),
{
    reveal(fields);
    record_reads_back(
        Layout::PutState,
        seq![Datum::Text(key), Datum::Bytes(value), Datum::Text(collection)],
    );
}

/// The record of a response.
pub open spec fn response_record(response: ResponseView) -> Seq<Datum> {
    seq![
        Datum::Int(response.status as int),
        Datum::Text(response.message),
        Datum::Bytes(response.payload),
    ]
}

/// A response goes over the wire unchanged.
pub proof fn responses_read_back(response: ResponseView)
    requires
        encoded(Layout::Response, response_record(response)).len() <= u64::MAX,
    ensures
        decoded(Layout::Response, encoded(Layout::Response, response_record(response))) == Ok::<
            _,
            DecodeErrorView,
        >(response_record(response)),
        record_response(response_record(response)) == response,
{
    reveal(fields);
    record_reads_back(Layout::Response, response_record(response));
}

/// The caller of another chaincode gets the response that the callee completed
/// with.
pub proof fn callers_get_the_response_of_the_callee(last: ChaincodeMessage, response: ResponseView)
    requires
        last.kind() == MsgType::Completed,
        last.payload@ == encoded(Layout::Response, response_record(response)),
        encoded(Layout::ChaincodeMessage, last.record()).len() <= u64::MAX,
    ensures
        invoked(encoded(Layout::ChaincodeMessage, last.record())) == Ok::<_, ErrorView>(response),
{
    decode_inverts_encode(last);
    assert(last.payload@.len() == last.payload.len());
    responses_read_back(response);
}

} // verus!

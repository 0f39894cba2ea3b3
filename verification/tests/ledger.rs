//! What a transaction asks of the peer, and what the replies mean.

use fabric_shim::bytes_map::BytesMap;
use fabric_shim::codec::Message;
use fabric_shim::fields::{decode, encode};
use fabric_shim::ledger::{
    history_reply, invoke_reply, page_reply, query_reply, range_reply, require_collection,
    value_reply,
};
use fabric_shim::proto::{
    ChaincodeInput, ChaincodeMessage, ChaincodeSpec, DelState, GetHistoryForKey, GetQueryResult,
    GetState, GetStateByRange, KeyModification, Kv, PurgePrivateState, PutState, QueryMetadata,
    QueryResponse, QueryResponseMetadata, QueryResultBytes, QueryStateClose, QueryStateNext,
    Timestamp,
};
use fabric_shim::{proto, ChaincodeStub, LedgerRequest, MsgType, Step};

fn stub() -> ChaincodeStub {
    let input = ChaincodeInput { args: vec![], decorations: BytesMap::new(), is_init: false };
    ChaincodeStub::new("ch".to_string(), "tx".to_string(), input, None).unwrap()
}

fn read<M: Message>(request: &LedgerRequest, kind: MsgType) -> M {
    assert_eq!(request.msg_type, kind);
    match decode::<M>(&request.payload) {
        Ok(message) => message,
        Err(e) => panic!("{}", e.message()),
    }
}

fn reply(payload: Vec<u8>) -> ChaincodeMessage {
    let mut message = ChaincodeMessage::blank();
    message.type_code = MsgType::Response.code();
    message.payload = payload;
    message
}

#[test]
fn world_state_requests_name_their_key() {
    let stub = stub();
    let get: GetState = read(&stub.get_state("k"), MsgType::GetState);
    assert_eq!((get.key.as_str(), get.collection.as_str()), ("k", ""));
    let put: PutState = read(&stub.put_state("k", vec![1, 2]).unwrap(), MsgType::PutState);
    assert_eq!((put.key.as_str(), put.value.as_slice(), put.collection.as_str()), ("k", &[1u8, 2][..], ""));
    let del: DelState = read(&stub.del_state("k"), MsgType::DelState);
    assert_eq!((del.key.as_str(), del.collection.as_str()), ("k", ""));
    assert_eq!(
        stub.put_state("", vec![1]).unwrap_err().message(),
        "invalid argument: key must not be empty"
    );
    // Reading and deleting take any key.
    assert_eq!(stub.get_state("").payload, Vec::<u8>::new());
    assert_eq!(stub.del_state("").payload, Vec::<u8>::new());
}

#[test]
fn private_requests_name_their_collection() {
    let stub = stub();
    let get: GetState = read(&stub.get_private_data("c", "k").unwrap(), MsgType::GetState);
    assert_eq!((get.key.as_str(), get.collection.as_str()), ("k", "c"));
    let hash: GetState =
        read(&stub.get_private_data_hash("c", "k").unwrap(), MsgType::GetPrivateDataHash);
    assert_eq!((hash.key.as_str(), hash.collection.as_str()), ("k", "c"));
    let put: PutState =
        read(&stub.put_private_data("c", "k", vec![3]).unwrap(), MsgType::PutState);
    assert_eq!((put.key.as_str(), put.value.as_slice(), put.collection.as_str()), ("k", &[3u8][..], "c"));
    let del: DelState = read(&stub.del_private_data("c", "k").unwrap(), MsgType::DelState);
    assert_eq!((del.key.as_str(), del.collection.as_str()), ("k", "c"));
    let purge: PurgePrivateState =
        read(&stub.purge_private_data("c", "k").unwrap(), MsgType::PurgePrivateData);
    assert_eq!((purge.key.as_str(), purge.collection.as_str()), ("k", "c"));
    let range: GetStateByRange =
        read(&stub.get_private_data_by_range("c", "a", "b").unwrap(), MsgType::GetStateByRange);
    assert_eq!((range.start_key.as_str(), range.end_key.as_str()), ("a", "b"));
    assert_eq!((range.collection.as_str(), range.metadata.len()), ("c", 0));
}

#[test]
fn private_requests_want_a_collection() {
    let stub = stub();
    let words = "invalid argument: collection must not be empty";
    assert_eq!(stub.get_private_data("", "k").unwrap_err().message(), words);
    assert_eq!(stub.get_private_data_hash("", "k").unwrap_err().message(), words);
    assert_eq!(stub.put_private_data("", "k", vec![]).unwrap_err().message(), words);
    assert_eq!(stub.put_private_data("", "", vec![]).unwrap_err().message(), words);
    assert_eq!(stub.del_private_data("", "k").unwrap_err().message(), words);
    assert_eq!(stub.purge_private_data("", "k").unwrap_err().message(), words);
    assert_eq!(stub.get_private_data_by_range("", "a", "b").unwrap_err().message(), words);
    assert_eq!(require_collection("").unwrap_err().message(), words);
    assert!(require_collection("c").is_ok());
    assert_eq!(
        stub.put_private_data("c", "", vec![]).unwrap_err().message(),
        "invalid argument: key must not be empty"
    );
}

#[test]
fn queries_say_what_they_want() {
    let stub = stub();
    let range: GetStateByRange =
        read(&stub.get_state_by_range("a", "b"), MsgType::GetStateByRange);
    assert_eq!((range.start_key.as_str(), range.end_key.as_str()), ("a", "b"));
    assert_eq!((range.collection.as_str(), range.metadata.len()), ("", 0));

    let request = stub.get_state_by_range_with_pagination("a", "b", 10, "mark");
    let range: GetStateByRange = read(&request, MsgType::GetStateByRange);
    let meta = decode::<QueryMetadata>(&range.metadata).unwrap();
    assert_eq!((meta.page_size, meta.bookmark.as_str()), (10, "mark"));

    let query: GetQueryResult = read(&stub.get_query_result("{}"), MsgType::GetQueryResult);
    assert_eq!((query.query.as_str(), query.collection.as_str(), query.metadata.len()), ("{}", "", 0));
    let history: GetHistoryForKey =
        read(&stub.get_history_for_key("k"), MsgType::GetHistoryForKey);
    assert_eq!(history.key, "k");

    let request = stub.get_state_by_partial_composite_key("T", &["a"]).unwrap();
    let range: GetStateByRange = read(&request, MsgType::GetStateByRange);
    assert_eq!(range.start_key, "\u{0}T\u{0}a\u{0}");
    assert_eq!(range.end_key, "\u{0}T\u{0}a\u{0}\u{10FFFF}");
    assert!(stub.get_state_by_partial_composite_key("", &[]).is_err());
    assert_eq!(stub.create_composite_key("T", &["a"]).unwrap(), "\u{0}T\u{0}a\u{0}");
    assert_eq!(stub.split_composite_key("\u{0}T\u{0}").unwrap(), ("T".to_string(), vec![]));
}

#[test]
fn other_chaincode_is_called_by_name_and_channel() {
    let stub = stub();
    let request = stub.invoke_chaincode("cc", vec![b"f".to_vec(), vec![]], "");
    let spec: ChaincodeSpec = read(&request, MsgType::InvokeChaincode);
    assert_eq!(spec.chaincode_id.unwrap().name, "cc");
    assert_eq!(spec.input.unwrap().args, vec![b"f".to_vec(), vec![]]);
    assert_eq!((spec.type_code, spec.timeout), (0, 0));
    let request = stub.invoke_chaincode("cc", vec![], "other");
    let spec: ChaincodeSpec = read(&request, MsgType::InvokeChaincode);
    assert_eq!(spec.chaincode_id.unwrap().name, "cc/other");
}

fn nested(kind: MsgType, payload: Vec<u8>) -> ChaincodeMessage {
    let mut inner = ChaincodeMessage::blank();
    inner.type_code = kind.code();
    inner.payload = payload;
    reply(encode(&inner))
}

#[test]
fn the_callee_answers_with_its_response() {
    let response =
        proto::Response { status: 201, message: "m".to_string(), payload: vec![1, 2] };
    let given = invoke_reply(&nested(MsgType::Completed, encode(&response))).unwrap();
    assert_eq!((given.status, given.message.as_str()), (201, "m"));
    assert_eq!(given.payload, vec![1, 2]);
    assert_eq!(
        invoke_reply(&nested(MsgType::Error, b"denied".to_vec())).unwrap_err().message(),
        "peer error: denied"
    );
    assert_eq!(
        invoke_reply(&nested(MsgType::Ready, vec![])).unwrap_err().message(),
        "protocol error: unexpected nested message type Ready from invoked chaincode"
    );
    assert_eq!(
        invoke_reply(&nested(MsgType::Completed, vec![0x80])).unwrap_err().message(),
        "decode error: failed to decode Protobuf message: invalid varint"
    );
    assert_eq!(
        invoke_reply(&reply(vec![0x00])).unwrap_err().message(),
        "decode error: failed to decode Protobuf message: invalid tag value: 0"
    );
}

fn kv(key: &str) -> Kv {
    Kv { namespace: "cc".to_string(), key: key.to_string(), value: key.as_bytes().to_vec() }
}

fn page(keys: &[&str], has_more: bool, metadata: Vec<u8>) -> Vec<u8> {
    encode(&QueryResponse {
        results: keys
            .iter()
            .map(|k| QueryResultBytes { result_bytes: encode(&kv(k)) })
            .collect(),
        has_more,
        id: "q".to_string(),
        metadata,
    })
}

#[test]
fn values_are_the_payload_of_the_reply() {
    assert_eq!(value_reply(reply(vec![1, 2])), vec![1, 2]);
}

#[test]
fn queries_give_their_records_page_by_page() {
    let mut iter = query_reply(&reply(page(&["a", "b"], true, vec![]))).unwrap();
    assert!(matches!(iter.next(), Ok(Step::Record(k)) if k == kv("a")));
    assert!(matches!(iter.next(), Ok(Step::Record(k)) if k == kv("b")));
    let fetch = match iter.next() {
        Ok(Step::Fetch(fetch)) => fetch,
        _ => panic!("there is more to fetch"),
    };
    let next: QueryStateNext = read(&fetch, MsgType::QueryStateNext);
    assert_eq!(next.id, "q");
    // A page may be empty and still not be the last.
    iter.feed(&page(&[], true, vec![])).unwrap();
    assert!(matches!(iter.next(), Ok(Step::Fetch(_))));
    iter.feed(&page(&["c"], false, vec![])).unwrap();
    assert!(matches!(iter.next(), Ok(Step::Record(k)) if k == kv("c")));
    assert!(matches!(iter.next(), Ok(Step::Done)));
    let close: QueryStateClose = read(&iter.close().unwrap(), MsgType::QueryStateClose);
    assert_eq!(close.id, "q");
    assert!(iter.close().is_none());
}

#[test]
fn queries_ask_once_for_each_later_page() {
    let pages: [(&[&str], bool); 3] = [(&["c"], true), (&[], true), (&["d", "e"], false)];
    let mut iter = query_reply(&reply(page(&["a", "b"], true, vec![]))).unwrap();
    let mut fetches = 0;
    let mut records = Vec::new();
    loop {
        match iter.next().unwrap() {
            Step::Record(record) => records.push(record),
            Step::Fetch(fetch) => {
                let next: QueryStateNext = read(&fetch, MsgType::QueryStateNext);
                assert_eq!(next.id, "q");
                let (keys, has_more) = pages[fetches];
                iter.feed(&page(keys, has_more, vec![])).unwrap();
                fetches += 1;
            }
            Step::Done => break,
        }
    }
    assert_eq!(fetches, 3);
    assert_eq!(records, ["a", "b", "c", "d", "e"].map(kv));
    for _ in 0..3 {
        assert!(matches!(iter.next(), Ok(Step::Done)));
    }
}

#[test]
fn closed_queries_ask_for_nothing() {
    let mut iter = query_reply(&reply(page(&["a"], true, vec![]))).unwrap();
    assert!(iter.close().is_some());
    assert!(matches!(iter.next(), Ok(Step::Record(_))));
    assert!(matches!(iter.next(), Ok(Step::Done)));
}

#[test]
fn remaining_records_are_collected() {
    let mut iter = query_reply(&reply(page(&["a", "b"], true, vec![]))).unwrap();
    let mut out = vec![kv("z")];
    let fetch = iter.collect_remaining(&mut out).unwrap().unwrap();
    assert_eq!(fetch.msg_type, MsgType::QueryStateNext);
    iter.feed(&page(&["c"], false, vec![])).unwrap();
    assert!(iter.collect_remaining(&mut out).unwrap().is_none());
    assert_eq!(out, vec![kv("z"), kv("a"), kv("b"), kv("c")]);
}

#[test]
fn records_that_cannot_be_decoded_are_reported() {
    let bad = QueryResponse {
        results: vec![
            QueryResultBytes { result_bytes: encode(&kv("a")) },
            QueryResultBytes { result_bytes: vec![0x0f] },
            QueryResultBytes { result_bytes: encode(&kv("c")) },
        ],
        has_more: false,
        id: "q".to_string(),
        metadata: vec![],
    };
    let words = "decode error: failed to decode Protobuf message: invalid wire type value: 7";
    let mut iter = query_reply(&reply(encode(&bad))).unwrap();
    let mut out = Vec::new();
    assert_eq!(iter.collect_remaining(&mut out).unwrap_err().message(), words);
    assert_eq!(out, vec![kv("a")]);
    // The faulty record is gone; what stands behind it can still be had.
    assert!(matches!(iter.next(), Ok(Step::Record(k)) if k == kv("c")));
    assert!(iter.feed(&[0x0f]).is_err());
    assert!(matches!(iter.next(), Ok(Step::Done)));
    assert_eq!(query_reply(&reply(vec![0x0f])).err().unwrap().message(), words);
}

#[test]
fn histories_give_the_changes_of_a_key() {
    let change = KeyModification {
        tx_id: "t1".to_string(),
        value: b"v".to_vec(),
        timestamp: Some(Timestamp { seconds: 5, nanos: 0 }),
        is_delete: false,
    };
    let opened = QueryResponse {
        results: vec![QueryResultBytes { result_bytes: encode(&change) }],
        has_more: true,
        id: "h".to_string(),
        metadata: vec![],
    };
    let mut iter = history_reply(&reply(encode(&opened))).unwrap();
    assert!(matches!(iter.next(), Ok(Step::Record(c)) if c == change));
    assert!(matches!(iter.next(), Ok(Step::Fetch(_))));
    let last = QueryResponse { results: vec![], has_more: false, ..opened };
    iter.feed(&encode(&last)).unwrap();
    assert!(matches!(iter.next(), Ok(Step::Done)));
    assert_eq!(iter.close().unwrap().msg_type, MsgType::QueryStateClose);
    assert!(iter.close().is_none());
    assert!(history_reply(&reply(vec![0x0f])).is_err());
}

#[test]
fn pages_come_with_their_metadata() {
    let meta = QueryResponseMetadata { fetched_records_count: 1, bookmark: "m".to_string() };
    let (_, given) = range_reply(&reply(page(&["a"], false, encode(&meta)))).unwrap();
    assert_eq!(given, Some(meta.clone()));
    let (_, given) = page_reply(&reply(page(&["a"], false, encode(&meta)))).unwrap();
    assert_eq!(given, meta);
    let (_, given) = range_reply(&reply(page(&["a"], false, vec![]))).unwrap();
    assert_eq!(given, None);
    let (_, given) = page_reply(&reply(page(&["a"], false, vec![]))).unwrap();
    assert_eq!((given.fetched_records_count, given.bookmark.as_str()), (0, ""));
    assert!(range_reply(&reply(page(&["a"], false, vec![0x0f]))).is_err());
    assert!(page_reply(&reply(page(&["a"], false, vec![0x0f]))).is_err());
    assert!(range_reply(&reply(vec![0x0f])).is_err());
}

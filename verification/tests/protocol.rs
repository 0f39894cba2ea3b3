//! The handshake, the routing of replies, and the life of a transaction.

use fabric_shim::bytes_map::BytesMap;
use fabric_shim::codec::Message;
use fabric_shim::fields::{decode, encode};
use fabric_shim::handler::{
    completed_message, interpret_reply, message_at, metadata_panicked, metadata_reply,
    metadata_response, new_message, on_message, outcome_response, register_message, start_transaction, timestamp_of, Action,
    ConnState, Course, PeerLink,
};
use fabric_shim::pending::{Pending, TxKey};
use fabric_shim::proto::{
    ChaincodeEvent, ChaincodeId, ChaincodeInput, ChaincodeMessage, SignedProposal, Timestamp,
};
use fabric_shim::{proto, Error, MsgType, Response, ERROR, ERROR_THRESHOLD, OK};

fn message(ty: MsgType, payload: &[u8], channel: &str, txid: &str) -> ChaincodeMessage {
    let mut message = ChaincodeMessage::blank();
    message.type_code = ty.code();
    message.payload = payload.to_vec();
    message.channel_id = channel.to_string();
    message.txid = txid.to_string();
    message
}

const KINDS: [MsgType; 25] = [
    MsgType::Undefined,
    MsgType::Register,
    MsgType::Registered,
    MsgType::Init,
    MsgType::Ready,
    MsgType::Transaction,
    MsgType::Completed,
    MsgType::Error,
    MsgType::GetState,
    MsgType::PutState,
    MsgType::DelState,
    MsgType::InvokeChaincode,
    MsgType::Response,
    MsgType::GetStateByRange,
    MsgType::GetQueryResult,
    MsgType::QueryStateNext,
    MsgType::QueryStateClose,
    MsgType::Keepalive,
    MsgType::GetHistoryForKey,
    MsgType::GetStateMetadata,
    MsgType::PutStateMetadata,
    MsgType::GetPrivateDataHash,
    MsgType::PurgePrivateData,
    MsgType::WriteBatchState,
    MsgType::GetStateMultiple,
];

#[test]
fn kinds_have_numbers_and_names() {
    for kind in KINDS {
        assert_eq!(MsgType::from_code(kind.code()), kind);
        assert_eq!(kind.name(), format!("{kind:?}"));
    }
    assert_eq!(MsgType::Transaction.code(), 5);
    assert_eq!(MsgType::Response.code(), 13);
    assert_eq!(MsgType::Keepalive.code(), 18);
    assert_eq!(MsgType::PurgePrivateData.code(), 23);
    for unknown in [-1, 12, 26, 1000] {
        assert_eq!(MsgType::from_code(unknown), MsgType::Undefined);
    }
}

#[test]
fn messages_carry_the_time() {
    let before = std::time::SystemTime::now();
    let sent = new_message(MsgType::Keepalive, vec![1], "ch", "tx");
    let after = std::time::SystemTime::now();
    let stamp = sent.timestamp.clone().unwrap();
    let at = std::time::UNIX_EPOCH
        + std::time::Duration::new(stamp.seconds as u64, stamp.nanos as u32);
    assert!(before <= at && at <= after);
    assert_eq!(sent.msg_type(), MsgType::Keepalive);
    assert_eq!(
        (sent.payload, sent.channel_id, sent.txid),
        (vec![1], "ch".to_string(), "tx".to_string())
    );

    assert_eq!(timestamp_of(None), Timestamp { seconds: 0, nanos: 0 });
    assert_eq!(timestamp_of(Some((5, 6))), Timestamp { seconds: 5, nanos: 6 });
    assert_eq!(timestamp_of(Some((u64::MAX, u32::MAX))), Timestamp { seconds: -1, nanos: -1 });
    let stamped =
        message_at(Timestamp { seconds: 1, nanos: 2 }, MsgType::Error, vec![], "c", "t");
    assert_eq!(stamped.timestamp, Some(Timestamp { seconds: 1, nanos: 2 }));
    assert_eq!(stamped.proposal, None);
    assert_eq!(stamped.chaincode_event, None);
}

#[test]
fn registration_names_the_package() {
    let register = register_message("cc:1");
    assert_eq!(register.msg_type(), MsgType::Register);
    assert_eq!(register.channel_id, "");
    assert_eq!(register.txid, "");
    let id = decode::<ChaincodeId>(&register.payload).unwrap();
    assert_eq!((id.path.as_str(), id.name.as_str(), id.version.as_str()), ("", "cc:1", ""));
}

#[test]
fn every_message_has_its_action_in_every_state() {
    for state in [ConnState::Created, ConnState::Established, ConnState::Ready] {
        for kind in KINDS {
            let given = message(kind, b"p", "ch", "tx");
            let (next, action) = on_message(state, given.clone());
            let expected = match (state, kind) {
                (ConnState::Created, MsgType::Registered) => ConnState::Established,
                (ConnState::Established, MsgType::Ready) => ConnState::Ready,
                _ => state,
            };
            assert_eq!(next, expected);
            match action {
                Action::Continue => assert_ne!(next, state),
                Action::Send(echo) => {
                    assert_eq!(kind, MsgType::Keepalive);
                    assert_eq!(echo.msg_type(), MsgType::Keepalive);
                    assert_eq!(echo.payload, b"");
                    assert_eq!((echo.channel_id.as_str(), echo.txid.as_str()), ("ch", "tx"));
                }
                Action::Spawn(same) => {
                    assert_eq!(state, ConnState::Ready);
                    assert!(matches!(kind, MsgType::Init | MsgType::Transaction));
                    assert_eq!(same, given);
                }
                Action::Route(same) => {
                    assert_eq!(state, ConnState::Ready);
                    assert!(matches!(kind, MsgType::Response | MsgType::Error));
                    assert_eq!(same, given);
                }
                Action::Close(report) => {
                    assert_eq!(report.msg_type(), MsgType::Error);
                    let words = format!("received {kind:?} in state {state:?}");
                    assert_eq!(report.payload, words.into_bytes());
                    assert_eq!((report.channel_id.as_str(), report.txid.as_str()), ("ch", "tx"));
                }
            }
        }
    }
    assert_eq!(ConnState::Established.name(), "Established");
}

#[test]
fn a_transaction_has_one_request_in_flight() {
    let mut link = PeerLink::new();
    let sent = link.request(MsgType::GetState, vec![1], "ch", "tx", "first").unwrap();
    assert_eq!(sent.msg_type(), MsgType::GetState);
    assert_eq!(sent.payload, vec![1]);
    let refused = link.request(MsgType::GetState, vec![2], "ch", "tx", "second").unwrap_err();
    assert!(matches!(refused, Error::Protocol(_)));
    assert_eq!(
        refused.message(),
        "protocol error: another ledger request is already in flight for tx tx"
    );
    // The same transaction id on another channel is another transaction.
    assert!(link.request(MsgType::GetState, vec![3], "other", "tx", "third").is_ok());

    let reply = message(MsgType::Response, b"v", "ch", "tx");
    assert_eq!(link.route_response(&reply), Some("first"));
    assert_eq!(link.route_response(&reply), None);
    assert!(link.request(MsgType::GetState, vec![4], "ch", "tx", "fourth").is_ok());
    let reply = message(MsgType::Response, b"v", "other", "tx");
    assert_eq!(link.route_response(&reply), Some("third"));
}

#[test]
fn requests_that_are_given_up_are_forgotten() {
    let mut link = PeerLink::new();
    link.request(MsgType::GetState, vec![], "ch", "tx", 1).unwrap();
    let error = link.send_failed("ch", "tx");
    assert_eq!(error.message(), "connection to peer closed");
    assert_eq!(link.route_response(&message(MsgType::Response, b"", "ch", "tx")), None);
    link.request(MsgType::GetState, vec![], "ch", "tx", 2).unwrap();
    link.drop_pending("ch", "tx");
    link.request(MsgType::GetState, vec![], "ch", "tx", 3).unwrap();
    let end = link.finish_transaction(Ok(Response::success_empty()), None, "ch", "tx");
    assert_eq!(end.msg_type(), MsgType::Completed);
    assert_eq!(link.route_response(&message(MsgType::Response, b"", "ch", "tx")), None);
}

#[test]
fn the_end_of_the_stream_ends_every_wait() {
    let (first, first_reply) = std::sync::mpsc::channel::<ChaincodeMessage>();
    let (second, second_reply) = std::sync::mpsc::channel();
    let mut link = PeerLink::new();
    link.request(MsgType::GetState, vec![], "ch", "tx1", first).unwrap();
    link.request(MsgType::GetState, vec![], "ch", "tx2", second).unwrap();
    link.close();
    for reply in [first_reply, second_reply] {
        // The waiter is gone, so its receiver does not block.
        let error = interpret_reply(reply.recv().ok()).unwrap_err();
        assert!(matches!(error, Error::ConnectionClosed));
    }
    assert!(link.route_response(&message(MsgType::Response, b"", "ch", "tx1")).is_none());
    assert!(link.route_response(&message(MsgType::Response, b"", "ch", "tx2")).is_none());
}

#[test]
fn waiters_are_kept_apart() {
    let mut pending = Pending::new();
    let key = |c: &str, t: &str| TxKey { channel_id: c.to_string(), tx_id: t.to_string() };
    assert!(pending.insert(key("a", "bc"), 1));
    assert!(pending.insert(key("ab", "c"), 2));
    assert!(!pending.insert(key("a", "bc"), 3));
    assert_eq!(pending.remove(&key("a", "bc")), Some(1));
    assert_eq!(pending.remove(&key("a", "bc")), None);
    assert_eq!(pending.remove(&key("ab", "c")), Some(2));
}

#[test]
fn replies_are_taken_by_their_kind() {
    let reply = message(MsgType::Response, b"v", "ch", "tx");
    assert_eq!(interpret_reply(Some(reply.clone())).unwrap(), reply);
    let refusal = message(MsgType::Error, b"no \xff", "ch", "tx");
    assert_eq!(interpret_reply(Some(refusal)).unwrap_err().message(), "peer error: no \u{FFFD}");
    let strange = message(MsgType::Ready, b"", "ch", "tx");
    assert_eq!(
        interpret_reply(Some(strange)).unwrap_err().message(),
        "protocol error: unexpected message type Ready routed as tx response"
    );
    assert!(matches!(interpret_reply(None), Err(Error::ConnectionClosed)));
}

fn transaction(args: &[&str]) -> ChaincodeMessage {
    let input = ChaincodeInput {
        args: args.iter().map(|a| a.as_bytes().to_vec()).collect(),
        decorations: BytesMap::new(),
        is_init: false,
    };
    message(MsgType::Transaction, &encode(&input), "ch", "tx")
}

#[test]
fn transactions_are_started_from_their_input() {
    let mut msg = transaction(&["f", "x"]);
    msg.type_code = MsgType::Init.code();
    let tx = start_transaction(msg).ok().unwrap();
    assert!(tx.is_init);
    assert!(!tx.wants_metadata());
    let stub = tx.into_stub().ok().unwrap();
    assert_eq!(stub.get_tx_id(), "tx");
    assert_eq!(stub.get_channel_id(), "ch");
    assert_eq!(stub.get_args(), [b"f".to_vec(), b"x".to_vec()]);
    assert_eq!(stub.get_string_args(), ["f", "x"]);
    assert_eq!(stub.get_function_and_args(), ("f".to_string(), vec!["x".to_string()]));
    assert_eq!(stub.get_creator(), b"");
    assert_eq!(stub.get_creator_identity().unwrap().mspid, "");
    assert!(stub.get_transient().is_empty());
    assert!(stub.get_decorations().is_empty());
    assert_eq!(stub.get_signed_proposal(), None);
    assert_eq!(
        stub.get_tx_timestamp().unwrap_err().message(),
        "protocol error: transaction has no timestamp (no proposal)"
    );

    let tx = start_transaction(transaction(&[])).ok().unwrap();
    assert!(!tx.is_init);
    assert!(!tx.wants_metadata());
    assert_eq!(tx.into_stub().ok().unwrap().get_function_and_args(), (String::new(), vec![]));
    let tx = start_transaction(transaction(&["org.hyperledger.fabric:GetMetadata"])).ok().unwrap();
    assert!(tx.wants_metadata());
}

#[test]
fn arguments_that_are_no_text_are_replaced() {
    let mut msg = transaction(&[]);
    let input = ChaincodeInput {
        args: vec![b"f\xff".to_vec(), b"ok".to_vec()],
        decorations: BytesMap::new(),
        is_init: false,
    };
    msg.payload = encode(&input);
    let stub = start_transaction(msg).ok().unwrap().into_stub().ok().unwrap();
    assert_eq!(stub.get_string_args(), ["f\u{FFFD}", "ok"]);
    assert_eq!(stub.get_args()[0], b"f\xff");
}

#[test]
fn input_that_cannot_be_decoded_is_reported() {
    let report = start_transaction(message(MsgType::Transaction, &[0x0f], "ch", "tx")).err();
    let report = report.unwrap();
    assert_eq!(report.msg_type(), MsgType::Error);
    assert_eq!(report.txid, "tx");
    assert_eq!(
        String::from_utf8(report.payload).unwrap(),
        "failed to decode ChaincodeInput: failed to decode Protobuf message: \
         invalid wire type value: 7"
    );
}

#[test]
fn proposals_that_cannot_be_decoded_are_reported() {
    let mut msg = transaction(&["f"]);
    msg.proposal = Some(SignedProposal { proposal_bytes: vec![0x0a, 5], signature: vec![] });
    let report = start_transaction(msg).ok().unwrap().into_stub().err().unwrap();
    assert_eq!(report.msg_type(), MsgType::Error);
    assert_eq!(
        String::from_utf8(report.payload).unwrap(),
        "failed to build stub: decode error: failed to decode Protobuf message: \
         Proposal.header: buffer underflow"
    );
}

#[test]
fn events_are_replaced_and_taken() {
    let mut stub = start_transaction(transaction(&["f"])).ok().unwrap().into_stub().ok().unwrap();
    assert_eq!(
        stub.set_event("", vec![1]).unwrap_err().message(),
        "invalid argument: event name must not be empty"
    );
    assert_eq!(stub.take_event(), None);
    stub.set_event("first", vec![1]).unwrap();
    stub.set_event("second", vec![2]).unwrap();
    let expected = ChaincodeEvent {
        chaincode_id: String::new(),
        tx_id: "tx".to_string(),
        event_name: "second".to_string(),
        payload: vec![2],
    };
    assert_eq!(stub.take_event(), Some(expected));
    assert_eq!(stub.take_event(), None);
}

fn response_in(message: &ChaincodeMessage) -> Response {
    assert_eq!(message.msg_type(), MsgType::Completed);
    Response::from_proto(decode::<proto::Response>(&message.payload).unwrap())
}

#[test]
fn completion_carries_response_and_event() {
    let event = ChaincodeEvent {
        chaincode_id: String::new(),
        tx_id: "tx".to_string(),
        event_name: "e".to_string(),
        payload: vec![7],
    };
    let given = Response { status: 404, message: "gone".to_string(), payload: vec![1, 2] };
    let end = completed_message(given.clone(), Some(event.clone()), "ch", "tx");
    assert_eq!(response_in(&end), given);
    assert_eq!(end.chaincode_event, Some(event));
    assert_eq!((end.channel_id.as_str(), end.txid.as_str()), ("ch", "tx"));
}

#[test]
fn metadata_is_answered_or_its_fault_reported() {
    assert_eq!(metadata_response(Ok(b"{}".to_vec())), Response::success(b"{}".to_vec()));
    let end = metadata_reply(Err("no luck".to_string()), "ch", "tx");
    let response = response_in(&end);
    assert!(response.is_error());
    assert_eq!(response.message, "failed to serialize metadata: no luck");
    assert_eq!(end.chaincode_event, None);
}

#[test]
fn metadata_that_panic_are_reported() {
    let end = metadata_panicked("task 1 panicked".to_string(), "ch", "tx");
    assert_eq!(end.msg_type(), MsgType::Completed);
    assert_eq!((end.channel_id.as_str(), end.txid.as_str()), ("ch", "tx"));
    let response = response_in(&end);
    assert!(response.is_error());
    assert_eq!(response.message, "chaincode handler panicked: task 1 panicked");
    assert_eq!(end.chaincode_event, None);
}

#[test]
fn requests_for_metadata_are_answered_where_there_is_any() {
    let asking = || start_transaction(transaction(&["org.hyperledger.fabric:GetMetadata"])).ok().unwrap();
    match asking().course(Some(Ok(b"{}".to_vec()))) {
        Course::Answer(end) => assert_eq!(response_in(&end), Response::success(b"{}".to_vec())),
        Course::Run(_) => panic!("the chaincode is not asked"),
    }
    match asking().course(Some(Err("no luck".to_string()))) {
        Course::Answer(end) => assert!(response_in(&end).is_error()),
        Course::Run(_) => panic!("the chaincode is not asked"),
    }
    assert!(matches!(asking().course(None), Course::Run(_)));
    // Other calls reach the chaincode, metadata or not.
    let other = start_transaction(transaction(&["f"])).ok().unwrap();
    assert!(matches!(other.course(Some(Ok(vec![]))), Course::Run(_)));
    let mut broken = transaction(&["f"]);
    broken.proposal = Some(SignedProposal { proposal_bytes: vec![0x0f], signature: vec![] });
    match start_transaction(broken).ok().unwrap().course(None) {
        Course::Answer(report) => assert_eq!(report.msg_type(), MsgType::Error),
        Course::Run(_) => panic!("the proposal cannot be decoded"),
    }
}

#[test]
fn panics_become_error_responses() {
    let response = outcome_response(Err("task 1 panicked".to_string()));
    assert_eq!(response, Response::error("chaincode handler panicked: task 1 panicked".into()));
    let given = Response::success(vec![1]);
    assert_eq!(outcome_response(Ok(given.clone())), given);
}

#[test]
fn responses_have_their_status() {
    assert_eq!((OK, ERROR_THRESHOLD, ERROR), (200, 400, 500));
    let success = Response::success(vec![1]);
    assert_eq!((success.status, success.message.as_str()), (200, ""));
    assert!(!success.is_error());
    assert_eq!(Response::success_empty(), Response::success(vec![]));
    let error = Response::error("bad".to_string());
    assert_eq!((error.status, error.message.as_str(), error.payload.len()), (500, "bad", 0));
    assert!(error.is_error());
    for (status, is_error) in [(0, false), (399, false), (400, true), (i32::MAX, true)] {
        assert_eq!(Response { status, ..Response::default() }.is_error(), is_error);
    }
    assert_eq!(Response::from(Ok(success.clone())), success);
    assert_eq!(Response::from(Err("bad".to_string())), error);
    let wire = success.clone().into_proto();
    assert_eq!((wire.status, wire.payload.as_slice()), (200, &[1u8][..]));
    assert_eq!(Response::from_proto(wire), success);
    assert_eq!(Response::default().status, 0);
}

#[test]
fn errors_are_told_in_words() {
    assert_eq!(Error::Peer("x".into()).message(), "peer error: x");
    assert_eq!(Error::Protocol("x".into()).message(), "protocol error: x");
    assert_eq!(Error::ConnectionClosed.message(), "connection to peer closed");
    assert_eq!(Error::Config("x".into()).message(), "configuration error: x");
    assert_eq!(Error::InvalidArgument("x".into()).message(), "invalid argument: x");
    assert_eq!(Error::Transport("x".into()).message(), "transport error: x");
    let fault = decode::<Timestamp>(&[0x80]).unwrap_err();
    assert_eq!(
        Error::Decode(fault).message(),
        "decode error: failed to decode Protobuf message: invalid varint"
    );
}

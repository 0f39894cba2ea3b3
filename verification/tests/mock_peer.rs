//! Drives the protocol with an in-process mock peer that keeps a ledger in memory.

use std::collections::{BTreeMap, HashMap};

use fabric_shim::bytes_map::BytesMap;
use fabric_shim::codec::Message;
use fabric_shim::contract::{ContractArg, ContractReturn, ContractSchema};
use fabric_shim::data_type::{reference_schema, register_data_type, Property};
use fabric_shim::declaration::{
    parse_contract_args, Arguments, AttrArgs, AttrDecl, GenericArg, InputDecl, MetaDecl,
    MethodDecl, Segment, TypeDecl, TypeShape,
};
use fabric_shim::dispatch::{
    conclude, describe_contract, describe_transaction, read_argument, route,
};
use fabric_shim::fields::{decode, encode};
use fabric_shim::handler::{
    interpret_reply, on_message, register_message, start_transaction, Action, ConnState, Course,
    PeerLink,
};
use fabric_shim::json::Value;
use fabric_shim::ledger::{query_reply, range_reply, value_reply};
use fabric_shim::metadata::{Contract, Metadata, Transaction};
use fabric_shim::plan::{
    contract, parameter_name, signature, transaction_name, ContractPlan, ImplDecl,
};
use fabric_shim::proto::{
    ChaincodeEvent, ChaincodeId, ChaincodeInput, ChaincodeMessage, ChaincodeProposalPayload,
    ChannelHeader, DelState, GetState, GetStateByRange, Header, Kv, Proposal, PurgePrivateState,
    PutState, QueryResponse, QueryResultBytes, QueryStateClose, QueryStateNext,
    SerializedIdentity, SignatureHeader, SignedProposal, Timestamp,
};
use fabric_shim::text_map::TextMap;
use fabric_shim::{
    create_composite_key, proto, split_composite_key, ChaincodeStub, Error, LedgerRequest, MsgType,
    Response, StateQueryIterator,
};

const CHAINCODE_ID: &str = "testcc_1.0:cafebabe";
const CHANNEL: &str = "testchannel";

type Reply = Result<ChaincodeMessage, Error>;
type Handler = fn(&mut ChaincodeStub, &mut dyn FnMut(LedgerRequest) -> Reply) -> Outcome;
/// What a handler gives back: its response, or the report of its panic.
type Outcome = Result<Response, String>;

// ---- test chaincode --------------------------------------------------------

fn drain(
    iter: &mut StateQueryIterator,
    ask: &mut dyn FnMut(LedgerRequest) -> Reply,
) -> Result<Vec<Kv>, Error> {
    let mut out = Vec::new();
    while let Some(fetch) = iter.collect_remaining(&mut out)? {
        let reply = ask(fetch)?;
        iter.feed(&reply.payload)?;
    }
    if let Some(close) = iter.close() {
        ask(close)?;
    }
    Ok(out)
}

fn keys(kvs: Vec<Kv>) -> Response {
    let keys: Vec<String> = kvs.into_iter().map(|kv| kv.key).collect();
    Response::success(keys.join(",").into_bytes())
}

fn test_kv(stub: &mut ChaincodeStub, ask: &mut dyn FnMut(LedgerRequest) -> Reply) -> Outcome {
    let (function, args) = stub.get_function_and_args();
    if function == "panic" {
        return Err("task 7 panicked with message \"intentional test panic\"".to_string());
    }
    let result = test_kv_function(stub, ask, &function, &args);
    Ok(Response::from(result.map_err(|e| e.message())))
}

fn test_kv_function(
    stub: &mut ChaincodeStub,
    ask: &mut dyn FnMut(LedgerRequest) -> Reply,
    function: &str,
    args: &[String],
) -> Result<Response, Error> {
    match function {
        "put" => {
            ask(stub.put_state(&args[0], args[1].as_bytes().to_vec())?)?;
            Ok(Response::success_empty())
        }
        "get" => Ok(Response::success(value_reply(ask(stub.get_state(&args[0]))?))),
        "del" => {
            ask(stub.del_state(&args[0]))?;
            Ok(Response::success_empty())
        }
        "range" => {
            let reply = ask(stub.get_state_by_range("", ""))?;
            let (mut iter, _) = range_reply(&reply)?;
            Ok(keys(drain(&mut iter, ask)?))
        }
        "event" => {
            stub.set_event("AssetTransferred", b"asset1".to_vec())?;
            Ok(Response::success_empty())
        }
        "put_pd" => {
            ask(stub.put_private_data(&args[0], &args[1], args[2].as_bytes().to_vec())?)?;
            Ok(Response::success_empty())
        }
        "get_pd" => {
            let reply = ask(stub.get_private_data(&args[0], &args[1])?)?;
            Ok(Response::success(value_reply(reply)))
        }
        "del_pd" => {
            ask(stub.del_private_data(&args[0], &args[1])?)?;
            Ok(Response::success_empty())
        }
        "purge_pd" => {
            ask(stub.purge_private_data(&args[0], &args[1])?)?;
            Ok(Response::success_empty())
        }
        "pd_hash" => {
            let reply = ask(stub.get_private_data_hash(&args[0], &args[1])?)?;
            Ok(Response::success(value_reply(reply)))
        }
        "pd_range" => {
            let reply = ask(stub.get_private_data_by_range(&args[0], "", "")?)?;
            let (mut iter, _) = range_reply(&reply)?;
            Ok(keys(drain(&mut iter, ask)?))
        }
        "pkey_put" => {
            let key = stub.create_composite_key(&args[0], &[args[1].as_str(), args[2].as_str()])?;
            ask(stub.put_state(&key, args[3].as_bytes().to_vec())?)?;
            Ok(Response::success_empty())
        }
        "pkey_range" => {
            let request =
                stub.get_state_by_partial_composite_key(&args[0], &[args[1].as_str()])?;
            let reply = ask(request)?;
            let mut iter = query_reply(&reply)?;
            let kvs = drain(&mut iter, ask)?;
            let mut parts = Vec::new();
            for kv in kvs {
                let (_, attrs) = stub.split_composite_key(&kv.key)?;
                parts.push(attrs.join("|"));
            }
            Ok(Response::success(parts.join(",").into_bytes()))
        }
        "transient" => Ok(Response::success(
            stub.get_transient().get("secret").cloned().unwrap_or_default(),
        )),
        "whoami" => {
            let id = stub.get_creator_identity()?;
            Ok(Response::success(id.mspid.into_bytes()))
        }
        "ts" => {
            let ts = stub.get_tx_timestamp()?;
            Ok(Response::success(ts.seconds.to_string().into_bytes()))
        }
        other => Ok(Response::error(format!("unknown function {other}"))),
    }
}

// ---- mock peer -------------------------------------------------------------

struct MockPeer {
    state: BTreeMap<String, Vec<u8>>,
    /// Private data collections: (collection, key) -> value.
    private_state: BTreeMap<(String, String), Vec<u8>>,
    /// Open iterators: id -> remaining encoded results.
    iterators: HashMap<String, Vec<Vec<u8>>>,
    next_iter: u64,
    /// Records per batch, few so that more have to be fetched.
    range_batch: usize,
    state_next_calls: usize,
    state_close_calls: usize,
    /// The kinds of the requests that were served.
    served: Vec<MsgType>,
    /// What to answer the next request with instead of serving it.
    refuse_with: Option<Vec<u8>>,
}

fn peer_message(ty: MsgType, payload: Vec<u8>, channel_id: &str, txid: &str) -> ChaincodeMessage {
    let mut message = ChaincodeMessage::blank();
    message.type_code = ty.code();
    message.payload = payload;
    message.txid = txid.to_string();
    message.channel_id = channel_id.to_string();
    message
}

fn kv_bytes(key: &str, value: &[u8]) -> Vec<u8> {
    encode(&Kv { namespace: "testcc".to_string(), key: key.to_string(), value: value.to_vec() })
}

fn read<M: Message>(payload: &[u8]) -> M {
    match decode::<M>(payload) {
        Ok(message) => message,
        Err(e) => panic!("{}", e.message()),
    }
}

impl MockPeer {
    fn new() -> Self {
        MockPeer {
            state: BTreeMap::new(),
            private_state: BTreeMap::new(),
            iterators: HashMap::new(),
            next_iter: 0,
            range_batch: 2,
            state_next_calls: 0,
            state_close_calls: 0,
            served: Vec::new(),
            refuse_with: None,
        }
    }

    /// Answers a ledger request from the store.
    fn serve_request(&mut self, msg: &ChaincodeMessage) -> ChaincodeMessage {
        self.served.push(msg.msg_type());
        if let Some(report) = self.refuse_with.take() {
            return peer_message(MsgType::Error, report, &msg.channel_id, &msg.txid);
        }
        let reply: Vec<u8> = match msg.msg_type() {
            MsgType::GetState => {
                let req: GetState = read(&msg.payload);
                if req.collection.is_empty() {
                    self.state.get(&req.key).cloned().unwrap_or_default()
                } else {
                    self.private_state
                        .get(&(req.collection, req.key))
                        .cloned()
                        .unwrap_or_default()
                }
            }
            MsgType::GetPrivateDataHash => {
                let req: GetState = read(&msg.payload);
                self.private_state.get(&(req.collection, req.key)).cloned().unwrap_or_default()
            }
            MsgType::PutState => {
                let req: PutState = read(&msg.payload);
                if req.collection.is_empty() {
                    self.state.insert(req.key, req.value);
                } else {
                    self.private_state.insert((req.collection, req.key), req.value);
                }
                Vec::new()
            }
            MsgType::DelState => {
                let req: DelState = read(&msg.payload);
                if req.collection.is_empty() {
                    self.state.remove(&req.key);
                } else {
                    self.private_state.remove(&(req.collection, req.key));
                }
                Vec::new()
            }
            MsgType::PurgePrivateData => {
                let req: PurgePrivateState = read(&msg.payload);
                self.private_state.remove(&(req.collection, req.key));
                Vec::new()
            }
            MsgType::GetStateByRange => {
                let req: GetStateByRange = read(&msg.payload);
                let in_range = |k: &str| {
                    (req.start_key.is_empty() || k >= req.start_key.as_str())
                        && (req.end_key.is_empty() || k < req.end_key.as_str())
                };
                let results: Vec<Vec<u8>> = if req.collection.is_empty() {
                    self.state
                        .iter()
                        .filter(|(k, _)| in_range(k))
                        .map(|(k, v)| kv_bytes(k, v))
                        .collect()
                } else {
                    self.private_state
                        .iter()
                        .filter(|((c, k), _)| *c == req.collection && in_range(k))
                        .map(|((_, k), v)| kv_bytes(k, v))
                        .collect()
                };
                self.next_iter += 1;
                let id = format!("iter-{}", self.next_iter);
                self.query_response(id, results)
            }
            MsgType::QueryStateNext => {
                self.state_next_calls += 1;
                let req: QueryStateNext = read(&msg.payload);
                let remaining = self.iterators.remove(&req.id).unwrap_or_default();
                self.query_response(req.id, remaining)
            }
            MsgType::QueryStateClose => {
                self.state_close_calls += 1;
                let req: QueryStateClose = read(&msg.payload);
                self.iterators.remove(&req.id);
                Vec::new()
            }
            other => panic!("mock peer cannot serve request type {other:?}"),
        };
        peer_message(MsgType::Response, reply, &msg.channel_id, &msg.txid)
    }

    /// A batch of up to `range_batch` records; the remainder is kept under the id.
    fn query_response(&mut self, id: String, mut results: Vec<Vec<u8>>) -> Vec<u8> {
        let count = results.len().min(self.range_batch);
        let batch: Vec<QueryResultBytes> = results
            .drain(..count)
            .map(|b| QueryResultBytes { result_bytes: b })
            .collect();
        let has_more = !results.is_empty();
        if has_more {
            self.iterators.insert(id.clone(), results);
        }
        encode(&QueryResponse { results: batch, has_more, id, metadata: Vec::new() })
    }
}

// ---- harness ---------------------------------------------------------------

/// A connection between the chaincode and the mock peer.
struct Connection {
    handler: Handler,
    metadata: Option<Metadata>,
    state: ConnState,
    closed: bool,
    link: PeerLink<u64>,
    peer: MockPeer,
}

impl Connection {
    /// The connection with the message that opens it, before the handshake.
    fn raw(handler: Handler) -> (Self, ChaincodeMessage) {
        let connection = Connection {
            handler,
            metadata: None,
            state: ConnState::Created,
            closed: false,
            link: PeerLink::new(),
            peer: MockPeer::new(),
        };
        (connection, register_message(CHAINCODE_ID))
    }

    /// The connection after the handshake.
    fn open(handler: Handler) -> Self {
        let (mut connection, register) = Connection::raw(handler);
        assert_eq!(register.msg_type(), MsgType::Register);
        let id: ChaincodeId = read(&register.payload);
        assert_eq!(id.name, CHAINCODE_ID);
        for ty in [MsgType::Registered, MsgType::Ready] {
            let action = connection.receive(peer_message(ty, Vec::new(), "", ""));
            assert!(matches!(action, Action::Continue));
        }
        assert_eq!(connection.state, ConnState::Ready);
        connection
    }

    fn receive(&mut self, msg: ChaincodeMessage) -> Action {
        assert!(!self.closed);
        let (state, action) = on_message(self.state, msg);
        self.state = state;
        self.closed = matches!(action, Action::Close(_));
        action
    }

    fn transaction(txid: &str, args: &[&str], proposal: Option<SignedProposal>) -> ChaincodeMessage {
        let input = ChaincodeInput {
            args: args.iter().map(|a| a.as_bytes().to_vec()).collect(),
            decorations: BytesMap::new(),
            is_init: false,
        };
        let mut msg = peer_message(MsgType::Transaction, encode(&input), CHANNEL, txid);
        msg.proposal = proposal;
        msg
    }

    /// Sends a ledger request to the peer and takes in the reply.
    fn ask(&mut self, txid: &str, request: LedgerRequest) -> Reply {
        let msg = self.link.request(request.msg_type, request.payload, CHANNEL, txid, 1)?;
        let reply = self.peer.serve_request(&msg);
        match self.receive(reply) {
            Action::Route(reply) => {
                assert_eq!(self.link.route_response(&reply), Some(1));
                interpret_reply(Some(reply))
            }
            _ => panic!("a reply must be routed"),
        }
    }

    /// Runs a transaction to its end: the message that ends it.
    fn run(&mut self, msg: ChaincodeMessage) -> ChaincodeMessage {
        let msg = match self.receive(msg) {
            Action::Spawn(msg) => msg,
            _ => panic!("a transaction must be run"),
        };
        let tx = match start_transaction(msg) {
            Ok(tx) => tx,
            Err(report) => return report,
        };
        let (channel_id, tx_id) = (tx.channel_id.clone(), tx.tx_id.clone());
        let metadata = self
            .metadata
            .as_ref()
            .map(|md| serde_json::to_vec(&metadata_json(md)).map_err(|e| e.to_string()));
        let mut stub = match tx.course(metadata) {
            Course::Run(stub) => stub,
            Course::Answer(message) => return message,
        };
        let handler = self.handler;
        let outcome = handler(&mut stub, &mut |request| self.ask(&tx_id, request));
        let event = stub.take_event();
        self.link.finish_transaction(outcome, event, &channel_id, &tx_id)
    }

    fn run_tx(&mut self, txid: &str, args: &[&str]) -> (Response, Option<ChaincodeEvent>) {
        self.run_tx_with_proposal(txid, args, None)
    }

    fn run_tx_with_proposal(
        &mut self,
        txid: &str,
        args: &[&str],
        proposal: Option<SignedProposal>,
    ) -> (Response, Option<ChaincodeEvent>) {
        let end = self.run(Connection::transaction(txid, args, proposal));
        assert_eq!(end.msg_type(), MsgType::Completed);
        assert_eq!(end.txid, txid, "COMPLETED for unexpected tx");
        (Response::from_proto(read::<proto::Response>(&end.payload)), end.chaincode_event)
    }
}

fn make_signed_proposal(
    mspid: &str,
    cert: &[u8],
    transient: BytesMap,
    ts_seconds: i64,
) -> SignedProposal {
    let creator =
        encode(&SerializedIdentity { mspid: mspid.to_string(), id_bytes: cert.to_vec() });
    let mut channel_header = ChannelHeader::blank();
    channel_header.timestamp = Some(Timestamp { seconds: ts_seconds, nanos: 0 });
    let header = Header {
        channel_header: encode(&channel_header),
        signature_header: encode(&SignatureHeader { creator, nonce: Vec::new() }),
    };
    let payload = ChaincodeProposalPayload { input: Vec::new(), transient_map: transient };
    let proposal =
        Proposal { header: encode(&header), payload: encode(&payload), extension: Vec::new() };
    SignedProposal { proposal_bytes: encode(&proposal), signature: Vec::new() }
}

fn value_json(value: &Value) -> serde_json::Value {
    match value {
        Value::Null => serde_json::Value::Null,
        Value::Bool(b) => serde_json::Value::Bool(*b),
        Value::Number(written) => serde_json::from_str(written).unwrap(),
        Value::Text(text) => serde_json::Value::String(text.clone()),
        Value::Array(items) => serde_json::Value::Array(items.iter().map(value_json).collect()),
        Value::Object(members) => {
            let mut map = serde_json::Map::new();
            for member in members {
                map.insert(member.name.clone(), value_json(&member.value));
            }
            serde_json::Value::Object(map)
        }
    }
}

fn object(pairs: Vec<(&str, serde_json::Value)>) -> serde_json::Value {
    let mut map = serde_json::Map::new();
    for (name, value) in pairs {
        map.insert(name.to_string(), value);
    }
    serde_json::Value::Object(map)
}

fn text(value: &str) -> serde_json::Value {
    serde_json::Value::String(value.to_string())
}

fn transaction_json(tx: &Transaction) -> serde_json::Value {
    let tags = tx.tag.iter().map(|t| text(t)).collect();
    let parameters = tx
        .parameters
        .iter()
        .map(|p| object(vec![("name", text(&p.name)), ("schema", value_json(&p.schema))]))
        .collect();
    let mut pairs = vec![
        ("name", text(&tx.name)),
        ("tag", serde_json::Value::Array(tags)),
        ("parameters", serde_json::Value::Array(parameters)),
    ];
    if let Some(schema) = &tx.returns {
        pairs.push(("returns", value_json(schema)));
    }
    object(pairs)
}

fn metadata_json(md: &Metadata) -> serde_json::Value {
    let mut contracts = Vec::new();
    for i in 0..md.contracts.len() {
        let contract = md.contracts.value_at(i);
        let transactions = contract.transactions.iter().map(transaction_json).collect();
        contracts.push((
            md.contracts.key_at(i),
            object(vec![
                ("name", text(&contract.name)),
                ("transactions", serde_json::Value::Array(transactions)),
            ]),
        ));
    }
    let mut schemas = Vec::new();
    for i in 0..md.components.schemas.len() {
        let schema = value_json(md.components.schemas.value_at(i));
        schemas.push((md.components.schemas.key_at(i), schema));
    }
    object(vec![
        ("$schema", text(&md.schema)),
        (
            "info",
            object(vec![
                ("title", text(&md.info.title)),
                ("version", text(&md.info.version)),
            ]),
        ),
        ("contracts", object(contracts)),
        ("components", object(vec![("schemas", object(schemas))])),
    ])
}

// ---- tests -----------------------------------------------------------------

#[test]
fn handshake_registers_with_chaincode_id() {
    // `open` asserts that REGISTER carries the configured package id.
    let _connection = Connection::open(test_kv);
}

#[test]
fn keepalive_is_echoed() {
    let mut connection = Connection::open(test_kv);
    match connection.receive(peer_message(MsgType::Keepalive, Vec::new(), "", "")) {
        Action::Send(echo) => assert_eq!(echo.msg_type(), MsgType::Keepalive),
        _ => panic!("a keepalive must be echoed"),
    }
}

#[test]
fn put_get_roundtrip() {
    let mut connection = Connection::open(test_kv);

    let (resp, _) = connection.run_tx("tx1", &["put", "asset1", "blue"]);
    assert_eq!(resp.status, fabric_shim::OK, "{}", resp.message);
    assert_eq!(connection.peer.state.get("asset1").unwrap(), b"blue");

    let (resp, _) = connection.run_tx("tx2", &["get", "asset1"]);
    assert_eq!(resp.status, fabric_shim::OK);
    assert_eq!(resp.payload, b"blue");
}

#[test]
fn peer_error_surfaces_as_500_completed() {
    let mut connection = Connection::open(test_kv);
    connection.peer.refuse_with = Some(b"ledger on fire".to_vec());

    let (resp, _) = connection.run_tx("tx1", &["get", "asset1"]);
    assert_eq!(connection.peer.served, vec![MsgType::GetState]);
    assert_eq!(resp.status, fabric_shim::ERROR);
    assert!(resp.message.contains("ledger on fire"), "message: {}", resp.message);
    assert_eq!(resp.message, "peer error: ledger on fire");
}

#[test]
fn range_query_pages_through_batches() {
    let mut connection = Connection::open(test_kv);
    for i in 1..=5 {
        connection.peer.state.insert(format!("k{i}"), format!("v{i}").into_bytes());
    }

    let (resp, _) = connection.run_tx("tx1", &["range"]);
    assert_eq!(resp.status, fabric_shim::OK, "{}", resp.message);
    assert_eq!(resp.payload, b"k1,k2,k3,k4,k5");
    // 5 records in batches of 2: the first response and 2 fetches, then a close.
    assert_eq!(connection.peer.state_next_calls, 2);
    assert_eq!(connection.peer.state_close_calls, 1);
}

#[test]
fn interleaved_transactions_route_by_txid() {
    let mut connection = Connection::open(test_kv);
    connection.peer.state.insert("a".into(), b"valA".to_vec());
    connection.peer.state.insert("b".into(), b"valB".to_vec());

    // Both transactions ask before either is answered.
    let mut stubs = Vec::new();
    let mut requests = Vec::new();
    for (i, (txid, key)) in [("txA", "a"), ("txB", "b")].iter().enumerate() {
        let msg = match connection.receive(Connection::transaction(txid, &["get", key], None)) {
            Action::Spawn(msg) => msg,
            _ => panic!("a transaction must be run"),
        };
        let stub = match start_transaction(msg) {
            Ok(tx) => tx.into_stub().ok().unwrap(),
            Err(_) => panic!("the input is well-formed"),
        };
        let (function, args) = stub.get_function_and_args();
        assert_eq!(function, "get");
        let request = stub.get_state(&args[0]);
        let sent = connection
            .link
            .request(request.msg_type, request.payload, CHANNEL, txid, i as u64)
            .unwrap();
        assert_eq!(sent.msg_type(), MsgType::GetState);
        requests.push(sent);
        stubs.push(stub);
    }

    // Answered in reverse order, so that only the transaction id can tell them apart.
    requests.reverse();
    let mut results = HashMap::new();
    for request in requests {
        let key = read::<GetState>(&request.payload).key;
        let value = connection.peer.state.get(&key).cloned().unwrap();
        let reply =
            peer_message(MsgType::Response, value, &request.channel_id, &request.txid);
        let reply = match connection.receive(reply) {
            Action::Route(reply) => reply,
            _ => panic!("a reply must be routed"),
        };
        let waiter = connection.link.route_response(&reply).unwrap();
        let value = value_reply(interpret_reply(Some(reply)).unwrap());
        let txid = stubs[waiter as usize].get_tx_id().to_string();
        let end = connection.link.finish_transaction(
            Ok(Response::success(value)),
            None,
            CHANNEL,
            &txid,
        );
        assert_eq!(end.msg_type(), MsgType::Completed);
        let resp: proto::Response = read(&end.payload);
        results.insert(end.txid, resp.payload);
    }
    assert_eq!(results["txA"], b"valA");
    assert_eq!(results["txB"], b"valB");
}

#[test]
fn panicking_chaincode_returns_500_and_stream_survives() {
    let mut connection = Connection::open(test_kv);

    let (resp, _) = connection.run_tx("tx1", &["panic"]);
    assert_eq!(resp.status, fabric_shim::ERROR);
    assert!(resp.message.contains("panic"), "message: {}", resp.message);

    // The connection still works after the panic.
    let (resp, _) = connection.run_tx("tx2", &["put", "k", "v"]);
    assert_eq!(resp.status, fabric_shim::OK);
}

#[test]
fn chaincode_event_rides_on_completed() {
    let mut connection = Connection::open(test_kv);

    let (resp, event) = connection.run_tx("tx1", &["event"]);
    assert_eq!(resp.status, fabric_shim::OK);
    let event = event.expect("COMPLETED should carry the event");
    assert_eq!(event.event_name, "AssetTransferred");
    assert_eq!(event.payload, b"asset1".to_vec());
    assert_eq!(event.tx_id, "tx1");
}

#[test]
fn proposal_fields_are_decoded() {
    let mut connection = Connection::open(test_kv);

    let mut transient = BytesMap::new();
    transient.insert("secret".to_string(), b"hunter2".to_vec());
    let proposal = make_signed_proposal("Org1MSP", b"-----CERT-----", transient, 1_700_000_000);

    let (resp, _) =
        connection.run_tx_with_proposal("tx1", &["transient"], Some(proposal.clone()));
    assert_eq!(resp.payload, b"hunter2");

    let (resp, _) = connection.run_tx_with_proposal("tx2", &["whoami"], Some(proposal.clone()));
    assert_eq!(resp.payload, b"Org1MSP");

    let (resp, _) = connection.run_tx_with_proposal("tx3", &["ts"], Some(proposal));
    assert_eq!(resp.payload, b"1700000000");
}

#[test]
fn transaction_before_ready_is_rejected() {
    let (mut connection, register) = Connection::raw(test_kv);
    assert_eq!(register.msg_type(), MsgType::Register);

    // A transaction without REGISTERED and READY before it.
    match connection.receive(Connection::transaction("tx1", &["get", "a"], None)) {
        Action::Close(msg) => {
            assert_eq!(msg.msg_type(), MsgType::Error);
            assert_eq!(msg.payload, b"received Transaction in state Created");
        }
        _ => panic!("a transaction before READY must be refused"),
    }
    assert!(connection.closed);
}

fn string_schema() -> Value {
    <String as ContractSchema>::schema()
}

#[test]
fn get_metadata_served_by_shim() {
    let mut connection = Connection::open(test_kv);
    connection.metadata = Some(
        Metadata::new("meta-kv".to_string(), "1.2.3".to_string()).contract(
            Contract::new("MetaKv".to_string())
                .transaction(
                    Transaction::submit("put".to_string())
                        .parameter("key".to_string(), string_schema())
                        .parameter("value".to_string(), string_schema()),
                )
                .transaction(
                    Transaction::evaluate("get".to_string())
                        .parameter("key".to_string(), string_schema()),
                ),
        ),
    );

    let (resp, _) = connection.run_tx("tx1", &["org.hyperledger.fabric:GetMetadata"]);
    assert_eq!(resp.status, fabric_shim::OK, "{}", resp.message);

    let md: serde_json::Value = serde_json::from_slice(&resp.payload).unwrap();
    assert_eq!(md["info"]["title"], "meta-kv");
    assert_eq!(md["info"]["version"], "1.2.3");
    assert_eq!(md["contracts"]["MetaKv"]["transactions"][0]["name"], "put");
    assert_eq!(md["contracts"]["MetaKv"]["transactions"][0]["tag"][0], "submit");
    assert_eq!(
        md["contracts"]["MetaKv"]["transactions"][1]["parameters"][0]["schema"]["type"],
        "string"
    );

    // The interception does not shadow ordinary functions.
    let (resp, _) = connection.run_tx("tx2", &["put", "k", "v"]);
    assert_eq!(resp.status, fabric_shim::OK);
}

#[test]
fn get_metadata_falls_through_when_undeclared() {
    // Without metadata the call reaches the chaincode, which does not know it.
    let mut connection = Connection::open(test_kv);

    let (resp, _) = connection.run_tx("tx1", &["org.hyperledger.fabric:GetMetadata"]);
    assert_eq!(resp.status, fabric_shim::ERROR);
    assert!(resp.message.contains("unknown function"), "{}", resp.message);
}

// ---- a declared contract ---------------------------------------------------

fn path(ident: &str, args: Vec<TypeDecl>) -> TypeDecl {
    let arguments = if args.is_empty() {
        Arguments::Absent
    } else {
        Arguments::AngleBracketed(args.into_iter().map(GenericArg::Type).collect())
    };
    TypeDecl {
        tokens: ident.to_string(),
        shape: TypeShape::Path(vec![Segment { ident: ident.to_string(), arguments }]),
    }
}

fn unit() -> TypeDecl {
    TypeDecl { tokens: "()".to_string(), shape: TypeShape::Tuple(0) }
}

fn reference(inner: &str) -> TypeDecl {
    TypeDecl { tokens: format!("& {inner}"), shape: TypeShape::Other }
}

fn method(name: &str, evaluate: bool, params: &[(&str, &str)], ok: TypeDecl) -> MethodDecl {
    let args = if evaluate {
        AttrArgs::Metas(vec![MetaDecl::Path { ident: Some("evaluate".to_string()) }])
    } else {
        AttrArgs::Absent
    };
    let mut inputs = vec![
        InputDecl::Receiver,
        InputDecl::Typed { ident: Some("ctx".to_string()), ty: reference("ChaincodeStub") },
    ];
    for (ident, ty) in params {
        inputs.push(InputDecl::Typed {
            ident: Some(ident.to_string()),
            ty: path(ty, Vec::new()),
        });
    }
    MethodDecl {
        name: name.to_string(),
        is_async: true,
        attrs: vec![AttrDecl { ident: Some("transaction".to_string()), args }],
        inputs,
        output: Some(path("Result", vec![ok, path("Error", Vec::new())])),
    }
}

fn inventory_plan() -> ContractPlan {
    let options = vec![
        MetaDecl::NameValue {
            ident: Some("name".to_string()),
            literal: Some("Inventory".to_string()),
        },
        MetaDecl::NameValue {
            ident: Some("version".to_string()),
            literal: Some("9.9.9".to_string()),
        },
    ];
    let args = parse_contract_args(&options).ok().unwrap();
    let decl = ImplDecl {
        generic: false,
        self_type: Some("Inventory".to_string()),
        methods: vec![
            method("add_item", false, &[("id", "String"), ("qty", "u32")], unit()),
            method("get_item", true, &[("id", "String")], path("Item", Vec::new())),
            method("double", true, &[("n", "u64")], path("u64", Vec::new())),
        ],
    };
    contract(args, &decl).ok().unwrap()
}

fn item_json(id: &str, qty: u32) -> Vec<u8> {
    format!("{{\"ID\":\"{id}\",\"qty\":{qty}}}").into_bytes()
}

fn inventory(stub: &mut ChaincodeStub, ask: &mut dyn FnMut(LedgerRequest) -> Reply) -> Outcome {
    let plan = inventory_plan();
    let args: Vec<Vec<u8>> = stub.get_args().to_vec();
    let signatures = plan.transactions.iter().map(signature).collect();
    let index = match route(&args, &signatures) {
        Ok(index) => index,
        Err(response) => return Ok(response),
    };
    let names: Vec<String> =
        plan.transactions[index].params.iter().map(|p| parameter_name(&p.ident)).collect();
    let outcome = match plan.transactions[index].method.as_str() {
        "add_item" => {
            let id: String = match read_argument(&args, 1, &names[0]) {
                Ok(id) => id,
                Err(response) => return Ok(response),
            };
            let qty: u32 = match read_argument(&args, 2, &names[1]) {
                Ok(qty) => qty,
                Err(response) => return Ok(response),
            };
            match stub.put_state(&id, item_json(&id, qty)).and_then(|request| ask(request)) {
                Ok(_) => Ok(().into_payload()),
                Err(e) => Err(e.message()),
            }
        }
        "get_item" => {
            let id: String = match read_argument(&args, 1, &names[0]) {
                Ok(id) => id,
                Err(response) => return Ok(response),
            };
            match ask(stub.get_state(&id)) {
                Ok(reply) => Ok(Ok(value_reply(reply))),
                Err(e) => Err(e.message()),
            }
        }
        _ => {
            let n: u64 = match read_argument(&args, 1, &names[0]) {
                Ok(n) => n,
                Err(response) => return Ok(response),
            };
            Ok((n * 2).into_payload())
        }
    };
    Ok(conclude(outcome))
}

fn inventory_metadata() -> Metadata {
    let plan = inventory_plan();
    let mut components = TextMap::new();
    let fields = vec![
        Property { json_name: "ID".to_string(), schema: string_schema(), optional: false },
        Property {
            json_name: "qty".to_string(),
            schema: <u32 as ContractSchema>::schema(),
            optional: false,
        },
    ];
    assert!(register_data_type(&mut components, "Item", fields));
    let mut transactions = Vec::new();
    for shape in &plan.transactions {
        let parameters = shape
            .params
            .iter()
            .map(|p| {
                let schema = match p.ty.as_str() {
                    "String" => string_schema(),
                    _ => <u32 as ContractSchema>::schema(),
                };
                (parameter_name(&p.ident), schema)
            })
            .collect();
        let returns = shape.ok_ty.as_ref().map(|ty| match ty.as_str() {
            "Item" => reference_schema("Item"),
            _ => <u64 as ContractSchema>::schema(),
        });
        transactions.push(describe_transaction(
            transaction_name(shape),
            shape.evaluate,
            parameters,
            returns,
        ));
    }
    let version = plan.version.unwrap();
    describe_contract(plan.name, plan.title, version, transactions, components)
}

#[test]
fn contract_macro_routes_and_parses_typed_args() {
    let mut connection = Connection::open(inventory);

    // A method in snake_case is called in PascalCase, and a u32 read from text.
    let (resp, _) = connection.run_tx("tx1", &["AddItem", "widget", "42"]);
    assert_eq!(resp.status, fabric_shim::OK, "{}", resp.message);
    assert_eq!(
        connection.peer.state.get("widget").unwrap(),
        br#"{"ID":"widget","qty":42}"#
    );

    // A struct is returned as JSON, and a call may name the contract.
    let (resp, _) = connection.run_tx("tx2", &["Inventory:GetItem", "widget"]);
    assert_eq!(resp.status, fabric_shim::OK);
    assert_eq!(resp.payload, br#"{"ID":"widget","qty":42}"#);

    // A number is returned as text.
    let (resp, _) = connection.run_tx("tx3", &["Double", "21"]);
    assert_eq!(resp.payload, b"42");

    // An argument that is no number gives an error that names the parameter.
    let (resp, _) = connection.run_tx("tx4", &["AddItem", "widget", "not-a-number"]);
    assert_eq!(resp.status, fabric_shim::ERROR);
    assert!(resp.message.contains("qty"), "{}", resp.message);
    assert_eq!(resp.message, "invalid argument `qty`: invalid digit found in string");

    // A wrong number of arguments, and a function that is not known.
    let (resp, _) = connection.run_tx("tx5", &["AddItem", "widget"]);
    assert!(resp.message.contains("expects 2 argument"), "{}", resp.message);
    assert_eq!(resp.message, "AddItem expects 2 argument(s), got 1");
    let (resp, _) = connection.run_tx("tx6", &["Vanish"]);
    assert!(resp.message.contains("unknown function"), "{}", resp.message);
    assert_eq!(resp.message, "unknown function Vanish");
}

#[test]
fn contract_macro_serves_get_metadata() {
    let mut connection = Connection::open(inventory);
    connection.metadata = Some(inventory_metadata());

    let (resp, _) = connection.run_tx("tx1", &["org.hyperledger.fabric:GetMetadata"]);
    assert_eq!(resp.status, fabric_shim::OK, "{}", resp.message);

    let md: serde_json::Value = serde_json::from_slice(&resp.payload).unwrap();
    assert_eq!(md["info"]["version"], "9.9.9");
    let txs = md["contracts"]["Inventory"]["transactions"].as_array().unwrap();
    assert_eq!(txs[0]["name"], "AddItem");
    assert_eq!(txs[1]["returns"]["$ref"], "#/components/schemas/Item");
    assert_eq!(
        md["components"]["schemas"]["Item"]["properties"]["qty"]["type"],
        "integer"
    );
}

#[test]
fn composite_key_roundtrip() {
    let key = create_composite_key("Asset", &["blue", "asset1"]).unwrap();
    assert!(key.starts_with('\u{0}'));
    let (object_type, attrs) = split_composite_key(&key).unwrap();
    assert_eq!(object_type, "Asset");
    assert_eq!(attrs, vec!["blue", "asset1"]);

    assert!(create_composite_key("bad\u{0}type", &[]).is_err());
    assert!(create_composite_key("Asset", &["bad\u{10FFFF}attr"]).is_err());

    // An empty component could not be told from the end of the key.
    assert!(create_composite_key("", &[]).is_err());
    assert!(create_composite_key("Asset", &[""]).is_err());
    assert!(create_composite_key("Asset", &["blue", ""]).is_err());
}

#[test]
fn private_data_roundtrip_and_isolation() {
    let mut connection = Connection::open(test_kv);

    let (resp, _) = connection.run_tx("tx1", &["put_pd", "collectionA", "k1", "secret1"]);
    assert_eq!(resp.status, fabric_shim::OK, "{}", resp.message);
    assert_eq!(
        connection
            .peer
            .private_state
            .get(&("collectionA".to_string(), "k1".to_string()))
            .unwrap(),
        b"secret1"
    );

    let (resp, _) = connection.run_tx("tx2", &["get_pd", "collectionA", "k1"]);
    assert_eq!(resp.status, fabric_shim::OK);
    assert_eq!(resp.payload, b"secret1");

    // Another collection with the same key holds nothing.
    let (resp, _) = connection.run_tx("tx3", &["get_pd", "collectionB", "k1"]);
    assert_eq!(resp.status, fabric_shim::OK);
    assert_eq!(resp.payload, Vec::<u8>::new());

    // Neither does the world state.
    let (resp, _) = connection.run_tx("tx4", &["get", "k1"]);
    assert_eq!(resp.status, fabric_shim::OK);
    assert_eq!(resp.payload, Vec::<u8>::new());

    let (resp, _) = connection.run_tx("tx5", &["del_pd", "collectionA", "k1"]);
    assert_eq!(resp.status, fabric_shim::OK, "{}", resp.message);
    let (resp, _) = connection.run_tx("tx6", &["get_pd", "collectionA", "k1"]);
    assert_eq!(resp.payload, Vec::<u8>::new());
}

#[test]
fn private_data_hash_and_purge() {
    let mut connection = Connection::open(test_kv);

    let (resp, _) = connection.run_tx("tx1", &["put_pd", "collectionA", "k2", "v2"]);
    assert_eq!(resp.status, fabric_shim::OK, "{}", resp.message);

    // The request for a hash is one of its own, and its reply is passed on.
    let (resp, _) = connection.run_tx("tx2", &["pd_hash", "collectionA", "k2"]);
    assert_eq!(connection.peer.served.last(), Some(&MsgType::GetPrivateDataHash));
    assert_eq!(resp.status, fabric_shim::OK, "{}", resp.message);
    assert_eq!(resp.payload, b"v2");

    let (resp, _) = connection.run_tx("tx3", &["purge_pd", "collectionA", "k2"]);
    assert_eq!(connection.peer.served.last(), Some(&MsgType::PurgePrivateData));
    assert_eq!(resp.status, fabric_shim::OK, "{}", resp.message);

    let (resp, _) = connection.run_tx("tx4", &["get_pd", "collectionA", "k2"]);
    assert_eq!(resp.payload, Vec::<u8>::new());
}

#[test]
fn composite_key_partial_range_query() {
    let mut connection = Connection::open(test_kv);

    let (resp, _) = connection.run_tx("tx1", &["pkey_put", "Asset", "blue", "asset1", "100"]);
    assert_eq!(resp.status, fabric_shim::OK, "{}", resp.message);
    let (resp, _) = connection.run_tx("tx2", &["pkey_put", "Asset", "blue", "asset2", "200"]);
    assert_eq!(resp.status, fabric_shim::OK, "{}", resp.message);
    let (resp, _) = connection.run_tx("tx3", &["pkey_put", "Asset", "red", "asset3", "300"]);
    assert_eq!(resp.status, fabric_shim::OK, "{}", resp.message);

    // The partial key matches the two blue assets and not the red one.
    let (resp, _) = connection.run_tx("tx4", &["pkey_range", "Asset", "blue"]);
    assert_eq!(resp.status, fabric_shim::OK, "{}", resp.message);
    assert_eq!(resp.payload, b"blue|asset1,blue|asset2");
}

#[test]
fn private_range_query_stays_in_its_collection() {
    let mut connection = Connection::open(test_kv);
    let entries = [("collectionA", "k1"), ("collectionA", "k2"), ("collectionB", "k3")];
    for (i, (collection, key)) in entries.iter().enumerate() {
        let txid = format!("tx{i}");
        let (resp, _) = connection.run_tx(&txid, &["put_pd", collection, key, "v"]);
        assert_eq!(resp.status, fabric_shim::OK, "{}", resp.message);
    }
    let (resp, _) = connection.run_tx("tx9", &["pd_range", "collectionA"]);
    assert_eq!(resp.payload, b"k1,k2");
    assert_eq!(connection.peer.served.last(), Some(&MsgType::QueryStateClose));
}

#[test]
fn arguments_of_the_wrong_type_are_reported() {
    assert_eq!(<u8 as ContractArg>::from_arg(b"256"), Err("number too large to fit in target type".to_string()));
    assert_eq!(<bool as ContractArg>::from_arg(b"yes"), Err("expected \"true\" or \"false\"".to_string()));
}

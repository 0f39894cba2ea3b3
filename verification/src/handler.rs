//! The protocol between chaincode and peer: the handshake, the dispatch of
//! transactions and the routing of replies.

use vstd::prelude::*;
use vstd::utf8::encode_utf8;

use crate::codec::{decoded, encoded, number_of, Datum, Message};
use crate::error::{Error, ErrorView, Result};
use crate::fields::{decode, encode};
use crate::layout::{FieldKind, Layout};
use crate::ledger::response_record;
use crate::message_type::MsgType;
use crate::metadata::METADATA_FUNCTION;
use crate::pending::{Pending, TxKey};
use crate::proto::{ChaincodeEvent, ChaincodeId, ChaincodeInput, ChaincodeMessage, SignedProposal};
use crate::proto::Timestamp;
use crate::response::{Response, ResponseView};
use crate::stub::{event_view, parts_of, signed_view, ChaincodeStub, EventView, ProposalParts};
use crate::stub::StubView;
use crate::text;

verus! {

// ---- messages --------------------------------------------------------------
/// The time that has passed since the Unix epoch, by `SystemTime::elapsed` on
/// `UNIX_EPOCH`: seconds and the nanoseconds below them. Trusted: there are less
/// than a billion of those. `None` where the clock stands before the epoch.
#[verifier::external_body]
fn since_epoch() -> (r: Option<(u64, u32)>)
    ensures
        r matches Some((_, nanos)) ==> nanos < 1_000_000_000,
{
    match std::time::UNIX_EPOCH.elapsed() {
        Ok(d) => Some((d.as_secs(), d.subsec_nanos())),
        Err(_) => None,
    }
}

/// The moment the given time after the epoch; the epoch where there is none.
pub fn timestamp_of(elapsed: Option<(u64, u32)>) -> (r: Timestamp)
    ensures
        match elapsed {
            None => r.seconds == 0 && r.nanos == 0,
            Some((seconds, nanos)) => r.seconds == number_of(FieldKind::Int64, seconds as nat)
                && r.nanos == number_of(FieldKind::Int32, nanos as nat),
        },
{
    match elapsed {
        None => Timestamp { seconds: 0, nanos: 0 },
        Some((seconds, nanos)) => {
            let whole: i64 = if seconds < 0x8000_0000_0000_0000 {
                seconds as i64
            } else {
                -1 - (u64::MAX - seconds) as i64
            };
            let part: i32 = if nanos < 0x8000_0000 {
                nanos as i32
            } else {
                -1 - (u32::MAX - nanos) as i32
            };
            Timestamp { seconds: whole, nanos: part }
        },
    }
}

fn now() -> (r: Timestamp)
    ensures
        0 <= r.nanos < 1_000_000_000,
{
    timestamp_of(since_epoch())
}

/// Whether `m` is a message of the given kind, payload, channel and transaction,
/// without proposal and with the given event, stamped with some moment.
pub open spec fn is_message(
    m: ChaincodeMessage,
    msg_type: MsgType,
    payload: Seq<u8>,
    channel_id: Seq<char>,
    tx_id: Seq<char>,
    event: Option<EventView>,
) -> bool {
    &&& m.type_code == msg_type.number()
    &&& m.payload@ == payload
    &&& m.channel_id@ == channel_id
    &&& m.txid@ == tx_id
    &&& m.proposal is None
    &&& event_view(m.chaincode_event) == event
    &&& m.timestamp is Some
}

/// A message of the given moment.
pub fn message_at(
    timestamp: Timestamp,
    msg_type: MsgType,
    payload: Vec<u8>,
    channel_id: &str,
    tx_id: &str,
) -> (r: ChaincodeMessage)
    ensures
        is_message(r, msg_type, payload@, channel_id@, tx_id@, None),
        r.timestamp == Some(timestamp),
{
    ChaincodeMessage {
        type_code: msg_type.code(),
        timestamp: Some(timestamp),
        payload,
        txid: tx_id.to_owned(),
        proposal: None,
        chaincode_event: None,
        channel_id: channel_id.to_owned(),
    }
}

/// A message of this moment. What the clock says is not stated.
pub fn new_message(msg_type: MsgType, payload: Vec<u8>, channel_id: &str, tx_id: &str) -> (r:
    ChaincodeMessage)
    ensures
        is_message(r, msg_type, payload@, channel_id@, tx_id@, None),
        r.timestamp matches Some(t) && 0 <= t.nanos < 1_000_000_000,
{
    message_at(now(), msg_type, payload, channel_id, tx_id)
}

/// The payload that registers a chaincode.
pub open spec fn register_payload(chaincode_id: Seq<char>) -> Seq<u8> {
    encoded(
        Layout::ChaincodeId,
        seq![Datum::Text(seq![]), Datum::Text(chaincode_id), Datum::Text(seq![])],
    )
}

/// The first message on a connection. Registration is up to the chaincode even
/// where the peer dialed it.
pub fn register_message(chaincode_id: &str) -> (r: ChaincodeMessage)
    ensures
        is_message(r, MsgType::Register, register_payload(chaincode_id@), seq![], seq![], None),
{
    let id = ChaincodeId {
        path: String::new(),
        name: chaincode_id.to_owned(),
        version: String::new(),
    };
    proof {
        reveal_strlit("");
        assert(""@ =~= seq![]);
        assert(id.record() =~= seq![
            Datum::Text(seq![]),
            Datum::Text(chaincode_id@),
            Datum::Text(seq![]),
        ]);
    }
    new_message(MsgType::Register, encode(&id), "", "")
}

/// An ERROR message that says `detail`.
fn error_message(detail: &str, channel_id: &str, tx_id: &str) -> (r: ChaincodeMessage)
    ensures
        is_message(r, MsgType::Error, encode_utf8(detail@), channel_id@, tx_id@, None),
{
    new_message(MsgType::Error, detail.as_bytes_vec(), channel_id, tx_id)
}

// ---- requests --------------------------------------------------------------
/// What a reply means to the request that waited for it.
pub open spec fn reply_meaning(reply: Option<ChaincodeMessage>) -> std::result::Result<
    ChaincodeMessage,
    ErrorView,
> {
    match reply {
        None => Err(ErrorView::ConnectionClosed),
        Some(message) => if message.kind() == MsgType::Response {
            Ok(message)
        } else if message.kind() == MsgType::Error {
            Err(ErrorView::Peer(text::lossy(message.payload@)))
        } else {
            Err(
                ErrorView::Protocol(
                    "unexpected message type "@ + message.kind().spelled()
                        + " routed as tx response"@,
                ),
            )
        },
    }
}

/// The requests of a connection that wait for replies, each with a waiter to be
/// told.
pub struct PeerLink<T> {
    pending: Pending<T>,
}

impl<T> View for PeerLink<T> {
    type V = Map<(Seq<char>, Seq<char>), T>;

    closed spec fn view(&self) -> Map<(Seq<char>, Seq<char>), T> {
        self.pending@
    }
}

impl<T> PeerLink<T> {
    /// A connection on which nothing has been asked.
    pub fn new() -> (r: PeerLink<T>)
        ensures
            r@ == Map::<(Seq<char>, Seq<char>), T>::empty(),
    {
        PeerLink { pending: Pending::new() }
    }

    /// Starts a ledger request: the message to send, for whose reply `waiter`
    /// waits. A transaction has one request in flight at most.
    pub fn request(
        &mut self,
        msg_type: MsgType,
        payload: Vec<u8>,
        channel_id: &str,
        tx_id: &str,
        waiter: T,
    ) -> (r: Result<ChaincodeMessage>)
        ensures
            if old(self)@.dom().contains((channel_id@, tx_id@)) {
                (r matches Err(e) && e@ == ErrorView::Protocol(
                    "another ledger request is already in flight for tx "@ + tx_id@,
                )) && final(self)@ == old(self)@
            } else {
                (r matches Ok(m) && is_message(
                    m,
                    msg_type,
                    payload@,
                    channel_id@,
                    tx_id@,
                    None,
                )) && final(self)@ == old(self)@.insert(
                    (channel_id@, tx_id@),
                    waiter,
                )
            },
    {
        let key = TxKey { channel_id: channel_id.to_owned(), tx_id: tx_id.to_owned() };
        if !self.pending.insert(key, waiter) {
            return Err(
                Error::Protocol(
                    text::pair("another ledger request is already in flight for tx ", tx_id),
                ),
            );
        }
        Ok(new_message(msg_type, payload, channel_id, tx_id))
    }

    /// The waiter for the reply `msg`, who waits no longer. A reply that nobody
    /// waits for is dropped.
    pub fn route_response(&mut self, msg: &ChaincodeMessage) -> (r: Option<T>)
        ensures
            match r {
                Some(waiter) => old(self)@.dom().contains((msg.channel_id@, msg.txid@)) && waiter
                    == old(self)@[(msg.channel_id@, msg.txid@)],
                None => !old(self)@.dom().contains((msg.channel_id@, msg.txid@)),
            },
            final(self)@ == old(self)@.remove((msg.channel_id@, msg.txid@)),
    {
        let key = TxKey { channel_id: msg.channel_id.clone(), tx_id: msg.txid.clone() };
        self.pending.remove(&key)
    }

    /// Takes back a request whose message could not be sent, and gives the error to
    /// report.
    pub fn send_failed(&mut self, channel_id: &str, tx_id: &str) -> (r: Error)
        ensures
            r@ == ErrorView::ConnectionClosed,
            final(self)@ == old(self)@.remove((channel_id@, tx_id@)),
    {
        self.drop_pending(channel_id, tx_id);
        Error::ConnectionClosed
    }

    /// Gives up waiting for a reply to the transaction's request.
    pub fn drop_pending(&mut self, channel_id: &str, tx_id: &str)
        ensures
            final(self)@ == old(self)@.remove((channel_id@, tx_id@)),
    {
        let key = TxKey { channel_id: channel_id.to_owned(), tx_id: tx_id.to_owned() };
        let _ = self.pending.remove(&key);
    }

    /// Lets go of everybody who waits, because the stream has ended: no reply will
    /// come, and who waited gets none.
    pub fn close(&mut self)
        ensures
            final(self)@ == Map::<(Seq<char>, Seq<char>), T>::empty(),
    {
        self.pending = Pending::new();
    }
}

/// What the peer's reply means to the request that waited for it; without a reply
/// the connection has ended.
pub fn interpret_reply(reply: Option<ChaincodeMessage>) -> (r: Result<ChaincodeMessage>)
    ensures
        match reply_meaning(reply) {
            Ok(message) => r == Ok::<_, Error>(message),
            Err(e) => r matches Err(error) && error@ == e,
        },
        reply matches Some(m) ==> m.kind() == MsgType::Error ==> text::lossy_keeps_text(
            m.payload@,
        ),
{
    let reply = match reply {
        Some(reply) => reply,
        None => return Err(Error::ConnectionClosed),
    };
    match reply.msg_type() {
        MsgType::Response => Ok(reply),
        MsgType::Error => Err(Error::Peer(text::lossy_text(reply.payload.as_slice()))),
        other => Err(
            Error::Protocol(
                text::triple("unexpected message type ", other.name(), " routed as tx response"),
            ),
        ),
    }
}

// ---- the connection --------------------------------------------------------
/// How far the handshake has come.
#[derive(Debug, Clone, Copy, PartialEq, Eq, Structural)]
pub enum ConnState {
    Created,
    Established,
    Ready,
}

impl ConnState {
    /// The name of the state.
    pub open spec fn spelled(self) -> Seq<char> {
        match self {
            ConnState::Created => "Created"@,
            ConnState::Established => "Established"@,
            ConnState::Ready => "Ready"@,
        }
    }

    /// The name of the state.
    pub fn name(self) -> (r: &'static str)
        ensures
            r@ == self.spelled(),
    {
        match self {
            ConnState::Created => "Created",
            ConnState::Established => "Established",
            ConnState::Ready => "Ready",
        }
    }
}

/// What a message asks of the connection.
pub enum Duty {
    /// Nothing but the change of state.
    Nothing,
    /// To echo a keepalive.
    Echo,
    /// To run a transaction.
    Run,
    /// To hand a reply to who waits for it.
    Route,
    /// To report a message out of place and close.
    Close,
}

/// The state after a message.
pub open spec fn next_state(state: ConnState, msg_type: MsgType) -> ConnState {
    if state == ConnState::Created && msg_type == MsgType::Registered {
        ConnState::Established
    } else if state == ConnState::Established && msg_type == MsgType::Ready {
        ConnState::Ready
    } else {
        state
    }
}

/// What a message asks of the connection in a state.
pub open spec fn duty(state: ConnState, msg_type: MsgType) -> Duty {
    if state == ConnState::Created && msg_type == MsgType::Registered {
        Duty::Nothing
    } else if state == ConnState::Established && msg_type == MsgType::Ready {
        Duty::Nothing
    } else if msg_type == MsgType::Keepalive {
        Duty::Echo
    } else if state == ConnState::Ready && (msg_type == MsgType::Init || msg_type
        == MsgType::Transaction) {
        Duty::Run
    } else if state == ConnState::Ready && (msg_type == MsgType::Response || msg_type
        == MsgType::Error) {
        Duty::Route
    } else {
        Duty::Close
    }
}

/// What to do about a message of the peer.
pub enum Action {
    /// Wait for the next message.
    Continue,
    /// Send the message.
    Send(ChaincodeMessage),
    /// Run the transaction of the message, beside whatever else is running.
    Spawn(ChaincodeMessage),
    /// Hand the reply to who waits for it.
    Route(ChaincodeMessage),
    /// Send the message and close the connection.
    Close(ChaincodeMessage),
}

/// Takes in a message of the peer: the next state, and what to do.
pub fn on_message(state: ConnState, msg: ChaincodeMessage) -> (r: (ConnState, Action))
    ensures
        r.0 == next_state(state, msg.kind()),
        match duty(state, msg.kind()) {
            Duty::Nothing => r.1 is Continue,
            Duty::Echo => r.1 matches Action::Send(m) && is_message(
                m,
                MsgType::Keepalive,
                seq![],
                msg.channel_id@,
                msg.txid@,
                None,
            ),
            Duty::Run => r.1 == Action::Spawn(msg),
            Duty::Route => r.1 == Action::Route(msg),
            Duty::Close => r.1 matches Action::Close(m) && is_message(
                m,
                MsgType::Error,
                encode_utf8(
                    "received "@ + msg.kind().spelled() + " in state "@ + state.spelled(),
                ),
                msg.channel_id@,
                msg.txid@,
                None,
            ),
        },
{
    let msg_type = msg.msg_type();
    match (state, msg_type) {
        (ConnState::Created, MsgType::Registered) => (ConnState::Established, Action::Continue),
        (ConnState::Established, MsgType::Ready) => (ConnState::Ready, Action::Continue),
        (_, MsgType::Keepalive) => {
            let echo = new_message(
                MsgType::Keepalive,
                Vec::new(),
                msg.channel_id.as_str(),
                msg.txid.as_str(),
            );
            (state, Action::Send(echo))
        },
        (ConnState::Ready, MsgType::Init) => (state, Action::Spawn(msg)),
        (ConnState::Ready, MsgType::Transaction) => (state, Action::Spawn(msg)),
        (ConnState::Ready, MsgType::Response) => (state, Action::Route(msg)),
        (ConnState::Ready, MsgType::Error) => (state, Action::Route(msg)),
        _ => {
            let mut detail = text::triple("received ", msg_type.name(), " in state ");
            detail.append(state.name());
            let report = error_message(
                detail.as_str(),
                msg.channel_id.as_str(),
                msg.txid.as_str(),
            );
            (state, Action::Close(report))
        },
    }
}

// ---- transactions ----------------------------------------------------------
/// A transaction whose input has been decoded.
pub struct Transaction {
    pub is_init: bool,
    pub channel_id: String,
    pub tx_id: String,
    pub input: ChaincodeInput,
    pub proposal: Option<SignedProposal>,
}

impl Transaction {
    /// Whether the transaction asks the chaincode to describe itself.
    pub open spec fn asks_for_metadata(&self) -> bool {
        self.input.args@.len() > 0 && self.input.args@[0]@ == encode_utf8(METADATA_FUNCTION@)
    }

    /// What the stub of the transaction knows, where its proposal says `parts`.
    pub open spec fn stub_view(&self, parts: ProposalParts) -> StubView {
        StubView {
            channel_id: self.channel_id@,
            tx_id: self.tx_id@,
            args: self.input.args.deep_view(),
            decorations: self.input.decorations@,
            signed_proposal: signed_view(self.proposal),
            creator: parts.creator,
            transient: parts.transient,
            tx_timestamp: parts.tx_timestamp,
            event: None,
        }
    }
}

/// Takes up an INIT or TRANSACTION message. `Err` is the message to send where its
/// input cannot be decoded.
pub fn start_transaction(msg: ChaincodeMessage) -> (r: std::result::Result<
    Transaction,
    ChaincodeMessage,
>)
    ensures
        match decoded(Layout::ChaincodeInput, msg.payload@) {
            Ok(record) => {
                &&& r matches Ok(tx)
                &&& tx.input.record() == record
                &&& tx.is_init == (msg.kind() == MsgType::Init)
                &&& tx.channel_id@ == msg.channel_id@
                &&& tx.tx_id@ == msg.txid@
                &&& tx.proposal == msg.proposal
            },
            Err(e) => r matches Err(m) && is_message(
                m,
                MsgType::Error,
                encode_utf8("failed to decode ChaincodeInput: "@ + e.text()),
                msg.channel_id@,
                msg.txid@,
                None,
            ),
        },
{
    let is_init = msg.msg_type() == MsgType::Init;
    match decode::<ChaincodeInput>(msg.payload.as_slice()) {
        Ok(input) => Ok(
            Transaction {
                is_init,
                channel_id: msg.channel_id,
                tx_id: msg.txid,
                input,
                proposal: msg.proposal,
            },
        ),
        Err(e) => {
            let detail = text::pair("failed to decode ChaincodeInput: ", e.message().as_str());
            Err(error_message(detail.as_str(), msg.channel_id.as_str(), msg.txid.as_str()))
        },
    }
}

impl Transaction {
    /// Whether the transaction asks the chaincode to describe itself.
    pub fn wants_metadata(&self) -> (r: bool)
        ensures
            r == self.asks_for_metadata(),
    {
        if self.input.args.len() == 0 {
            return false;
        }
        text::same_bytes(self.input.args[0].as_slice(), METADATA_FUNCTION.as_bytes())
    }

    /// The stub with which to run the transaction. `Err` is the message to send
    /// where its proposal cannot be decoded.
    pub fn into_stub(self) -> (r: std::result::Result<ChaincodeStub, ChaincodeMessage>)
        ensures
            match parts_of(self.proposal) {
                Ok(parts) => r matches Ok(stub) && stub@ == self.stub_view(parts),
                Err(e) => r matches Err(m) && is_message(
                    m,
                    MsgType::Error,
                    encode_utf8("failed to build stub: "@ + ErrorView::Decode(e).text()),
                    self.channel_id@,
                    self.tx_id@,
                    None,
                ),
            },
    {
        let channel_id = self.channel_id.clone();
        let tx_id = self.tx_id.clone();
        match ChaincodeStub::new(self.channel_id, self.tx_id, self.input, self.proposal) {
            Ok(stub) => Ok(stub),
            Err(e) => {
                let detail = text::pair("failed to build stub: ", e.message().as_str());
                Err(error_message(detail.as_str(), channel_id.as_str(), tx_id.as_str()))
            },
        }
    }
}

/// The payload that reports a response.
pub open spec fn response_payload(response: ResponseView) -> Seq<u8> {
    encoded(Layout::Response, response_record(response))
}

/// The message that ends a transaction with its response and the event it emits.
pub fn completed_message(
    response: Response,
    event: Option<ChaincodeEvent>,
    channel_id: &str,
    tx_id: &str,
) -> (r: ChaincodeMessage)
    ensures
        is_message(
            r,
            MsgType::Completed,
            response_payload(response@),
            channel_id@,
            tx_id@,
            event_view(event),
        ),
{
    let ghost said = response@;
    let wire = response.into_proto();
    assert(wire.record() =~= response_record(said));
    let payload = encode(&wire);
    let mut message = new_message(MsgType::Completed, payload, channel_id, tx_id);
    message.chaincode_event = event;
    message
}

/// The response to a request for the metadata, given as JSON or as the words in
/// which it could not be written.
pub fn metadata_response(json: std::result::Result<Vec<u8>, String>) -> (r: Response)
    ensures
        match json {
            Ok(bytes) => r@ == ResponseView::success(bytes@),
            Err(fault) => r@ == ResponseView::error(
                "failed to serialize metadata: "@ + fault@,
            ),
        },
{
    match json {
        Ok(bytes) => Response::success(bytes),
        Err(fault) => Response::error(
            text::pair("failed to serialize metadata: ", fault.as_str()),
        ),
    }
}

/// The message that answers a request for the metadata.
pub fn metadata_reply(
    json: std::result::Result<Vec<u8>, String>,
    channel_id: &str,
    tx_id: &str,
) -> (r: ChaincodeMessage)
    ensures
        is_message(
            r,
            MsgType::Completed,
            response_payload(
                match json {
                    Ok(bytes) => ResponseView::success(bytes@),
                    Err(fault) => ResponseView::error("failed to serialize metadata: "@ + fault@),
                },
            ),
            channel_id@,
            tx_id@,
            None,
        ),
{
    completed_message(metadata_response(json), None, channel_id, tx_id)
}

/// The message that answers a request for the metadata where the chaincode panicked
/// as it was asked for them, with the given report.
pub fn metadata_panicked(report: String, channel_id: &str, tx_id: &str) -> (r: ChaincodeMessage)
    ensures
        is_message(
            r,
            MsgType::Completed,
            response_payload(ResponseView::error("chaincode handler panicked: "@ + report@)),
            channel_id@,
            tx_id@,
            None,
        ),
{
    completed_message(outcome_response(Err(report)), None, channel_id, tx_id)
}

/// How a transaction goes on.
pub enum Course {
    /// Send the message; the chaincode is not run.
    Answer(ChaincodeMessage),
    /// Run the chaincode with the stub.
    Run(ChaincodeStub),
}

impl Transaction {
    /// How the transaction goes on, where `metadata` is what [`metadata_response`]
    /// takes, if the chaincode has metadata. A request for it is then answered in
    /// the chaincode's place; without it the request reaches the chaincode.
    pub fn course(self, metadata: Option<std::result::Result<Vec<u8>, String>>) -> (r: Course)
        ensures
            if self.asks_for_metadata() && metadata is Some {
                r matches Course::Answer(m) && is_message(
                    m,
                    MsgType::Completed,
                    response_payload(
                        match metadata {
                            Some(Ok(bytes)) => ResponseView::success(bytes@),
                            Some(Err(fault)) => ResponseView::error(
                                "failed to serialize metadata: "@ + fault@,
                            ),
                            None => arbitrary(),
                        },
                    ),
                    self.channel_id@,
                    self.tx_id@,
                    None,
                )
            } else {
                match parts_of(self.proposal) {
                    Ok(parts) => r matches Course::Run(stub) && stub@ == self.stub_view(parts),
                    Err(e) => r matches Course::Answer(m) && is_message(
                        m,
                        MsgType::Error,
                        encode_utf8("failed to build stub: "@ + ErrorView::Decode(e).text()),
                        self.channel_id@,
                        self.tx_id@,
                        None,
                    ),
                }
            },
    {
        if self.wants_metadata() {
            if let Some(json) = metadata {
                let reply = metadata_reply(json, self.channel_id.as_str(), self.tx_id.as_str());
                return Course::Answer(reply);
            }
        }
        match self.into_stub() {
            Ok(stub) => Course::Run(stub),
            Err(report) => Course::Answer(report),
        }
    }
}

/// The response of a transaction whose handler gave `outcome`, or panicked with
/// the given report.
pub fn outcome_response(outcome: std::result::Result<Response, String>) -> (r: Response)
    ensures
        match outcome {
            Ok(response) => r == response,
            Err(report) => r@ == ResponseView::error(
                "chaincode handler panicked: "@ + report@,
            ),
        },
{
    match outcome {
        Ok(response) => response,
        Err(report) => Response::error(
            text::pair("chaincode handler panicked: ", report.as_str()),
        ),
    }
}

impl<T> PeerLink<T> {
    /// Ends a transaction: a request of it that never got its reply is forgotten,
    /// and the message to send reports its outcome.
    pub fn finish_transaction(
        &mut self,
        outcome: std::result::Result<Response, String>,
        event: Option<ChaincodeEvent>,
        channel_id: &str,
        tx_id: &str,
    ) -> (r: ChaincodeMessage)
        ensures
            final(self)@ == old(self)@.remove((channel_id@, tx_id@)),
            is_message(
                r,
                MsgType::Completed,
                response_payload(
                    match outcome {
                        Ok(response) => response@,
                        Err(report) => ResponseView::error(
                            "chaincode handler panicked: "@ + report@,
                        ),
                    },
                ),
                channel_id@,
                tx_id@,
                event_view(event),
            ),
    {
        self.drop_pending(channel_id, tx_id);
        completed_message(outcome_response(outcome), event, channel_id, tx_id)
    }
}

// ---- laws ------------------------------------------------------------------
/// The state and the duties of a connection after messages of the given kinds, up
/// to the one that closes it.
pub open spec fn state_after(kinds: Seq<MsgType>) -> Option<ConnState>
    decreases kinds.len(),
{
    if kinds.len() == 0 {
        Some(ConnState::Created)
    } else {
        match state_after(kinds.drop_last()) {
            None => None,
            Some(state) => if duty(state, kinds.last()) is Close {
                None
            } else {
                Some(next_state(state, kinds.last()))
            },
        }
    }
}

/// No transaction is run before the peer has said REGISTERED and then READY.
pub proof fn transactions_wait_for_the_handshake(kinds: Seq<MsgType>, state: ConnState)
    requires
        kinds.len() > 0,
        state_after(kinds.drop_last()) == Some(state),
        duty(state, kinds.last()) is Run,
    ensures
        exists|i: int, j: int|
            0 <= i < j < kinds.len() - 1 && kinds[i] == MsgType::Registered && kinds[j]
                == MsgType::Ready,
{
    lemma_ready_after_handshake(kinds.drop_last());
    let earlier = kinds.drop_last();
    let (i, j) = choose|i: int, j: int|
        0 <= i < j < earlier.len() && earlier[i] == MsgType::Registered && earlier[j]
            == MsgType::Ready;
    assert(kinds[i] == MsgType::Registered && kinds[j] == MsgType::Ready);
}

proof fn lemma_ready_after_handshake(kinds: Seq<MsgType>)
    ensures
        state_after(kinds) == Some(ConnState::Established) ==> exists|i: int|
            0 <= i < kinds.len() && #[trigger] kinds[i] == MsgType::Registered,
        state_after(kinds) == Some(ConnState::Ready) ==> exists|i: int, j: int|
            0 <= i < j < kinds.len() && #[trigger] kinds[i] == MsgType::Registered
                && #[trigger] kinds[j] == MsgType::Ready,
    decreases kinds.len(),
{
    if kinds.len() > 0 {
        let earlier = kinds.drop_last();
        let n = kinds.len() - 1;
        lemma_ready_after_handshake(earlier);
        if state_after(kinds) == Some(ConnState::Established) {
            if state_after(earlier) == Some(ConnState::Created) {
                assert(kinds[n] == MsgType::Registered);
            } else {
                let i = choose|i: int|
                    0 <= i < earlier.len() && #[trigger] earlier[i] == MsgType::Registered;
                assert(kinds[i] == MsgType::Registered);
            }
        }
        if state_after(kinds) == Some(ConnState::Ready) {
            if state_after(earlier) == Some(ConnState::Established) {
                let i = choose|i: int|
                    0 <= i < earlier.len() && #[trigger] earlier[i] == MsgType::Registered;
                assert(kinds[i] == MsgType::Registered && kinds[n] == MsgType::Ready);
            } else {
                let (i, j) = choose|i: int, j: int|
                    0 <= i < j < earlier.len() && #[trigger] earlier[i] == MsgType::Registered
                        && #[trigger] earlier[j] == MsgType::Ready;
                assert(kinds[i] == MsgType::Registered && kinds[j] == MsgType::Ready);
            }
        }
    }
}

/// A keepalive is echoed in every state, and changes none.
pub proof fn keepalives_are_always_echoed(state: ConnState)
    ensures
        duty(state, MsgType::Keepalive) is Echo,
        next_state(state, MsgType::Keepalive) == state,
{
}

/// Once ready, a connection stays so until it is closed.
pub proof fn ready_stays_ready(msg_type: MsgType)
    ensures
        next_state(ConnState::Ready, msg_type) == ConnState::Ready,
{
}

/// A reply goes to the transaction that asked: while it waits its waiter is known,
/// taking in the reply leaves the waiters of all others, and after it the
/// transaction may ask again.
pub proof fn replies_reach_only_their_transaction<T>(
    pending: Map<(Seq<char>, Seq<char>), T>,
    asked: (Seq<char>, Seq<char>),
    other: (Seq<char>, Seq<char>),
    waiter: T,
)
    requires
        asked != other,
        !pending.dom().contains(asked),
    ensures
        ({
            let waiting = pending.insert(asked, waiter);
            &&& waiting.dom().contains(asked) && waiting[asked] == waiter
            &&& waiting.dom().contains(other) == pending.dom().contains(other)
            &&& pending.dom().contains(other) ==> waiting[other] == pending[other]
            &&& waiting.remove(asked) == pending
        }),
{
    assert(pending.insert(asked, waiter).remove(asked) =~= pending);
}

} // verus!

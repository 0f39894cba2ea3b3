//! What is said on a connection, and what it leads to.

use vstd::prelude::*;
use vstd::utf8::encode_utf8;

use crate::codec::{decoded, Message};
use crate::codec_laws::record_reads_back;
use crate::codec::Datum;
use crate::error::{DecodeErrorView, Error, ErrorView, Result};
use crate::handler::{completed_message, duty, interpret_reply, is_message, message_at};
use crate::handler::{metadata_panicked, metadata_reply, metadata_response, next_state};
use crate::handler::{new_message, on_message, outcome_response, register_message, register_payload};
use crate::handler::{reply_meaning, start_transaction, timestamp_of, Action, Course};
use crate::handler::{response_payload, ConnState, PeerLink, Transaction};
use crate::layout::{fields, Layout};
use crate::ledger_laws::{can_be_read, is_read_as};
use crate::message_laws::{chaincode_input_bytes, chaincode_input_is_read};
use crate::message_type::MsgType;
use crate::proto;
use crate::proto::{ChaincodeEvent, ChaincodeId, ChaincodeInput, ChaincodeMessage, Timestamp};
use crate::response::{Response, ResponseView};
use crate::stub::{parts_of, ChaincodeStub, EventView, ProposalParts};
use crate::text;
use crate::wire_form::{entries_fit, entry_runs, fits};

verus! {

/// A message says what it is for by its number, and is what it is said to be in every
/// field: it carries no proposal, has some timestamp, and no event but the given one.
pub proof fn messages_are_what_they_are_said_to_be(
    m: ChaincodeMessage,
    msg_type: MsgType,
    payload: Seq<u8>,
    channel_id: Seq<char>,
    tx_id: Seq<char>,
    event: Option<EventView>,
)
    requires
        is_message(m, msg_type, payload, channel_id, tx_id, event),
    ensures
        m.kind() == msg_type,
        m.payload@ == payload,
        m.channel_id@ == channel_id,
        m.txid@ == tx_id,
        m.proposal is None,
        m.timestamp is Some,
        event is None <==> m.chaincode_event is None,
        event matches Some(said) ==> m.chaincode_event matches Some(e) && e.chaincode_id@
            == said.chaincode_id && e.tx_id@ == said.tx_id && e.event_name@ == said.event_name
            && e.payload@ == said.payload,
{
    crate::message_type::numbers_tell_types_apart(msg_type);
}

/// The peer finds in the registration the name of the chaincode and nothing else.
pub proof fn peers_find_the_name_of_the_chaincode(found: ChaincodeId, chaincode_id: Seq<char>)
    requires
        register_payload(chaincode_id).len() <= u64::MAX,
    ensures
        can_be_read::<ChaincodeId>(register_payload(chaincode_id)),
        is_read_as(register_payload(chaincode_id), found) ==> found.name@ == chaincode_id
            && found.path@.len() == 0 && found.version@.len() == 0,
{
    reveal(fields);
    let record = seq![Datum::Text(seq![]), Datum::Text(chaincode_id), Datum::Text(seq![])];
    record_reads_back(Layout::ChaincodeId, record);
    assert(found.record() == record ==> found.record()[0] == record[0] && found.record()[1]
        == record[1] && found.record()[2] == record[2]);
}

/// The peer finds in the end of a transaction the status, the message and the payload
/// of its response.
pub proof fn peers_find_the_response(found: proto::Response, response: ResponseView)
    requires
        response_payload(response).len() <= u64::MAX,
    ensures
        can_be_read::<proto::Response>(response_payload(response)),
        is_read_as(response_payload(response), found) ==> found.status == response.status
            && found.message@ == response.message && found.payload@ == response.payload,
{
    reveal(fields);
    let record = seq![
        Datum::Int(response.status as int),
        Datum::Text(response.message),
        Datum::Bytes(response.payload),
    ];
    assert(crate::ledger::response_record(response) =~= record);
    record_reads_back(Layout::Response, record);
    assert(found.record() == record ==> found.record()[0] == record[0] && found.record()[1]
        == record[1] && found.record()[2] == record[2]);
}

/// A request gets the peer's response as it is, the words of the peer's error as a
/// failure, and a failure too where the connection ended or something else came.
pub proof fn replies_mean_what_they_are(reply: ChaincodeMessage)
    ensures
        reply_meaning(None) == Err::<ChaincodeMessage, _>(ErrorView::ConnectionClosed),
        reply_meaning(Some(reply)) is Ok <==> reply.kind() == MsgType::Response,
        reply_meaning(Some(reply)) matches Ok(given) ==> given == reply,
        reply.kind() == MsgType::Error ==> reply_meaning(Some(reply)) == Err::<
            ChaincodeMessage,
            _,
        >(ErrorView::Peer(text::lossy(reply.payload@))),
        reply.kind() != MsgType::Error && reply.kind() != MsgType::Response ==> (reply_meaning(
            Some(reply),
        ) matches Err(ErrorView::Protocol(said)) && said == "unexpected message type "@
            + reply.kind().spelled() + " routed as tx response"@),
{
}

/// The handshake takes two messages, REGISTERED and READY, each in its turn; no other
/// message changes how far it has come.
pub proof fn the_handshake_takes_its_two_messages(state: ConnState, msg_type: MsgType)
    ensures
        next_state(ConnState::Created, MsgType::Registered) == ConnState::Established,
        next_state(ConnState::Established, MsgType::Ready) == ConnState::Ready,
        next_state(state, msg_type) != state ==> (state == ConnState::Created && msg_type
            == MsgType::Registered) || (state == ConnState::Established && msg_type
            == MsgType::Ready),
{
}

/// What a message asks for: keepalives are echoed in every state; transactions run and
/// replies are handed on once the connection is ready, and only then; the two messages
/// of the handshake ask for nothing in their turn. Everything else closes the
/// connection.
pub proof fn messages_ask_for_what_they_are(state: ConnState, msg_type: MsgType)
    ensures
        duty(state, msg_type) is Echo <==> msg_type == MsgType::Keepalive,
        duty(state, msg_type) is Run <==> state == ConnState::Ready && (msg_type == MsgType::Init
            || msg_type == MsgType::Transaction),
        duty(state, msg_type) is Route <==> state == ConnState::Ready && (msg_type
            == MsgType::Response || msg_type == MsgType::Error),
        duty(state, msg_type) is Nothing <==> next_state(state, msg_type) != state,
{
}

/// A transaction learns from its message the arguments in their order, the decorations
/// and whether it is an initialisation.
pub proof fn transactions_find_their_input(
    found: ChaincodeInput,
    args: Seq<Seq<u8>>,
    decorations: Seq<(Seq<char>, Seq<u8>)>,
    is_init: bool,
)
    requires
        fits(args),
        crate::codec::keys_differ(decorations),
        fits(entry_runs(decorations)),
        entries_fit(decorations),
    ensures
        decoded(
            Layout::ChaincodeInput,
            chaincode_input_bytes(args, decorations, is_init),
        ) is Ok,
        decoded(Layout::ChaincodeInput, chaincode_input_bytes(args, decorations, is_init)) == Ok::<
            _,
            DecodeErrorView,
        >(found.record()) ==> found.args.deep_view() == args && found.decorations@ == decorations
            && found.is_init == is_init,
{
    chaincode_input_is_read(found, args, decorations, is_init);
}

/// A transaction asks for the metadata where its first argument is the name of the
/// function that gives them, whatever the others are.
pub proof fn metadata_are_asked_for_by_name(tx: Transaction)
    ensures
        tx.asks_for_metadata() <==> tx.input.args@.len() > 0 && tx.input.args@[0]@ == encode_utf8(
            "org.hyperledger.fabric:GetMetadata"@,
        ),
{
}

/// The stub of a transaction knows its ids, its arguments and decorations, its proposal
/// and what that says, and no event yet.
pub proof fn stubs_know_their_transaction(tx: Transaction, parts: ProposalParts)
    ensures
        ({
            let stub = tx.stub_view(parts);
            &&& stub.channel_id == tx.channel_id@
            &&& stub.tx_id == tx.tx_id@
            &&& stub.args.len() == tx.input.args@.len()
            &&& forall|i: int|
                0 <= i < tx.input.args@.len() ==> (#[trigger] stub.args[i]) == tx.input.args@[i]@
            &&& stub.decorations == tx.input.decorations@
            &&& stub.creator == parts.creator
            &&& stub.transient == parts.transient
            &&& stub.tx_timestamp == parts.tx_timestamp
            &&& stub.event is None
            &&& match tx.proposal {
                None => stub.signed_proposal is None,
                Some(p) => stub.signed_proposal == Some((p.proposal_bytes@, p.signature@)),
            }
        }),
{
    let stub = tx.stub_view(parts);
    assert forall|i: int| 0 <= i < tx.input.args@.len() implies (#[trigger] stub.args[i])
        == tx.input.args@[i]@ by {
        assert(tx.input.args@[i].deep_view() =~= tx.input.args@[i]@);
    }
}

// ---- operations ------------------------------------------------------------
/// A timestamp is the time since the epoch, and the epoch itself before it.
pub proof fn timestamps_count_from_the_epoch(
    seconds: u64,
    nanos: u32,
    given: Timestamp,
    none: Timestamp,
)
    requires
        call_ensures(timestamp_of, (Some((seconds, nanos)),), given),
        call_ensures(timestamp_of, (None,), none),
        seconds <= i64::MAX,
        nanos <= i32::MAX,
    ensures
        given.seconds == seconds,
        given.nanos == nanos,
        none.seconds == 0,
        none.nanos == 0,
{
}

/// A message has the moment, the kind, the payload and the ids that it is made of, and
/// nothing else.
pub proof fn messages_have_what_they_are_made_of(
    timestamp: Timestamp,
    msg_type: MsgType,
    payload: Vec<u8>,
    channel_id: &str,
    tx_id: &str,
    m: ChaincodeMessage,
)
    requires
        call_ensures(message_at, (timestamp, msg_type, payload, channel_id, tx_id), m),
    ensures
        m.timestamp == Some(timestamp),
        m.kind() == msg_type,
        m.payload@ == payload@,
        m.channel_id@ == channel_id@,
        m.txid@ == tx_id@,
        m.proposal is None,
        m.chaincode_event is None,
{
    crate::message_type::numbers_tell_types_apart(msg_type);
}

/// The first message on a connection registers the chaincode by its name, of no channel
/// and no transaction.
pub proof fn connections_start_with_the_registration(
    name: &str,
    m: ChaincodeMessage,
    found: ChaincodeId,
)
    requires
        call_ensures(register_message, (name,), m),
        m.payload@.len() <= u64::MAX,
    ensures
        m.kind() == MsgType::Register,
        m.channel_id@.len() == 0,
        m.txid@.len() == 0,
        can_be_read::<ChaincodeId>(m.payload@),
        is_read_as(m.payload@, found) ==> found.name@ == name@,
{
    crate::message_type::numbers_tell_types_apart(MsgType::Register);
    peers_find_the_name_of_the_chaincode(found, name@);
}

/// What is done about a message of the peer, by the state and the kind of the message.
pub proof fn messages_are_answered_by_their_kind(
    state: ConnState,
    msg: ChaincodeMessage,
    given: (ConnState, Action),
)
    requires
        call_ensures(on_message, (state, msg), given),
    ensures
        msg.kind() == MsgType::Keepalive ==> given.0 == state && (given.1 matches Action::Send(m)
            && m.kind() == MsgType::Keepalive && m.payload@.len() == 0 && m.channel_id@
            == msg.channel_id@ && m.txid@ == msg.txid@),
        state == ConnState::Created && msg.kind() == MsgType::Registered ==> given.0
            == ConnState::Established && given.1 is Continue,
        state == ConnState::Established && msg.kind() == MsgType::Ready ==> given.0
            == ConnState::Ready && given.1 is Continue,
        state == ConnState::Ready && (msg.kind() == MsgType::Init || msg.kind()
            == MsgType::Transaction) ==> given.0 == state && given.1 == Action::Spawn(msg),
        state == ConnState::Ready && (msg.kind() == MsgType::Response || msg.kind()
            == MsgType::Error) ==> given.0 == state && given.1 == Action::Route(msg),
        given.1 matches Action::Close(m) ==> given.0 == state && m.kind() == MsgType::Error
            && m.channel_id@ == msg.channel_id@ && m.txid@ == msg.txid@ && m.payload@
            == encode_utf8(
            "received "@ + msg.kind().spelled() + " in state "@ + state.spelled(),
        ),
        given.1 is Continue ==> given.0 != state,
        given.1 is Spawn || given.1 is Route ==> state == ConnState::Ready,
        given.1 is Send ==> msg.kind() == MsgType::Keepalive,
        given.1 is Spawn ==> msg.kind() == MsgType::Init || msg.kind() == MsgType::Transaction,
        given.1 is Route ==> msg.kind() == MsgType::Response || msg.kind() == MsgType::Error,
{
    crate::message_type::numbers_tell_types_apart(MsgType::Keepalive);
    crate::message_type::numbers_tell_types_apart(MsgType::Error);
}

/// A request gets the peer's response itself, and a failure for anything else.
pub proof fn requests_get_the_response(
    reply: ChaincodeMessage,
    given: Result<ChaincodeMessage>,
    none: Result<ChaincodeMessage>,
)
    requires
        call_ensures(interpret_reply, (Some(reply),), given),
        call_ensures(interpret_reply, (None,), none),
    ensures
        none matches Err(e) && e@ == ErrorView::ConnectionClosed,
        given is Ok <==> reply.kind() == MsgType::Response,
        given matches Ok(m) ==> m == reply,
        reply.kind() == MsgType::Error ==> (given matches Err(e) && e@ == ErrorView::Peer(
            text::lossy(reply.payload@),
        )),
        given matches Err(e) ==> (e@ matches ErrorView::Peer(_)) || (e@ matches ErrorView::Protocol(
            _,
        )),
{
}

/// A transaction starts with the input of its message, as an initialisation where the
/// message is one, under the ids and with the proposal of the message. Where the input
/// cannot be read an error is the answer.
pub proof fn transactions_start_with_their_message(
    msg: ChaincodeMessage,
    input: ChaincodeInput,
    given: std::result::Result<Transaction, ChaincodeMessage>,
)
    requires
        call_ensures(start_transaction, (msg,), given),
    ensures
        given is Ok <==> can_be_read::<ChaincodeInput>(msg.payload@),
        given matches Err(m) ==> m.kind() == MsgType::Error && m.channel_id@ == msg.channel_id@
            && m.txid@ == msg.txid@,
        given matches Ok(tx) ==> {
            &&& tx.is_init <==> msg.kind() == MsgType::Init
            &&& tx.channel_id@ == msg.channel_id@
            &&& tx.tx_id@ == msg.txid@
            &&& tx.proposal == msg.proposal
        },
        is_read_as(msg.payload@, input) ==> (given matches Ok(tx) && tx.input.args.deep_view()
            == input.args.deep_view() && tx.input.decorations@ == input.decorations@
            && tx.input.is_init == input.is_init),
{
    crate::message_type::numbers_tell_types_apart(MsgType::Error);
    if is_read_as(msg.payload@, input) {
        let tx = given->Ok_0;
        assert(tx.input.record()[0] == input.record()[0]);
        assert(tx.input.record()[1] == input.record()[1]);
        assert(tx.input.record()[2] == input.record()[2]);
    }
}

/// A transaction whose first argument asks for the metadata is answered with them where
/// there are any; every other one runs, unless its proposal cannot be read.
pub proof fn transactions_run_unless_answered(
    tx: Transaction,
    metadata: Option<std::result::Result<Vec<u8>, String>>,
    wants: bool,
    given: Course,
)
    requires
        call_ensures(Transaction::wants_metadata, (&tx,), wants),
        call_ensures(Transaction::course, (tx, metadata), given),
    ensures
        wants <==> tx.input.args@.len() > 0 && tx.input.args@[0]@ == encode_utf8(
            "org.hyperledger.fabric:GetMetadata"@,
        ),
        wants && metadata is Some ==> (given matches Course::Answer(m) && m.kind()
            == MsgType::Completed && m.channel_id@ == tx.channel_id@ && m.txid@ == tx.tx_id@
            && m.payload@ == response_payload(
            match metadata->0 {
                Ok(json) => ResponseView { status: 200, message: seq![], payload: json@ },
                Err(fault) => ResponseView {
                    status: 500,
                    message: "failed to serialize metadata: "@ + fault@,
                    payload: seq![],
                },
            },
        )),
        !(wants && metadata is Some) ==> match parts_of(tx.proposal) {
            Ok(parts) => given matches Course::Run(stub) && stub@ == tx.stub_view(parts),
            Err(e) => given matches Course::Answer(m) && m.kind() == MsgType::Error && m.channel_id@
                == tx.channel_id@ && m.txid@ == tx.tx_id@,
        },
{
    crate::message_type::numbers_tell_types_apart(MsgType::Error);
    crate::message_type::numbers_tell_types_apart(MsgType::Completed);
}

/// The end of a transaction carries its response, its event and its ids.
pub proof fn endings_carry_the_response_and_the_event(
    response: Response,
    event: Option<ChaincodeEvent>,
    channel_id: &str,
    tx_id: &str,
    m: ChaincodeMessage,
    found: proto::Response,
)
    requires
        call_ensures(completed_message, (response, event, channel_id, tx_id), m),
        m.payload@.len() <= u64::MAX,
    ensures
        m.kind() == MsgType::Completed,
        m.channel_id@ == channel_id@,
        m.txid@ == tx_id@,
        can_be_read::<proto::Response>(m.payload@),
        is_read_as(m.payload@, found) ==> found.status == response.status && found.message@
            == response.message@ && found.payload@ == response.payload@,
        m.chaincode_event is Some <==> event is Some,
        event matches Some(e) ==> (m.chaincode_event matches Some(sent) && sent.event_name@
            == e.event_name@ && sent.payload@ == e.payload@ && sent.tx_id@ == e.tx_id@
            && sent.chaincode_id@ == e.chaincode_id@),
{
    crate::message_type::numbers_tell_types_apart(MsgType::Completed);
    peers_find_the_response(found, response@);
}

/// A handler that panicked is reported as a failure in words; one that gave a response has
/// that response. The same words report metadata that panicked.
pub proof fn panics_are_failures(
    response: Response,
    report: String,
    kept: Response,
    told: Response,
    channel_id: &str,
    tx_id: &str,
    m: ChaincodeMessage,
)
    requires
        call_ensures(outcome_response, (Ok(response),), kept),
        call_ensures(outcome_response, (Err(report),), told),
        call_ensures(metadata_panicked, (report, channel_id, tx_id), m),
    ensures
        kept == response,
        told.status == 500,
        told.message@ == "chaincode handler panicked: "@ + report@,
        told.payload@.len() == 0,
        m.kind() == MsgType::Completed,
        m.payload@ == response_payload(told@),
        m.channel_id@ == channel_id@,
        m.txid@ == tx_id@,
{
    crate::message_type::numbers_tell_types_apart(MsgType::Completed);
    assert(told@.payload.len() == 0);
}

/// Metadata are a success that carries them; where they cannot be written that is told.
pub proof fn metadata_are_a_success(
    json: std::result::Result<Vec<u8>, String>,
    response: Response,
    channel_id: &str,
    tx_id: &str,
    m: ChaincodeMessage,
)
    requires
        call_ensures(metadata_response, (json,), response),
        call_ensures(metadata_reply, (json, channel_id, tx_id), m),
    ensures
        json matches Ok(bytes) ==> response.status == 200 && response.payload@ == bytes@
            && response.message@.len() == 0,
        json matches Err(fault) ==> response.status == 500 && response.message@
            == "failed to serialize metadata: "@ + fault@ && response.payload@.len() == 0,
        m.kind() == MsgType::Completed,
        m.payload@ == response_payload(response@),
        m.channel_id@ == channel_id@,
        m.txid@ == tx_id@,
        m.chaincode_event is None,
{
    crate::message_type::numbers_tell_types_apart(MsgType::Completed);
    assert(response@.message.len() == response.message@.len());
    assert(response@.payload.len() == response.payload@.len());
}

/// A request goes out with what it is made of, and the reply of the same channel and
/// transaction is handed to who waits for it, once.
pub proof fn replies_reach_who_waits<T>(
    link: &mut PeerLink<T>,
    msg_type: MsgType,
    payload: Vec<u8>,
    channel_id: &str,
    tx_id: &str,
    waiter: T,
    sent: Result<ChaincodeMessage>,
    reply: ChaincodeMessage,
    after: &mut PeerLink<T>,
    handed: Option<T>,
    later: &mut PeerLink<T>,
    none: Option<T>,
)
    requires
        call_ensures(
            PeerLink::<T>::request,
            (link, msg_type, payload, channel_id, tx_id, waiter),
            sent,
        ),
        sent is Ok,
        reply.channel_id@ == channel_id@,
        reply.txid@ == tx_id@,
        *old(after) == *final(link),
        call_ensures(PeerLink::<T>::route_response, (after, &reply), handed),
        *old(later) == *final(after),
        call_ensures(PeerLink::<T>::route_response, (later, &reply), none),
    ensures
        sent->Ok_0.kind() == msg_type,
        sent->Ok_0.payload@ == payload@,
        sent->Ok_0.channel_id@ == channel_id@,
        sent->Ok_0.txid@ == tx_id@,
        sent->Ok_0.proposal is None,
        sent->Ok_0.chaincode_event is None,
        handed == Some(waiter),
        none is None,
        final(after)@ == old(link)@,
        final(later)@ == old(link)@,
{
    crate::message_type::numbers_tell_types_apart(msg_type);
    assert(final(after)@ =~= old(link)@);
    assert(final(later)@ =~= old(link)@);
}

/// A transaction has one request in flight at most: a second one fails and leaves the
/// first, and a request of another transaction or channel does not count.
pub proof fn transactions_wait_for_one_reply<T>(
    link: &mut PeerLink<T>,
    msg_type: MsgType,
    payload: Vec<u8>,
    channel_id: &str,
    tx_id: &str,
    waiter: T,
    sent: Result<ChaincodeMessage>,
    other: (Seq<char>, Seq<char>),
)
    requires
        call_ensures(
            PeerLink::<T>::request,
            (link, msg_type, payload, channel_id, tx_id, waiter),
            sent,
        ),
    ensures
        sent is Err <==> old(link)@.dom().contains((channel_id@, tx_id@)),
        sent matches Err(e) ==> e@ == ErrorView::Protocol(
            "another ledger request is already in flight for tx "@ + tx_id@,
        ) && final(link)@ == old(link)@,
        final(link)@.dom().contains((channel_id@, tx_id@)),
        other != (channel_id@, tx_id@) ==> (final(link)@.dom().contains(other) <==> old(
            link,
        )@.dom().contains(other)) && final(link)@[other] == old(link)@[other],
{
}

/// A reply of another channel or transaction leaves who waits for this one.
pub proof fn replies_leave_the_others_waiting<T>(
    link: &mut PeerLink<T>,
    reply: ChaincodeMessage,
    handed: Option<T>,
    other: (Seq<char>, Seq<char>),
)
    requires
        call_ensures(PeerLink::<T>::route_response, (link, &reply), handed),
        other.0 != reply.channel_id@ || other.1 != reply.txid@,
    ensures
        final(link)@.dom().contains(other) <==> old(link)@.dom().contains(other),
        final(link)@[other] == old(link)@[other],
        !final(link)@.dom().contains((reply.channel_id@, reply.txid@)),
        handed is Some <==> old(link)@.dom().contains((reply.channel_id@, reply.txid@)),
{
}

/// Where a request could not be sent, was given up, or its transaction ended, nobody waits
/// for its reply any more, and the others still wait. When the stream ends nobody waits, as
/// on a new connection.
pub proof fn waiting_ends<T>(
    unsent: &mut PeerLink<T>,
    dropped: &mut PeerLink<T>,
    closed: &mut PeerLink<T>,
    ended: &mut PeerLink<T>,
    channel_id: &str,
    tx_id: &str,
    error: Error,
    outcome: std::result::Result<Response, String>,
    event: Option<ChaincodeEvent>,
    last: ChaincodeMessage,
    fresh: PeerLink<T>,
    other: (Seq<char>, Seq<char>),
)
    requires
        call_ensures(PeerLink::<T>::send_failed, (unsent, channel_id, tx_id), error),
        call_ensures(PeerLink::<T>::drop_pending, (dropped, channel_id, tx_id), ()),
        call_ensures(PeerLink::<T>::close, (closed,), ()),
        call_ensures(
            PeerLink::<T>::finish_transaction,
            (ended, outcome, event, channel_id, tx_id),
            last,
        ),
        call_ensures(PeerLink::<T>::new, (), fresh),
        other.0 != channel_id@ || other.1 != tx_id@,
    ensures
        error@ == ErrorView::ConnectionClosed,
        !final(unsent)@.dom().contains((channel_id@, tx_id@)),
        !final(dropped)@.dom().contains((channel_id@, tx_id@)),
        !final(ended)@.dom().contains((channel_id@, tx_id@)),
        final(unsent)@.dom().contains(other) <==> old(unsent)@.dom().contains(other),
        final(dropped)@.dom().contains(other) <==> old(dropped)@.dom().contains(other),
        final(ended)@.dom().contains(other) <==> old(ended)@.dom().contains(other),
        final(unsent)@[other] == old(unsent)@[other],
        final(dropped)@[other] == old(dropped)@[other],
        final(ended)@[other] == old(ended)@[other],
        !final(closed)@.dom().contains(other),
        !fresh@.dom().contains(other),
{
}

/// The last message of a transaction is its end: it carries the response of the handler, or
/// the failure where it panicked, the event and the ids.
pub proof fn transactions_end_with_their_response<T>(
    link: &mut PeerLink<T>,
    outcome: std::result::Result<Response, String>,
    event: Option<ChaincodeEvent>,
    channel_id: &str,
    tx_id: &str,
    last: ChaincodeMessage,
    found: proto::Response,
)
    requires
        call_ensures(
            PeerLink::<T>::finish_transaction,
            (link, outcome, event, channel_id, tx_id),
            last,
        ),
        last.payload@.len() <= u64::MAX,
    ensures
        last.kind() == MsgType::Completed,
        last.channel_id@ == channel_id@,
        last.txid@ == tx_id@,
        last.proposal is None,
        can_be_read::<proto::Response>(last.payload@),
        is_read_as(last.payload@, found) ==> match outcome {
            Ok(response) => found.status == response.status && found.message@ == response.message@
                && found.payload@ == response.payload@,
            Err(report) => found.status == 500 && found.message@ == "chaincode handler panicked: "@
                + report@ && found.payload@.len() == 0,
        },
        last.chaincode_event is Some <==> event is Some,
        event matches Some(e) ==> (last.chaincode_event matches Some(sent) && sent.event_name@
            == e.event_name@ && sent.payload@ == e.payload@ && sent.tx_id@ == e.tx_id@
            && sent.chaincode_id@ == e.chaincode_id@),
{
    crate::message_type::numbers_tell_types_apart(MsgType::Completed);
    match outcome {
        Ok(response) => {
            peers_find_the_response(found, response@);
        },
        Err(report) => {
            peers_find_the_response(
                found,
                ResponseView::error("chaincode handler panicked: "@ + report@),
            );
        },
    }
}

/// What went wrong as a transaction was started is told in words, under its ids.
pub proof fn false_starts_are_told(
    msg: ChaincodeMessage,
    started: std::result::Result<Transaction, ChaincodeMessage>,
    tx: Transaction,
    built: std::result::Result<ChaincodeStub, ChaincodeMessage>,
)
    requires
        call_ensures(start_transaction, (msg,), started),
        call_ensures(Transaction::into_stub, (tx,), built),
    ensures
        started matches Err(m) ==> m.payload@ == encode_utf8(
            "failed to decode ChaincodeInput: "@ + decoded(
                ChaincodeInput::layout(),
                msg.payload@,
            )->Err_0.text(),
        ) && m.chaincode_event is None && m.proposal is None,
        built is Ok <==> parts_of(tx.proposal) is Ok,
        built matches Ok(stub) ==> stub@ == tx.stub_view(parts_of(tx.proposal)->Ok_0),
        built matches Err(m) ==> m.kind() == MsgType::Error && m.channel_id@ == tx.channel_id@
            && m.txid@ == tx.tx_id@ && m.payload@ == encode_utf8(
            "failed to build stub: "@ + "decode error: "@ + parts_of(tx.proposal)->Err_0.text(),
        ) && m.chaincode_event is None && m.proposal is None,
{
    crate::message_type::numbers_tell_types_apart(MsgType::Error);
    if let Err(m) = built {
        let said = parts_of(tx.proposal)->Err_0;
        assert("failed to build stub: "@ + ErrorView::Decode(said).text()
            =~= "failed to build stub: "@ + "decode error: "@ + said.text());
    }
}

/// A state has a name.
pub proof fn states_have_their_name(state: ConnState, name: &'static str)
    requires
        call_ensures(ConnState::name, (state,), name),
    ensures
        state == ConnState::Created ==> name@ == "Created"@,
        state == ConnState::Established ==> name@ == "Established"@,
        state == ConnState::Ready ==> name@ == "Ready"@,
{
}

/// A transaction that does not ask for metadata, or whose chaincode has none, runs with the
/// stub that is built for it, and is answered where that cannot be built.
pub proof fn courses_follow_the_stub(
    tx: Transaction,
    metadata: Option<std::result::Result<Vec<u8>, String>>,
    wants: bool,
    given: Course,
    built: std::result::Result<ChaincodeStub, ChaincodeMessage>,
)
    requires
        call_ensures(Transaction::wants_metadata, (&tx,), wants),
        call_ensures(Transaction::course, (tx, metadata), given),
        call_ensures(Transaction::into_stub, (tx,), built),
        !wants || metadata is None,
    ensures
        built matches Ok(stub) ==> (given matches Course::Run(same) && same@ == stub@),
        built matches Err(told) ==> (given matches Course::Answer(m) && m.kind() == MsgType::Error
            && m.payload@ == told.payload@ && m.channel_id@ == told.channel_id@ && m.txid@
            == told.txid@ && m.chaincode_event is None),
{
    crate::message_type::numbers_tell_types_apart(MsgType::Error);
}

/// A message of now has the kind, the payload and the ids that it is made of, some moment,
/// and nothing else.
pub proof fn messages_of_now_have_a_moment(
    msg_type: MsgType,
    payload: Vec<u8>,
    channel_id: &str,
    tx_id: &str,
    m: ChaincodeMessage,
)
    requires
        call_ensures(new_message, (msg_type, payload, channel_id, tx_id), m),
    ensures
        m.timestamp matches Some(t) && 0 <= t.nanos < 1_000_000_000,
        m.kind() == msg_type,
        m.payload@ == payload@,
        m.channel_id@ == channel_id@,
        m.txid@ == tx_id@,
        m.proposal is None,
        m.chaincode_event is None,
{
    crate::message_type::numbers_tell_types_apart(msg_type);
}

} // verus!

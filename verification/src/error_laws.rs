//! What failures and outcomes say.

use vstd::prelude::*;
use vstd::utf8::{encode_utf8, encode_utf8_decode_utf8, encode_utf8_valid_utf8};

use crate::error::{kind_text, path_text, wire_type_name, DecodeError, DecodeErrorView};
use crate::error::{Error, ErrorView};
use crate::handler::ConnState;
use crate::message_type::MsgType;
use crate::proto;
use crate::proto::ChaincodeMessage;
use crate::response::{Response, ResponseView};
use crate::text::{decimal, decimal_text, lossy, lossy_keeps_text, signed_decimal};
use crate::text::signed_decimal_text;
use crate::wire::{DecodeErrorKind, WireType};

verus! {

// ---- failures --------------------------------------------------------------
/// Every error says what kind of failure it is and then its detail.
pub proof fn errors_say_their_kind_and_detail(detail: Seq<char>, fault: DecodeErrorView)
    ensures
        ErrorView::Peer(detail).text() == "peer error: "@ + detail,
        ErrorView::Protocol(detail).text() == "protocol error: "@ + detail,
        ErrorView::Config(detail).text() == "configuration error: "@ + detail,
        ErrorView::InvalidArgument(detail).text() == "invalid argument: "@ + detail,
        ErrorView::Transport(detail).text() == "transport error: "@ + detail,
        ErrorView::ConnectionClosed.text() == "connection to peer closed"@,
        ErrorView::Decode(fault).text() == "decode error: failed to decode Protobuf message: "@
            + path_text(fault.path) + kind_text(fault.kind),
{
    reveal_strlit("decode error: ");
    reveal_strlit("failed to decode Protobuf message: ");
    reveal_strlit("decode error: failed to decode Protobuf message: ");
    assert("decode error: failed to decode Protobuf message: "@ =~= "decode error: "@
        + "failed to decode Protobuf message: "@);
    assert(ErrorView::Decode(fault).text()
        =~= "decode error: failed to decode Protobuf message: "@ + path_text(fault.path)
        + kind_text(fault.kind));
}

/// The places of a fault are told in the order in which they are noted, each with its
/// message and its field.
pub proof fn faults_are_told_with_their_places(
    fault: DecodeErrorView,
    message: Seq<char>,
    field: Seq<char>,
    kind: DecodeErrorKind,
)
    ensures
        fault.within(message, field).kind == fault.kind,
        path_text(fault.within(message, field).path) == path_text(fault.path) + message + "."@
            + field + ": "@,
        DecodeErrorView::plain(kind).kind == kind,
        path_text(DecodeErrorView::plain(kind).path).len() == 0,
{
    let longer = fault.within(message, field).path;
    assert(longer.drop_last() =~= fault.path);
    assert(path_text(longer) =~= path_text(fault.path) + message + "."@ + field + ": "@);
}

/// What a decoding failure says of itself.
pub proof fn decoding_failures_are_told_by_their_kind(
    value: u64,
    actual: WireType,
    expected: WireType,
)
    ensures
        kind_text(DecodeErrorKind::InvalidVarint) == "invalid varint"@,
        kind_text(DecodeErrorKind::RecursionLimitReached) == "recursion limit reached"@,
        kind_text(DecodeErrorKind::InvalidWireType { value }) == "invalid wire type value: "@
            + decimal(value as nat),
        kind_text(DecodeErrorKind::InvalidKey { key: value }) == "invalid key value: "@ + decimal(
            value as nat,
        ),
        kind_text(DecodeErrorKind::InvalidTag) == "invalid tag value: 0"@,
        kind_text(DecodeErrorKind::UnexpectedWireType { actual, expected })
            == "invalid wire type: "@ + wire_type_name(actual) + " (expected "@ + wire_type_name(
            expected,
        ) + ")"@,
        kind_text(DecodeErrorKind::BufferUnderflow) == "buffer underflow"@,
        kind_text(DecodeErrorKind::DelimitedLengthExceeded) == "delimited length exceeded"@,
        kind_text(DecodeErrorKind::UnexpectedEndGroupTag) == "unexpected end group tag"@,
        kind_text(DecodeErrorKind::InvalidString)
            == "invalid string value: data is not UTF-8 encoded"@,
        wire_type_name(WireType::Varint) == "Varint"@,
        wire_type_name(WireType::SixtyFourBit) == "SixtyFourBit"@,
        wire_type_name(WireType::LengthDelimited) == "LengthDelimited"@,
        wire_type_name(WireType::StartGroup) == "StartGroup"@,
        wire_type_name(WireType::EndGroup) == "EndGroup"@,
        wire_type_name(WireType::ThirtyTwoBit) == "ThirtyTwoBit"@,
{
}

/// A failure is seen with all its places, the innermost first.
pub proof fn failures_are_seen_with_their_places(e: DecodeError, i: int)
    ensures
        e@.kind == e.kind,
        e@.path.len() == e.path@.len(),
        0 <= i < e.path@.len() ==> e@.path[i] == (e.path@[i].message@, e.path@[i].field@),
{
}

/// The states of a connection by name.
pub proof fn states_are_told_by_name()
    ensures
        ConnState::Created.spelled() == "Created"@,
        ConnState::Established.spelled() == "Established"@,
        ConnState::Ready.spelled() == "Ready"@,
{
}

// ---- outcomes --------------------------------------------------------------
/// A success has the status 200, no message and the payload; a failure the status 500,
/// the message and no payload. From 400 on a status is a failure.
pub proof fn outcomes_have_their_status(payload: Seq<u8>, message: Seq<char>, given: Response)
    ensures
        ResponseView::success(payload).status == 200,
        ResponseView::success(payload).message.len() == 0,
        ResponseView::success(payload).payload == payload,
        ResponseView::error(message).status == 500,
        ResponseView::error(message).message == message,
        ResponseView::error(message).payload.len() == 0,
        given@.is_error() <==> given.status >= 400,
        given@.status == given.status,
        given@.message == given.message@,
        given@.payload == given.payload@,
{
}

// ---- kinds of messages -----------------------------------------------------
/// The numbers by which the peer knows the kinds of messages, and their names.
pub proof fn kinds_have_the_numbers_of_the_protocol()
    ensures
        MsgType::Undefined.number() == 0 && MsgType::Undefined.spelled() == "Undefined"@,
        MsgType::Register.number() == 1 && MsgType::Register.spelled() == "Register"@,
        MsgType::Registered.number() == 2 && MsgType::Registered.spelled() == "Registered"@,
        MsgType::Init.number() == 3 && MsgType::Init.spelled() == "Init"@,
        MsgType::Ready.number() == 4 && MsgType::Ready.spelled() == "Ready"@,
        MsgType::Transaction.number() == 5 && MsgType::Transaction.spelled() == "Transaction"@,
        MsgType::Completed.number() == 6 && MsgType::Completed.spelled() == "Completed"@,
        MsgType::Error.number() == 7 && MsgType::Error.spelled() == "Error"@,
        MsgType::GetState.number() == 8 && MsgType::GetState.spelled() == "GetState"@,
        MsgType::PutState.number() == 9 && MsgType::PutState.spelled() == "PutState"@,
        MsgType::DelState.number() == 10 && MsgType::DelState.spelled() == "DelState"@,
        MsgType::InvokeChaincode.number() == 11 && MsgType::InvokeChaincode.spelled()
            == "InvokeChaincode"@,
        MsgType::Response.number() == 13 && MsgType::Response.spelled() == "Response"@,
        MsgType::GetStateByRange.number() == 14 && MsgType::GetStateByRange.spelled()
            == "GetStateByRange"@,
        MsgType::GetQueryResult.number() == 15 && MsgType::GetQueryResult.spelled()
            == "GetQueryResult"@,
        MsgType::QueryStateNext.number() == 16 && MsgType::QueryStateNext.spelled()
            == "QueryStateNext"@,
        MsgType::QueryStateClose.number() == 17 && MsgType::QueryStateClose.spelled()
            == "QueryStateClose"@,
        MsgType::Keepalive.number() == 18 && MsgType::Keepalive.spelled() == "Keepalive"@,
        MsgType::GetHistoryForKey.number() == 19 && MsgType::GetHistoryForKey.spelled()
            == "GetHistoryForKey"@,
        MsgType::GetStateMetadata.number() == 20 && MsgType::GetStateMetadata.spelled()
            == "GetStateMetadata"@,
        MsgType::PutStateMetadata.number() == 21 && MsgType::PutStateMetadata.spelled()
            == "PutStateMetadata"@,
        MsgType::GetPrivateDataHash.number() == 22 && MsgType::GetPrivateDataHash.spelled()
            == "GetPrivateDataHash"@,
        MsgType::PurgePrivateData.number() == 23 && MsgType::PurgePrivateData.spelled()
            == "PurgePrivateData"@,
        MsgType::WriteBatchState.number() == 24 && MsgType::WriteBatchState.spelled()
            == "WriteBatchState"@,
        MsgType::GetStateMultiple.number() == 25 && MsgType::GetStateMultiple.spelled()
            == "GetStateMultiple"@,
{
}

/// A number is that of a kind, or no kind has it and it counts as undefined.
pub proof fn other_numbers_are_undefined(number: i32)
    ensures
        MsgType::numbered(number) != MsgType::Undefined ==> MsgType::numbered(number).number()
            == number,
        number < 0 || number == 12 || number > 25 ==> MsgType::numbered(number)
            == MsgType::Undefined,
        0 < number <= 25 && number != 12 ==> MsgType::numbered(number) != MsgType::Undefined,
{
}

/// Bytes that are text are read as that text.
pub proof fn bytes_that_are_text_are_read_as_it(text: Seq<char>)
    requires
        lossy_keeps_text(encode_utf8(text)),
    ensures
        lossy(encode_utf8(text)) == text,
{
    encode_utf8_valid_utf8(text);
    encode_utf8_decode_utf8(text);
}

// ---- numbers in words ------------------------------------------------------
/// The number that decimal digits write.
pub open spec fn base_10(digits: Seq<char>) -> nat
    decreases digits.len(),
{
    if digits.len() == 0 {
        0
    } else {
        10 * base_10(digits.drop_last()) + (digits.last() as nat - '0' as nat) as nat
    }
}

/// A number in decimal is made of the digits that write it, without a zero in front;
/// a negative one has a minus sign before them.
pub proof fn decimals_write_their_number(value: nat, negative: int)
    requires
        negative < 0,
    ensures
        base_10(decimal(value)) == value,
        decimal(value).len() >= 1,
        forall|i: int|
            0 <= i < decimal(value).len() ==> '0' <= (#[trigger] decimal(value)[i]) <= '9',
        decimal(value).len() > 1 ==> decimal(value)[0] != '0',
        signed_decimal(value as int) == decimal(value),
        signed_decimal(negative) == seq!['-'] + decimal((-negative) as nat),
    decreases value,
{
    let all = decimal(value);
    if value < 10 {
        assert(all.drop_last() =~= Seq::<char>::empty());
        assert(base_10(all.drop_last()) == 0);
        assert(all[0] as int == 48 + value);
    } else {
        let high = value / 10;
        decimals_write_their_number(high, negative);
        assert(all.drop_last() =~= decimal(high));
        assert(all.last() as int == 48 + value % 10);
        assert forall|i: int| 0 <= i < all.len() implies '0' <= (#[trigger] all[i]) <= '9' by {
            if i < all.len() - 1 {
                assert(all[i] == decimal(high)[i]);
            }
        }
        assert(all[0] == decimal(high)[0]);
        if decimal(high).len() == 1 {
            assert(decimal(high).drop_last() =~= Seq::<char>::empty());
            assert(base_10(decimal(high).drop_last()) == 0);
            assert('0' <= decimal(high)[0]);
            assert(base_10(decimal(high)) == decimal(high)[0] as int - 48);
        }
    }
}

// ---- operations ------------------------------------------------------------
/// A success and a failure have the status, the message and the payload that they are made
/// of, and are told apart.
pub proof fn outcomes_are_made_and_told_apart(
    payload: Vec<u8>,
    message: String,
    success: Response,
    empty: Response,
    failure: Response,
    given: Response,
    is_error: bool,
)
    requires
        call_ensures(Response::success, (payload,), success),
        call_ensures(Response::success_empty, (), empty),
        call_ensures(Response::error, (message,), failure),
        call_ensures(Response::is_error, (&given,), is_error),
    ensures
        success.status == 200 && success.message@.len() == 0 && success.payload@ == payload@,
        empty.status == 200 && empty.message@.len() == 0 && empty.payload@.len() == 0,
        failure.status == 500 && failure.message@ == message@ && failure.payload@.len() == 0,
        is_error <==> given.status >= 400,
{
    assert(success@.message.len() == success.message@.len());
    assert(empty@.message.len() == empty.message@.len());
    assert(empty@.payload.len() == empty.payload@.len());
    assert(failure@.payload.len() == failure.payload@.len());
}

/// A response goes over the wire and comes back with the same fields.
pub proof fn responses_keep_their_fields(
    response: Response,
    wire: proto::Response,
    back: Response,
)
    requires
        call_ensures(Response::into_proto, (response,), wire),
        call_ensures(Response::from_proto, (wire,), back),
    ensures
        wire.status == response.status && wire.message@ == response.message@ && wire.payload@
            == response.payload@,
        back.status == response.status && back.message@ == response.message@ && back.payload@
            == response.payload@,
{
    assert(back@.status == back.status);
}

/// An error in words is what its view says.
pub proof fn errors_are_told_in_words(
    error: Error,
    said: String,
    fault: DecodeError,
    told: String,
)
    requires
        call_ensures(Error::message, (&error,), said),
        call_ensures(DecodeError::message, (&fault,), told),
    ensures
        error matches Error::Peer(detail) ==> said@ == "peer error: "@ + detail@,
        error matches Error::Protocol(detail) ==> said@ == "protocol error: "@ + detail@,
        error matches Error::Config(detail) ==> said@ == "configuration error: "@ + detail@,
        error matches Error::InvalidArgument(detail) ==> said@ == "invalid argument: "@ + detail@,
        error matches Error::Transport(detail) ==> said@ == "transport error: "@ + detail@,
        error is ConnectionClosed ==> said@ == "connection to peer closed"@,
        error matches Error::Decode(inner) ==> inner == fault
            ==> said@ == "decode error: "@ + told@,
        told@ == "failed to decode Protobuf message: "@ + path_text(fault@.path) + kind_text(
            fault.kind,
        ),
{
}

/// Kinds of messages, their numbers and their names go together.
pub proof fn kinds_and_numbers_go_together(
    kind: MsgType,
    number: i32,
    name: &'static str,
    back: MsgType,
    m: ChaincodeMessage,
    of_message: MsgType,
)
    requires
        call_ensures(MsgType::code, (kind,), number),
        call_ensures(MsgType::name, (kind,), name),
        call_ensures(MsgType::from_code, (number,), back),
        call_ensures(ChaincodeMessage::msg_type, (&m,), of_message),
    ensures
        number == kind.number(),
        name@ == kind.spelled(),
        back == kind,
        m.type_code == number ==> of_message == kind,
{
    crate::message_type::numbers_tell_types_apart(kind);
}

/// The outcome of a function is its response, or the failure in its words.
pub proof fn failures_are_responses_in_words(
    response: Response,
    message: String,
    kept: Response,
    told: Response,
)
    requires
        call_ensures(
            <Response as From<std::result::Result<Response, String>>>::from,
            (Ok(response),),
            kept,
        ),
        call_ensures(
            <Response as From<std::result::Result<Response, String>>>::from,
            (Err(message),),
            told,
        ),
    ensures
        kept == response,
        told.status == 500,
        told.message@ == message@,
        told.payload@.len() == 0,
{
    assert(told@.payload.len() == told.payload@.len());
    assert(told@.status == told.status);
}

/// Numbers are written in decimal digits, with the sign in front where they are negative.
pub proof fn numbers_are_written_in_decimal(
    value: u64,
    written: String,
    signed: i64,
    with_sign: String,
)
    requires
        call_ensures(decimal_text, (value,), written),
        call_ensures(signed_decimal_text, (signed,), with_sign),
    ensures
        base_10(written@) == value,
        written@.len() >= 1,
        written@.len() > 1 ==> written@[0] != '0',
        signed >= 0 ==> base_10(with_sign@) == signed,
        signed < 0 ==> with_sign@.len() > 1 && with_sign@[0] == '-' && base_10(with_sign@.skip(1))
            == -signed,
{
    decimals_write_their_number(value as nat, -1);
    if signed >= 0 {
        decimals_write_their_number(signed as nat, -1);
    } else {
        decimals_write_their_number((-signed) as nat, signed as int);
        assert(with_sign@.skip(1) =~= decimal((-signed) as nat));
    }
}

} // verus!

//! What stands where in the bytes of the messages: which field of a message is
//! under which tag, and how its values are laid out.

use vstd::prelude::*;
use vstd::utf8::encode_utf8;

use crate::codec::{blank_record, decoded, encoded_from};
use crate::codec::{fields_merged, keys_differ, Datum, Message, RECURSION_LIMIT};
use crate::error::DecodeErrorView;
use crate::layout::{fields, title, Layout};
use crate::proto::{ChaincodeEvent, ChaincodeId, ChaincodeInput, ChaincodeMessage};
use crate::proto::{ChaincodeProposalPayload, ChaincodeSpec, ChannelHeader, DelState};
use crate::proto::{GetHistoryForKey, GetQueryResult, GetState, GetStateByRange, Header};
use crate::proto::{KeyModification, Kv, Proposal, PurgePrivateState, PutState};
use crate::proto::{QueryMetadata, QueryResponse, QueryResponseMetadata, QueryResultBytes};
use crate::proto::{QueryStateClose, QueryStateNext, Response, SerializedIdentity};
use crate::proto::{SignatureHeader, SignedProposal, Timestamp};
use crate::wire_form::{entries_fit, entry_runs, fits, lemma_same_results, number};
use crate::wire_form::{result_records, result_runs, run, runs, set_entry_runs};
use crate::wire_form::{set_message, set_number, set_result_runs, set_run, truth, written};
use crate::wire_form::{step_bytes, step_entries, step_message, step_number};
use crate::wire_form::{step_results, step_runs, step_text, write_bytes, write_entries};
use crate::wire_form::{write_message, write_number, write_results, write_runs, write_text};

verus! {

// ---- Timestamp -------------------------------------------------------------
/// The bytes of a [`Timestamp`] with every field in place.
pub open spec fn timestamp_bytes(
    seconds: i64,
    nanos: i32,
) -> Seq<u8> {
    number(1, seconds as int)
        + number(2, nanos as int)
}

/// The values that those bytes hold.
pub open spec fn timestamp_record(
    seconds: i64,
    nanos: i32,
) -> Seq<Datum> {
    seq![
        Datum::Int(seconds as int),
        Datum::Int(nanos as int),
    ]
}

pub(crate) proof fn lemma_timestamp(
    seconds: i64,
    nanos: i32,
    rest: Seq<u8>,
    depth: nat,
)
    ensures
        fields_merged(
            Layout::Timestamp,
            blank_record(Layout::Timestamp),
            timestamp_bytes(seconds, nanos) + rest,
            rest.len(),
            depth,
        ) == Ok::<_, DecodeErrorView>((timestamp_record(seconds, nanos), rest)),
{
    reveal(fields);
    let l = Layout::Timestamp;
    let r0 = blank_record(l);
    let t2 = rest;
    let t1 = number(2, nanos as int) + t2;
    let t0 = number(1, seconds as int) + t1;
    assert(timestamp_bytes(seconds, nanos) + rest =~= t0);
    let r1 = r0.update(0, Datum::Int(seconds as int));
    step_number(l, r0, 1, seconds as int, t1, rest.len(), depth);
    let r2 = r1.update(1, Datum::Int(nanos as int));
    step_number(l, r1, 2, nanos as int, t2, rest.len(), depth);
    assert(r2 =~= timestamp_record(seconds, nanos));
}

/// What is read of the bytes of a [`Timestamp`] has each value in its field.
pub proof fn timestamp_is_read(
    m: Timestamp,
    seconds: i64,
    nanos: i32,
)
    ensures
        decoded(Timestamp::layout(), timestamp_bytes(seconds, nanos)) is Ok,
        decoded(
            Timestamp::layout(),
            timestamp_bytes(seconds, nanos),
        ) == Ok::<_, DecodeErrorView>(m.record()) ==> {
            &&& m.seconds == seconds
            &&& m.nanos == nanos
        },
{
    lemma_timestamp(seconds, nanos, seq![], RECURSION_LIMIT as nat);
    assert(
        timestamp_bytes(seconds, nanos) + Seq::<u8>::empty() =~= timestamp_bytes(seconds, nanos)
    );
    if m.record() == timestamp_record(seconds, nanos) {
        let r = timestamp_record(seconds, nanos);
        assert(m.record()[0] == r[0]);
        assert(m.record()[1] == r[1]);
    }
}

/// The bytes that a [`Timestamp`] is written as.
pub proof fn timestamp_is_written(m: Timestamp)
    ensures
        written(m) == set_number(1, m.seconds as int)
            + set_number(2, m.nanos as int),
{
    reveal(fields);
    let l = Layout::Timestamp;
    let r = m.record();
    let e2 = encoded_from(l, r, 2);
    assert(e2 == Seq::<u8>::empty());
    write_number(fields(l)[1], m.nanos as int);
    let e1 = set_number(2, m.nanos as int) + e2;
    assert(encoded_from(l, r, 1) == e1);
    write_number(fields(l)[0], m.seconds as int);
    let e0 = set_number(1, m.seconds as int) + e1;
    assert(encoded_from(l, r, 0) == e0);
    assert(written(m) =~= set_number(1, m.seconds as int)
        + set_number(2, m.nanos as int));
}

/// The names of a [`Timestamp`] and its fields, in reports of faults.
pub proof fn timestamp_is_told_by_name()
    ensures
        Timestamp::layout() == Layout::Timestamp,
        title(Layout::Timestamp) == Some("Timestamp"@),
        fields(Layout::Timestamp).len() == 2,
        fields(Layout::Timestamp)[0].name@ == "seconds"@,
        fields(Layout::Timestamp)[1].name@ == "nanos"@,
{
    reveal(fields);
}

/// A [`Timestamp`] is in order where its maps hold no key twice.
pub proof fn timestamp_is_in_order(m: Timestamp)
    ensures
        m.well_formed(),
{
}

// ---- SignedProposal --------------------------------------------------------
/// The bytes of a [`SignedProposal`] with every field in place.
pub open spec fn signed_proposal_bytes(
    proposal_bytes: Seq<u8>,
    signature: Seq<u8>,
) -> Seq<u8> {
    run(1, proposal_bytes)
        + run(2, signature)
}

spec fn signed_proposal_record(
    proposal_bytes: Seq<u8>,
    signature: Seq<u8>,
) -> Seq<Datum> {
    seq![
        Datum::Bytes(proposal_bytes),
        Datum::Bytes(signature),
    ]
}

proof fn lemma_signed_proposal(
    proposal_bytes: Seq<u8>,
    signature: Seq<u8>,
    rest: Seq<u8>,
    depth: nat,
)
    requires
        proposal_bytes.len() <= u64::MAX,
        signature.len() <= u64::MAX,
    ensures
        fields_merged(
            Layout::SignedProposal,
            blank_record(Layout::SignedProposal),
            signed_proposal_bytes(proposal_bytes, signature) + rest,
            rest.len(),
            depth,
        ) == Ok::<_, DecodeErrorView>((signed_proposal_record(proposal_bytes, signature), rest)),
{
    reveal(fields);
    let l = Layout::SignedProposal;
    let r0 = blank_record(l);
    let t2 = rest;
    let t1 = run(2, signature) + t2;
    let t0 = run(1, proposal_bytes) + t1;
    assert(signed_proposal_bytes(proposal_bytes, signature) + rest =~= t0);
    let r1 = r0.update(0, Datum::Bytes(proposal_bytes));
    step_bytes(l, r0, 1, proposal_bytes, t1, rest.len(), depth);
    let r2 = r1.update(1, Datum::Bytes(signature));
    step_bytes(l, r1, 2, signature, t2, rest.len(), depth);
    assert(r2 =~= signed_proposal_record(proposal_bytes, signature));
}

/// What is read of the bytes of a [`SignedProposal`] has each value in its field.
pub proof fn signed_proposal_is_read(
    m: SignedProposal,
    proposal_bytes: Seq<u8>,
    signature: Seq<u8>,
)
    requires
        proposal_bytes.len() <= u64::MAX,
        signature.len() <= u64::MAX,
    ensures
        decoded(SignedProposal::layout(), signed_proposal_bytes(proposal_bytes, signature)) is Ok,
        decoded(
            SignedProposal::layout(),
            signed_proposal_bytes(proposal_bytes, signature),
        ) == Ok::<_, DecodeErrorView>(m.record()) ==> {
            &&& m.proposal_bytes@ == proposal_bytes
            &&& m.signature@ == signature
        },
{
    lemma_signed_proposal(proposal_bytes, signature, seq![], RECURSION_LIMIT as nat);
    assert(
        signed_proposal_bytes(
            proposal_bytes,
            signature,
        ) + Seq::<u8>::empty() =~= signed_proposal_bytes(proposal_bytes, signature)
    );
    if m.record() == signed_proposal_record(proposal_bytes, signature) {
        let r = signed_proposal_record(proposal_bytes, signature);
        assert(m.record()[0] == r[0]);
        assert(m.record()[1] == r[1]);
    }
}

/// The bytes that a [`SignedProposal`] is written as.
pub proof fn signed_proposal_is_written(m: SignedProposal)
    ensures
        written(m) == set_run(1, m.proposal_bytes@)
            + set_run(2, m.signature@),
{
    reveal(fields);
    let l = Layout::SignedProposal;
    let r = m.record();
    let e2 = encoded_from(l, r, 2);
    assert(e2 == Seq::<u8>::empty());
    write_bytes(fields(l)[1], m.signature@);
    let e1 = set_run(2, m.signature@) + e2;
    assert(encoded_from(l, r, 1) == e1);
    write_bytes(fields(l)[0], m.proposal_bytes@);
    let e0 = set_run(1, m.proposal_bytes@) + e1;
    assert(encoded_from(l, r, 0) == e0);
    assert(written(m) =~= set_run(1, m.proposal_bytes@)
        + set_run(2, m.signature@));
}

/// The names of a [`SignedProposal`] and its fields, in reports of faults.
pub proof fn signed_proposal_is_told_by_name()
    ensures
        SignedProposal::layout() == Layout::SignedProposal,
        title(Layout::SignedProposal) == Some("SignedProposal"@),
        fields(Layout::SignedProposal).len() == 2,
        fields(Layout::SignedProposal)[0].name@ == "proposal_bytes"@,
        fields(Layout::SignedProposal)[1].name@ == "signature"@,
{
    reveal(fields);
}

/// A [`SignedProposal`] is in order where its maps hold no key twice.
pub proof fn signed_proposal_is_in_order(m: SignedProposal)
    ensures
        m.well_formed(),
{
}

// ---- ChaincodeEvent --------------------------------------------------------
/// The bytes of a [`ChaincodeEvent`] with every field in place.
pub open spec fn chaincode_event_bytes(
    chaincode_id: Seq<char>,
    tx_id: Seq<char>,
    event_name: Seq<char>,
    payload: Seq<u8>,
) -> Seq<u8> {
    run(1, encode_utf8(chaincode_id))
        + run(2, encode_utf8(tx_id))
        + run(3, encode_utf8(event_name))
        + run(4, payload)
}

spec fn chaincode_event_record(
    chaincode_id: Seq<char>,
    tx_id: Seq<char>,
    event_name: Seq<char>,
    payload: Seq<u8>,
) -> Seq<Datum> {
    seq![
        Datum::Text(chaincode_id),
        Datum::Text(tx_id),
        Datum::Text(event_name),
        Datum::Bytes(payload),
    ]
}

proof fn lemma_chaincode_event(
    chaincode_id: Seq<char>,
    tx_id: Seq<char>,
    event_name: Seq<char>,
    payload: Seq<u8>,
    rest: Seq<u8>,
    depth: nat,
)
    requires
        encode_utf8(chaincode_id).len() <= u64::MAX,
        encode_utf8(tx_id).len() <= u64::MAX,
        encode_utf8(event_name).len() <= u64::MAX,
        payload.len() <= u64::MAX,
    ensures
        fields_merged(
            Layout::ChaincodeEvent,
            blank_record(Layout::ChaincodeEvent),
            chaincode_event_bytes(chaincode_id, tx_id, event_name, payload) + rest,
            rest.len(),
            depth,
        ) == Ok::<_, DecodeErrorView>(
            (chaincode_event_record(chaincode_id, tx_id, event_name, payload), rest),
        ),
{
    reveal(fields);
    let l = Layout::ChaincodeEvent;
    let r0 = blank_record(l);
    let t4 = rest;
    let t3 = run(4, payload) + t4;
    let t2 = run(3, encode_utf8(event_name)) + t3;
    let t1 = run(2, encode_utf8(tx_id)) + t2;
    let t0 = run(1, encode_utf8(chaincode_id)) + t1;
    assert(chaincode_event_bytes(chaincode_id, tx_id, event_name, payload) + rest =~= t0);
    let r1 = r0.update(0, Datum::Text(chaincode_id));
    step_text(l, r0, 1, chaincode_id, t1, rest.len(), depth);
    let r2 = r1.update(1, Datum::Text(tx_id));
    step_text(l, r1, 2, tx_id, t2, rest.len(), depth);
    let r3 = r2.update(2, Datum::Text(event_name));
    step_text(l, r2, 3, event_name, t3, rest.len(), depth);
    let r4 = r3.update(3, Datum::Bytes(payload));
    step_bytes(l, r3, 4, payload, t4, rest.len(), depth);
    assert(r4 =~= chaincode_event_record(chaincode_id, tx_id, event_name, payload));
}

/// What is read of the bytes of a [`ChaincodeEvent`] has each value in its field.
pub proof fn chaincode_event_is_read(
    m: ChaincodeEvent,
    chaincode_id: Seq<char>,
    tx_id: Seq<char>,
    event_name: Seq<char>,
    payload: Seq<u8>,
)
    requires
        encode_utf8(chaincode_id).len() <= u64::MAX,
        encode_utf8(tx_id).len() <= u64::MAX,
        encode_utf8(event_name).len() <= u64::MAX,
        payload.len() <= u64::MAX,
    ensures
        decoded(
            ChaincodeEvent::layout(),
            chaincode_event_bytes(chaincode_id, tx_id, event_name, payload),
        ) is Ok,
        decoded(
            ChaincodeEvent::layout(),
            chaincode_event_bytes(chaincode_id, tx_id, event_name, payload),
        ) == Ok::<_, DecodeErrorView>(m.record()) ==> {
            &&& m.chaincode_id@ == chaincode_id
            &&& m.tx_id@ == tx_id
            &&& m.event_name@ == event_name
            &&& m.payload@ == payload
        },
{
    lemma_chaincode_event(chaincode_id, tx_id, event_name, payload, seq![], RECURSION_LIMIT as nat);
    assert(
        chaincode_event_bytes(
            chaincode_id,
            tx_id,
            event_name,
            payload,
        ) + Seq::<u8>::empty() =~= chaincode_event_bytes(chaincode_id, tx_id, event_name, payload)
    );
    if m.record() == chaincode_event_record(chaincode_id, tx_id, event_name, payload) {
        let r = chaincode_event_record(chaincode_id, tx_id, event_name, payload);
        assert(m.record()[0] == r[0]);
        assert(m.record()[1] == r[1]);
        assert(m.record()[2] == r[2]);
        assert(m.record()[3] == r[3]);
    }
}

/// The bytes that a [`ChaincodeEvent`] is written as.
pub proof fn chaincode_event_is_written(m: ChaincodeEvent)
    ensures
        written(m) == set_run(1, encode_utf8(m.chaincode_id@))
            + set_run(2, encode_utf8(m.tx_id@))
            + set_run(3, encode_utf8(m.event_name@))
            + set_run(4, m.payload@),
{
    reveal(fields);
    let l = Layout::ChaincodeEvent;
    let r = m.record();
    let e4 = encoded_from(l, r, 4);
    assert(e4 == Seq::<u8>::empty());
    write_bytes(fields(l)[3], m.payload@);
    let e3 = set_run(4, m.payload@) + e4;
    assert(encoded_from(l, r, 3) == e3);
    write_text(fields(l)[2], m.event_name@);
    let e2 = set_run(3, encode_utf8(m.event_name@)) + e3;
    assert(encoded_from(l, r, 2) == e2);
    write_text(fields(l)[1], m.tx_id@);
    let e1 = set_run(2, encode_utf8(m.tx_id@)) + e2;
    assert(encoded_from(l, r, 1) == e1);
    write_text(fields(l)[0], m.chaincode_id@);
    let e0 = set_run(1, encode_utf8(m.chaincode_id@)) + e1;
    assert(encoded_from(l, r, 0) == e0);
    assert(written(m) =~= set_run(1, encode_utf8(m.chaincode_id@))
        + set_run(2, encode_utf8(m.tx_id@))
        + set_run(3, encode_utf8(m.event_name@))
        + set_run(4, m.payload@));
}

/// The names of a [`ChaincodeEvent`] and its fields, in reports of faults.
pub proof fn chaincode_event_is_told_by_name()
    ensures
        ChaincodeEvent::layout() == Layout::ChaincodeEvent,
        title(Layout::ChaincodeEvent) == Some("ChaincodeEvent"@),
        fields(Layout::ChaincodeEvent).len() == 4,
        fields(Layout::ChaincodeEvent)[0].name@ == "chaincode_id"@,
        fields(Layout::ChaincodeEvent)[1].name@ == "tx_id"@,
        fields(Layout::ChaincodeEvent)[2].name@ == "event_name"@,
        fields(Layout::ChaincodeEvent)[3].name@ == "payload"@,
{
    reveal(fields);
}

/// A [`ChaincodeEvent`] is in order where its maps hold no key twice.
pub proof fn chaincode_event_is_in_order(m: ChaincodeEvent)
    ensures
        m.well_formed(),
{
}

// ---- ChaincodeMessage ------------------------------------------------------
/// The bytes of a [`ChaincodeMessage`] with every field in place.
pub open spec fn chaincode_message_bytes(
    type_code: i32,
    timestamp_seconds: i64,
    timestamp_nanos: i32,
    payload: Seq<u8>,
    txid: Seq<char>,
    proposal_proposal_bytes: Seq<u8>,
    proposal_signature: Seq<u8>,
    chaincode_event_chaincode_id: Seq<char>,
    chaincode_event_tx_id: Seq<char>,
    chaincode_event_event_name: Seq<char>,
    chaincode_event_payload: Seq<u8>,
    channel_id: Seq<char>,
) -> Seq<u8> {
    number(1, type_code as int)
        + (run(2, timestamp_bytes(timestamp_seconds, timestamp_nanos))
        + (run(3, payload)
        + (run(4, encode_utf8(txid))
        + (run(5, signed_proposal_bytes(proposal_proposal_bytes, proposal_signature))
        + (run(
        6,
        chaincode_event_bytes(
            chaincode_event_chaincode_id,
            chaincode_event_tx_id,
            chaincode_event_event_name,
            chaincode_event_payload,
        ),
    ) + (run(7, encode_utf8(channel_id))))))))
}

spec fn chaincode_message_record(
    type_code: i32,
    timestamp_seconds: i64,
    timestamp_nanos: i32,
    payload: Seq<u8>,
    txid: Seq<char>,
    proposal_proposal_bytes: Seq<u8>,
    proposal_signature: Seq<u8>,
    chaincode_event_chaincode_id: Seq<char>,
    chaincode_event_tx_id: Seq<char>,
    chaincode_event_event_name: Seq<char>,
    chaincode_event_payload: Seq<u8>,
    channel_id: Seq<char>,
) -> Seq<Datum> {
    seq![
        Datum::Int(type_code as int),
        Datum::Message(Some(timestamp_record(timestamp_seconds, timestamp_nanos))),
        Datum::Bytes(payload),
        Datum::Text(txid),
        Datum::Message(Some(signed_proposal_record(proposal_proposal_bytes, proposal_signature))),
        Datum::Message(
            Some(
                chaincode_event_record(
                    chaincode_event_chaincode_id,
                    chaincode_event_tx_id,
                    chaincode_event_event_name,
                    chaincode_event_payload,
                ),
            ),
        ),
        Datum::Text(channel_id),
    ]
}

#[verifier::rlimit(60)]
proof fn lemma_chaincode_message(
    type_code: i32,
    timestamp_seconds: i64,
    timestamp_nanos: i32,
    payload: Seq<u8>,
    txid: Seq<char>,
    proposal_proposal_bytes: Seq<u8>,
    proposal_signature: Seq<u8>,
    chaincode_event_chaincode_id: Seq<char>,
    chaincode_event_tx_id: Seq<char>,
    chaincode_event_event_name: Seq<char>,
    chaincode_event_payload: Seq<u8>,
    channel_id: Seq<char>,
    rest: Seq<u8>,
    depth: nat,
)
    requires
        timestamp_bytes(timestamp_seconds, timestamp_nanos).len() <= u64::MAX,
        payload.len() <= u64::MAX,
        encode_utf8(txid).len() <= u64::MAX,
        proposal_proposal_bytes.len() <= u64::MAX,
        proposal_signature.len() <= u64::MAX,
        signed_proposal_bytes(proposal_proposal_bytes, proposal_signature).len() <= u64::MAX,
        encode_utf8(chaincode_event_chaincode_id).len() <= u64::MAX,
        encode_utf8(chaincode_event_tx_id).len() <= u64::MAX,
        encode_utf8(chaincode_event_event_name).len() <= u64::MAX,
        chaincode_event_payload.len() <= u64::MAX,
        chaincode_event_bytes(
            chaincode_event_chaincode_id,
            chaincode_event_tx_id,
            chaincode_event_event_name,
            chaincode_event_payload,
        ).len() <= u64::MAX,
        encode_utf8(channel_id).len() <= u64::MAX,
        depth >= 1,
    ensures
        fields_merged(
            Layout::ChaincodeMessage,
            blank_record(Layout::ChaincodeMessage),
            chaincode_message_bytes(
                type_code,
                timestamp_seconds,
                timestamp_nanos,
                payload,
                txid,
                proposal_proposal_bytes,
                proposal_signature,
                chaincode_event_chaincode_id,
                chaincode_event_tx_id,
                chaincode_event_event_name,
                chaincode_event_payload,
                channel_id,
            ) + rest,
            rest.len(),
            depth,
        ) == Ok::<_, DecodeErrorView>(
            (chaincode_message_record(
                type_code,
                timestamp_seconds,
                timestamp_nanos,
                payload,
                txid,
                proposal_proposal_bytes,
                proposal_signature,
                chaincode_event_chaincode_id,
                chaincode_event_tx_id,
                chaincode_event_event_name,
                chaincode_event_payload,
                channel_id,
            ), rest),
        ),
{
    reveal(fields);
    let l = Layout::ChaincodeMessage;
    let r0 = blank_record(l);
    let t7 = rest;
    let t6 = run(7, encode_utf8(channel_id)) + t7;
    let t5 = run(
        6,
        chaincode_event_bytes(
            chaincode_event_chaincode_id,
            chaincode_event_tx_id,
            chaincode_event_event_name,
            chaincode_event_payload,
        ),
    ) + t6;
    let t4 = run(5, signed_proposal_bytes(proposal_proposal_bytes, proposal_signature)) + t5;
    let t3 = run(4, encode_utf8(txid)) + t4;
    let t2 = run(3, payload) + t3;
    let t1 = run(2, timestamp_bytes(timestamp_seconds, timestamp_nanos)) + t2;
    let t0 = number(1, type_code as int) + t1;
    assert(
        chaincode_message_bytes(
            type_code,
            timestamp_seconds,
            timestamp_nanos,
            payload,
            txid,
            proposal_proposal_bytes,
            proposal_signature,
            chaincode_event_chaincode_id,
            chaincode_event_tx_id,
            chaincode_event_event_name,
            chaincode_event_payload,
            channel_id,
        ) + rest =~= t0
    );
    let r1 = r0.update(0, Datum::Int(type_code as int));
    step_number(l, r0, 1, type_code as int, t1, rest.len(), depth);
    let r2 = r1.update(
        1,
        Datum::Message(Some(timestamp_record(timestamp_seconds, timestamp_nanos))),
    );
    lemma_timestamp(timestamp_seconds, timestamp_nanos, t2, (depth - 1) as nat);
    step_message(
        l,
        r1,
        2,
        Layout::Timestamp,
        timestamp_bytes(timestamp_seconds, timestamp_nanos),
        timestamp_record(timestamp_seconds, timestamp_nanos),
        t2,
        rest.len(),
        depth,
    );
    let r3 = r2.update(2, Datum::Bytes(payload));
    step_bytes(l, r2, 3, payload, t3, rest.len(), depth);
    let r4 = r3.update(3, Datum::Text(txid));
    step_text(l, r3, 4, txid, t4, rest.len(), depth);
    let r5 = r4.update(
        4,
        Datum::Message(Some(signed_proposal_record(proposal_proposal_bytes, proposal_signature))),
    );
    lemma_signed_proposal(proposal_proposal_bytes, proposal_signature, t5, (depth - 1) as nat);
    step_message(
        l,
        r4,
        5,
        Layout::SignedProposal,
        signed_proposal_bytes(proposal_proposal_bytes, proposal_signature),
        signed_proposal_record(proposal_proposal_bytes, proposal_signature),
        t5,
        rest.len(),
        depth,
    );
    let r6 = r5.update(
        5,
        Datum::Message(
            Some(
                chaincode_event_record(
                    chaincode_event_chaincode_id,
                    chaincode_event_tx_id,
                    chaincode_event_event_name,
                    chaincode_event_payload,
                ),
            ),
        ),
    );
    lemma_chaincode_event(
        chaincode_event_chaincode_id,
        chaincode_event_tx_id,
        chaincode_event_event_name,
        chaincode_event_payload,
        t6,
        (depth - 1) as nat,
    );
    step_message(
        l,
        r5,
        6,
        Layout::ChaincodeEvent,
        chaincode_event_bytes(
            chaincode_event_chaincode_id,
            chaincode_event_tx_id,
            chaincode_event_event_name,
            chaincode_event_payload,
        ),
        chaincode_event_record(
            chaincode_event_chaincode_id,
            chaincode_event_tx_id,
            chaincode_event_event_name,
            chaincode_event_payload,
        ),
        t6,
        rest.len(),
        depth,
    );
    let r7 = r6.update(6, Datum::Text(channel_id));
    step_text(l, r6, 7, channel_id, t7, rest.len(), depth);
    assert(
        r7 =~= chaincode_message_record(
            type_code,
            timestamp_seconds,
            timestamp_nanos,
            payload,
            txid,
            proposal_proposal_bytes,
            proposal_signature,
            chaincode_event_chaincode_id,
            chaincode_event_tx_id,
            chaincode_event_event_name,
            chaincode_event_payload,
            channel_id,
        )
    );
}

/// What is read of the bytes of a [`ChaincodeMessage`] has each value in its field.
pub proof fn chaincode_message_is_read(
    m: ChaincodeMessage,
    type_code: i32,
    timestamp_seconds: i64,
    timestamp_nanos: i32,
    payload: Seq<u8>,
    txid: Seq<char>,
    proposal_proposal_bytes: Seq<u8>,
    proposal_signature: Seq<u8>,
    chaincode_event_chaincode_id: Seq<char>,
    chaincode_event_tx_id: Seq<char>,
    chaincode_event_event_name: Seq<char>,
    chaincode_event_payload: Seq<u8>,
    channel_id: Seq<char>,
)
    requires
        timestamp_bytes(timestamp_seconds, timestamp_nanos).len() <= u64::MAX,
        payload.len() <= u64::MAX,
        encode_utf8(txid).len() <= u64::MAX,
        proposal_proposal_bytes.len() <= u64::MAX,
        proposal_signature.len() <= u64::MAX,
        signed_proposal_bytes(proposal_proposal_bytes, proposal_signature).len() <= u64::MAX,
        encode_utf8(chaincode_event_chaincode_id).len() <= u64::MAX,
        encode_utf8(chaincode_event_tx_id).len() <= u64::MAX,
        encode_utf8(chaincode_event_event_name).len() <= u64::MAX,
        chaincode_event_payload.len() <= u64::MAX,
        chaincode_event_bytes(
            chaincode_event_chaincode_id,
            chaincode_event_tx_id,
            chaincode_event_event_name,
            chaincode_event_payload,
        ).len() <= u64::MAX,
        encode_utf8(channel_id).len() <= u64::MAX,
    ensures
        decoded(
            ChaincodeMessage::layout(),
            chaincode_message_bytes(
                type_code,
                timestamp_seconds,
                timestamp_nanos,
                payload,
                txid,
                proposal_proposal_bytes,
                proposal_signature,
                chaincode_event_chaincode_id,
                chaincode_event_tx_id,
                chaincode_event_event_name,
                chaincode_event_payload,
                channel_id,
            ),
        ) is Ok,
        decoded(
            ChaincodeMessage::layout(),
            chaincode_message_bytes(
                type_code,
                timestamp_seconds,
                timestamp_nanos,
                payload,
                txid,
                proposal_proposal_bytes,
                proposal_signature,
                chaincode_event_chaincode_id,
                chaincode_event_tx_id,
                chaincode_event_event_name,
                chaincode_event_payload,
                channel_id,
            ),
        ) == Ok::<_, DecodeErrorView>(m.record()) ==> {
            &&& m.type_code == type_code
            &&& m.timestamp is Some
            &&& m.timestamp->0.seconds == timestamp_seconds
            &&& m.timestamp->0.nanos == timestamp_nanos
            &&& m.payload@ == payload
            &&& m.txid@ == txid
            &&& m.proposal is Some
            &&& m.proposal->0.proposal_bytes@ == proposal_proposal_bytes
            &&& m.proposal->0.signature@ == proposal_signature
            &&& m.chaincode_event is Some
            &&& m.chaincode_event->0.chaincode_id@ == chaincode_event_chaincode_id
            &&& m.chaincode_event->0.tx_id@ == chaincode_event_tx_id
            &&& m.chaincode_event->0.event_name@ == chaincode_event_event_name
            &&& m.chaincode_event->0.payload@ == chaincode_event_payload
            &&& m.channel_id@ == channel_id
        },
{
    lemma_chaincode_message(
        type_code,
        timestamp_seconds,
        timestamp_nanos,
        payload,
        txid,
        proposal_proposal_bytes,
        proposal_signature,
        chaincode_event_chaincode_id,
        chaincode_event_tx_id,
        chaincode_event_event_name,
        chaincode_event_payload,
        channel_id,
        seq![],
        RECURSION_LIMIT as nat,
    );
    assert(
        chaincode_message_bytes(
            type_code,
            timestamp_seconds,
            timestamp_nanos,
            payload,
            txid,
            proposal_proposal_bytes,
            proposal_signature,
            chaincode_event_chaincode_id,
            chaincode_event_tx_id,
            chaincode_event_event_name,
            chaincode_event_payload,
            channel_id,
        ) + Seq::<u8>::empty() =~= chaincode_message_bytes(
            type_code,
            timestamp_seconds,
            timestamp_nanos,
            payload,
            txid,
            proposal_proposal_bytes,
            proposal_signature,
            chaincode_event_chaincode_id,
            chaincode_event_tx_id,
            chaincode_event_event_name,
            chaincode_event_payload,
            channel_id,
        )
    );
    if m.record() == chaincode_message_record(
        type_code,
        timestamp_seconds,
        timestamp_nanos,
        payload,
        txid,
        proposal_proposal_bytes,
        proposal_signature,
        chaincode_event_chaincode_id,
        chaincode_event_tx_id,
        chaincode_event_event_name,
        chaincode_event_payload,
        channel_id,
    ) {
        let r = chaincode_message_record(
            type_code,
            timestamp_seconds,
            timestamp_nanos,
            payload,
            txid,
            proposal_proposal_bytes,
            proposal_signature,
            chaincode_event_chaincode_id,
            chaincode_event_tx_id,
            chaincode_event_event_name,
            chaincode_event_payload,
            channel_id,
        );
        assert(m.record()[0] == r[0]);
        assert(m.record()[1] == r[1]);
        let r_timestamp = r[1]->Message_0->0;
        let m_timestamp = m.timestamp->0;
        assert(m_timestamp.record()[0] == r_timestamp[0]);
        assert(m_timestamp.record()[1] == r_timestamp[1]);
        assert(m.record()[2] == r[2]);
        assert(m.record()[3] == r[3]);
        assert(m.record()[4] == r[4]);
        let r_proposal = r[4]->Message_0->0;
        let m_proposal = m.proposal->0;
        assert(m_proposal.record()[0] == r_proposal[0]);
        assert(m_proposal.record()[1] == r_proposal[1]);
        assert(m.record()[5] == r[5]);
        let r_chaincode_event = r[5]->Message_0->0;
        let m_chaincode_event = m.chaincode_event->0;
        assert(m_chaincode_event.record()[0] == r_chaincode_event[0]);
        assert(m_chaincode_event.record()[1] == r_chaincode_event[1]);
        assert(m_chaincode_event.record()[2] == r_chaincode_event[2]);
        assert(m_chaincode_event.record()[3] == r_chaincode_event[3]);
        assert(m.record()[6] == r[6]);
    }
}

/// The bytes that a [`ChaincodeMessage`] is written as.
#[verifier::rlimit(60)]
pub proof fn chaincode_message_is_written(m: ChaincodeMessage)
    ensures
        written(m) == set_number(1, m.type_code as int)
            + (set_message(2, m.timestamp)
            + (set_run(3, m.payload@)
            + (set_run(4, encode_utf8(m.txid@))
            + (set_message(5, m.proposal)
            + (set_message(6, m.chaincode_event)
            + (set_run(
            7,
            encode_utf8(m.channel_id@),
        ))))))),
{
    reveal(fields);
    let l = Layout::ChaincodeMessage;
    let r = m.record();
    let e7 = encoded_from(l, r, 7);
    assert(e7 == Seq::<u8>::empty());
    write_text(fields(l)[6], m.channel_id@);
    let e6 = set_run(7, encode_utf8(m.channel_id@)) + e7;
    assert(encoded_from(l, r, 6) == e6);
    write_message(fields(l)[5], m.chaincode_event);
    let e5 = set_message(6, m.chaincode_event) + e6;
    assert(encoded_from(l, r, 5) == e5);
    write_message(fields(l)[4], m.proposal);
    let e4 = set_message(5, m.proposal) + e5;
    assert(encoded_from(l, r, 4) == e4);
    write_text(fields(l)[3], m.txid@);
    let e3 = set_run(4, encode_utf8(m.txid@)) + e4;
    assert(encoded_from(l, r, 3) == e3);
    write_bytes(fields(l)[2], m.payload@);
    let e2 = set_run(3, m.payload@) + e3;
    assert(encoded_from(l, r, 2) == e2);
    write_message(fields(l)[1], m.timestamp);
    let e1 = set_message(2, m.timestamp) + e2;
    assert(encoded_from(l, r, 1) == e1);
    write_number(fields(l)[0], m.type_code as int);
    let e0 = set_number(1, m.type_code as int) + e1;
    assert(encoded_from(l, r, 0) == e0);
    assert(
        written(m) =~= set_number(1, m.type_code as int)
            + (set_message(2, m.timestamp)
            + (set_run(3, m.payload@)
            + (set_run(4, encode_utf8(m.txid@))
            + (set_message(5, m.proposal)
            + (set_message(6, m.chaincode_event)
            + (set_run(
            7,
            encode_utf8(m.channel_id@),
        )))))))
    );
}

/// The names of a [`ChaincodeMessage`] and its fields, in reports of faults.
pub proof fn chaincode_message_is_told_by_name()
    ensures
        ChaincodeMessage::layout() == Layout::ChaincodeMessage,
        title(Layout::ChaincodeMessage) == Some("ChaincodeMessage"@),
        fields(Layout::ChaincodeMessage).len() == 7,
        fields(Layout::ChaincodeMessage)[0].name@ == "r#type"@,
        fields(Layout::ChaincodeMessage)[1].name@ == "timestamp"@,
        fields(Layout::ChaincodeMessage)[2].name@ == "payload"@,
        fields(Layout::ChaincodeMessage)[3].name@ == "txid"@,
        fields(Layout::ChaincodeMessage)[4].name@ == "proposal"@,
        fields(Layout::ChaincodeMessage)[5].name@ == "chaincode_event"@,
        fields(Layout::ChaincodeMessage)[6].name@ == "channel_id"@,
{
    reveal(fields);
}

/// A [`ChaincodeMessage`] is in order where its maps hold no key twice.
pub proof fn chaincode_message_is_in_order(m: ChaincodeMessage)
    ensures
        (m.timestamp matches Some(inner)
            ==> inner.well_formed()) && (m.proposal matches Some(inner)
                ==> inner.well_formed()) && (m.chaincode_event matches Some(inner)
                    ==> inner.well_formed()) ==> m.well_formed(),
{
}

// ---- Proposal --------------------------------------------------------------
/// The bytes of a [`Proposal`] with every field in place.
pub open spec fn proposal_bytes(
    header: Seq<u8>,
    payload: Seq<u8>,
    extension: Seq<u8>,
) -> Seq<u8> {
    run(1, header)
        + run(2, payload)
        + run(3, extension)
}

/// The values that those bytes hold.
pub open spec fn proposal_record(
    header: Seq<u8>,
    payload: Seq<u8>,
    extension: Seq<u8>,
) -> Seq<Datum> {
    seq![
        Datum::Bytes(header),
        Datum::Bytes(payload),
        Datum::Bytes(extension),
    ]
}

pub(crate) proof fn lemma_proposal(
    header: Seq<u8>,
    payload: Seq<u8>,
    extension: Seq<u8>,
    rest: Seq<u8>,
    depth: nat,
)
    requires
        header.len() <= u64::MAX,
        payload.len() <= u64::MAX,
        extension.len() <= u64::MAX,
    ensures
        fields_merged(
            Layout::Proposal,
            blank_record(Layout::Proposal),
            proposal_bytes(header, payload, extension) + rest,
            rest.len(),
            depth,
        ) == Ok::<_, DecodeErrorView>((proposal_record(header, payload, extension), rest)),
{
    reveal(fields);
    let l = Layout::Proposal;
    let r0 = blank_record(l);
    let t3 = rest;
    let t2 = run(3, extension) + t3;
    let t1 = run(2, payload) + t2;
    let t0 = run(1, header) + t1;
    assert(proposal_bytes(header, payload, extension) + rest =~= t0);
    let r1 = r0.update(0, Datum::Bytes(header));
    step_bytes(l, r0, 1, header, t1, rest.len(), depth);
    let r2 = r1.update(1, Datum::Bytes(payload));
    step_bytes(l, r1, 2, payload, t2, rest.len(), depth);
    let r3 = r2.update(2, Datum::Bytes(extension));
    step_bytes(l, r2, 3, extension, t3, rest.len(), depth);
    assert(r3 =~= proposal_record(header, payload, extension));
}

/// What is read of the bytes of a [`Proposal`] has each value in its field.
pub proof fn proposal_is_read(
    m: Proposal,
    header: Seq<u8>,
    payload: Seq<u8>,
    extension: Seq<u8>,
)
    requires
        header.len() <= u64::MAX,
        payload.len() <= u64::MAX,
        extension.len() <= u64::MAX,
    ensures
        decoded(Proposal::layout(), proposal_bytes(header, payload, extension)) is Ok,
        decoded(
            Proposal::layout(),
            proposal_bytes(header, payload, extension),
        ) == Ok::<_, DecodeErrorView>(m.record()) ==> {
            &&& m.header@ == header
            &&& m.payload@ == payload
            &&& m.extension@ == extension
        },
{
    lemma_proposal(header, payload, extension, seq![], RECURSION_LIMIT as nat);
    assert(
        proposal_bytes(
            header,
            payload,
            extension,
        ) + Seq::<u8>::empty() =~= proposal_bytes(header, payload, extension)
    );
    if m.record() == proposal_record(header, payload, extension) {
        let r = proposal_record(header, payload, extension);
        assert(m.record()[0] == r[0]);
        assert(m.record()[1] == r[1]);
        assert(m.record()[2] == r[2]);
    }
}

/// The bytes that a [`Proposal`] is written as.
pub proof fn proposal_is_written(m: Proposal)
    ensures
        written(m) == set_run(1, m.header@)
            + set_run(2, m.payload@)
            + set_run(3, m.extension@),
{
    reveal(fields);
    let l = Layout::Proposal;
    let r = m.record();
    let e3 = encoded_from(l, r, 3);
    assert(e3 == Seq::<u8>::empty());
    write_bytes(fields(l)[2], m.extension@);
    let e2 = set_run(3, m.extension@) + e3;
    assert(encoded_from(l, r, 2) == e2);
    write_bytes(fields(l)[1], m.payload@);
    let e1 = set_run(2, m.payload@) + e2;
    assert(encoded_from(l, r, 1) == e1);
    write_bytes(fields(l)[0], m.header@);
    let e0 = set_run(1, m.header@) + e1;
    assert(encoded_from(l, r, 0) == e0);
    assert(written(m) =~= set_run(1, m.header@)
        + set_run(2, m.payload@)
        + set_run(3, m.extension@));
}

/// The names of a [`Proposal`] and its fields, in reports of faults.
pub proof fn proposal_is_told_by_name()
    ensures
        Proposal::layout() == Layout::Proposal,
        title(Layout::Proposal) == Some("Proposal"@),
        fields(Layout::Proposal).len() == 3,
        fields(Layout::Proposal)[0].name@ == "header"@,
        fields(Layout::Proposal)[1].name@ == "payload"@,
        fields(Layout::Proposal)[2].name@ == "extension"@,
{
    reveal(fields);
}

/// A [`Proposal`] is in order where its maps hold no key twice.
pub proof fn proposal_is_in_order(m: Proposal)
    ensures
        m.well_formed(),
{
}

// ---- ChaincodeProposalPayload ----------------------------------------------
/// The bytes of a [`ChaincodeProposalPayload`] with every field in place.
pub open spec fn chaincode_proposal_payload_bytes(
    input: Seq<u8>,
    transient_map: Seq<(Seq<char>, Seq<u8>)>,
) -> Seq<u8> {
    run(1, input)
        + runs(2, entry_runs(transient_map))
}

/// The values that those bytes hold.
pub open spec fn chaincode_proposal_payload_record(
    input: Seq<u8>,
    transient_map: Seq<(Seq<char>, Seq<u8>)>,
) -> Seq<Datum> {
    seq![
        Datum::Bytes(input),
        Datum::Entries(transient_map),
    ]
}

pub(crate) proof fn lemma_chaincode_proposal_payload(
    input: Seq<u8>,
    transient_map: Seq<(Seq<char>, Seq<u8>)>,
    rest: Seq<u8>,
    depth: nat,
)
    requires
        input.len() <= u64::MAX,
        keys_differ(transient_map),
        fits(entry_runs(transient_map)),
        entries_fit(transient_map),
        depth >= 1,
    ensures
        fields_merged(
            Layout::ChaincodeProposalPayload,
            blank_record(Layout::ChaincodeProposalPayload),
            chaincode_proposal_payload_bytes(input, transient_map) + rest,
            rest.len(),
            depth,
        ) == Ok::<_, DecodeErrorView>(
            (chaincode_proposal_payload_record(input, transient_map), rest),
        ),
{
    reveal(fields);
    let l = Layout::ChaincodeProposalPayload;
    let r0 = blank_record(l);
    let t2 = rest;
    let t1 = runs(2, entry_runs(transient_map)) + t2;
    let t0 = run(1, input) + t1;
    assert(chaincode_proposal_payload_bytes(input, transient_map) + rest =~= t0);
    let r1 = r0.update(0, Datum::Bytes(input));
    step_bytes(l, r0, 1, input, t1, rest.len(), depth);
    let r2 = r1.update(1, Datum::Entries(transient_map));
    step_entries(l, r1, 2, transient_map, t2, rest.len(), depth);
    assert(r2 =~= chaincode_proposal_payload_record(input, transient_map));
}

/// What is read of the bytes of a [`ChaincodeProposalPayload`] has each value in its field.
pub proof fn chaincode_proposal_payload_is_read(
    m: ChaincodeProposalPayload,
    input: Seq<u8>,
    transient_map: Seq<(Seq<char>, Seq<u8>)>,
)
    requires
        input.len() <= u64::MAX,
        keys_differ(transient_map),
        fits(entry_runs(transient_map)),
        entries_fit(transient_map),
    ensures
        decoded(
            ChaincodeProposalPayload::layout(),
            chaincode_proposal_payload_bytes(input, transient_map),
        ) is Ok,
        decoded(
            ChaincodeProposalPayload::layout(),
            chaincode_proposal_payload_bytes(input, transient_map),
        ) == Ok::<_, DecodeErrorView>(m.record()) ==> {
            &&& m.input@ == input
            &&& m.transient_map@ == transient_map
        },
{
    lemma_chaincode_proposal_payload(input, transient_map, seq![], RECURSION_LIMIT as nat);
    assert(
        chaincode_proposal_payload_bytes(
            input,
            transient_map,
        ) + Seq::<u8>::empty() =~= chaincode_proposal_payload_bytes(input, transient_map)
    );
    if m.record() == chaincode_proposal_payload_record(input, transient_map) {
        let r = chaincode_proposal_payload_record(input, transient_map);
        assert(m.record()[0] == r[0]);
        assert(m.record()[1] == r[1]);
    }
}

/// The bytes that a [`ChaincodeProposalPayload`] is written as.
pub proof fn chaincode_proposal_payload_is_written(m: ChaincodeProposalPayload)
    ensures
        written(m) == set_run(1, m.input@)
            + runs(2, set_entry_runs(m.transient_map@)),
{
    reveal(fields);
    let l = Layout::ChaincodeProposalPayload;
    let r = m.record();
    let e2 = encoded_from(l, r, 2);
    assert(e2 == Seq::<u8>::empty());
    write_entries(fields(l)[1], m.transient_map@);
    let e1 = runs(2, set_entry_runs(m.transient_map@)) + e2;
    assert(encoded_from(l, r, 1) == e1);
    write_bytes(fields(l)[0], m.input@);
    let e0 = set_run(1, m.input@) + e1;
    assert(encoded_from(l, r, 0) == e0);
    assert(written(m) =~= set_run(1, m.input@)
        + runs(2, set_entry_runs(m.transient_map@)));
}

/// The names of a [`ChaincodeProposalPayload`] and its fields, in reports of faults.
pub proof fn chaincode_proposal_payload_is_told_by_name()
    ensures
        ChaincodeProposalPayload::layout() == Layout::ChaincodeProposalPayload,
        title(Layout::ChaincodeProposalPayload) == Some("ChaincodeProposalPayload"@),
        fields(Layout::ChaincodeProposalPayload).len() == 2,
        fields(Layout::ChaincodeProposalPayload)[0].name@ == "input"@,
        fields(Layout::ChaincodeProposalPayload)[1].name@ == "transient_map"@,
{
    reveal(fields);
}

/// A [`ChaincodeProposalPayload`] is in order where its maps hold no key twice.
pub proof fn chaincode_proposal_payload_is_in_order(m: ChaincodeProposalPayload)
    ensures
        keys_differ(m.transient_map@) ==> m.well_formed(),
{
}

// ---- Header ----------------------------------------------------------------
/// The bytes of a [`Header`] with every field in place.
pub open spec fn header_bytes(
    channel_header: Seq<u8>,
    signature_header: Seq<u8>,
) -> Seq<u8> {
    run(1, channel_header)
        + run(2, signature_header)
}

/// The values that those bytes hold.
pub open spec fn header_record(
    channel_header: Seq<u8>,
    signature_header: Seq<u8>,
) -> Seq<Datum> {
    seq![
        Datum::Bytes(channel_header),
        Datum::Bytes(signature_header),
    ]
}

pub(crate) proof fn lemma_header(
    channel_header: Seq<u8>,
    signature_header: Seq<u8>,
    rest: Seq<u8>,
    depth: nat,
)
    requires
        channel_header.len() <= u64::MAX,
        signature_header.len() <= u64::MAX,
    ensures
        fields_merged(
            Layout::Header,
            blank_record(Layout::Header),
            header_bytes(channel_header, signature_header) + rest,
            rest.len(),
            depth,
        ) == Ok::<_, DecodeErrorView>((header_record(channel_header, signature_header), rest)),
{
    reveal(fields);
    let l = Layout::Header;
    let r0 = blank_record(l);
    let t2 = rest;
    let t1 = run(2, signature_header) + t2;
    let t0 = run(1, channel_header) + t1;
    assert(header_bytes(channel_header, signature_header) + rest =~= t0);
    let r1 = r0.update(0, Datum::Bytes(channel_header));
    step_bytes(l, r0, 1, channel_header, t1, rest.len(), depth);
    let r2 = r1.update(1, Datum::Bytes(signature_header));
    step_bytes(l, r1, 2, signature_header, t2, rest.len(), depth);
    assert(r2 =~= header_record(channel_header, signature_header));
}

/// What is read of the bytes of a [`Header`] has each value in its field.
pub proof fn header_is_read(
    m: Header,
    channel_header: Seq<u8>,
    signature_header: Seq<u8>,
)
    requires
        channel_header.len() <= u64::MAX,
        signature_header.len() <= u64::MAX,
    ensures
        decoded(Header::layout(), header_bytes(channel_header, signature_header)) is Ok,
        decoded(
            Header::layout(),
            header_bytes(channel_header, signature_header),
        ) == Ok::<_, DecodeErrorView>(m.record()) ==> {
            &&& m.channel_header@ == channel_header
            &&& m.signature_header@ == signature_header
        },
{
    lemma_header(channel_header, signature_header, seq![], RECURSION_LIMIT as nat);
    assert(
        header_bytes(
            channel_header,
            signature_header,
        ) + Seq::<u8>::empty() =~= header_bytes(channel_header, signature_header)
    );
    if m.record() == header_record(channel_header, signature_header) {
        let r = header_record(channel_header, signature_header);
        assert(m.record()[0] == r[0]);
        assert(m.record()[1] == r[1]);
    }
}

/// The bytes that a [`Header`] is written as.
pub proof fn header_is_written(m: Header)
    ensures
        written(m) == set_run(1, m.channel_header@)
            + set_run(2, m.signature_header@),
{
    reveal(fields);
    let l = Layout::Header;
    let r = m.record();
    let e2 = encoded_from(l, r, 2);
    assert(e2 == Seq::<u8>::empty());
    write_bytes(fields(l)[1], m.signature_header@);
    let e1 = set_run(2, m.signature_header@) + e2;
    assert(encoded_from(l, r, 1) == e1);
    write_bytes(fields(l)[0], m.channel_header@);
    let e0 = set_run(1, m.channel_header@) + e1;
    assert(encoded_from(l, r, 0) == e0);
    assert(written(m) =~= set_run(1, m.channel_header@)
        + set_run(2, m.signature_header@));
}

/// The names of a [`Header`] and its fields, in reports of faults.
pub proof fn header_is_told_by_name()
    ensures
        Header::layout() == Layout::Header,
        title(Layout::Header) == Some("Header"@),
        fields(Layout::Header).len() == 2,
        fields(Layout::Header)[0].name@ == "channel_header"@,
        fields(Layout::Header)[1].name@ == "signature_header"@,
{
    reveal(fields);
}

/// A [`Header`] is in order where its maps hold no key twice.
pub proof fn header_is_in_order(m: Header)
    ensures
        m.well_formed(),
{
}

// ---- ChannelHeader ---------------------------------------------------------
/// The bytes of a [`ChannelHeader`] with every field in place.
pub open spec fn channel_header_bytes(
    type_code: i32,
    version: i32,
    timestamp_seconds: i64,
    timestamp_nanos: i32,
    channel_id: Seq<char>,
    tx_id: Seq<char>,
    epoch: u64,
    extension: Seq<u8>,
    tls_cert_hash: Seq<u8>,
) -> Seq<u8> {
    number(1, type_code as int) + (number(2, version as int) + (run(
        3,
        timestamp_bytes(timestamp_seconds, timestamp_nanos),
    ) + (run(
        4,
        encode_utf8(channel_id),
    ) + (run(
        5,
        encode_utf8(tx_id),
    ) + (number(6, epoch as int) + (run(7, extension) + (run(8, tls_cert_hash))))))))
}

/// The values that those bytes hold.
pub open spec fn channel_header_record(
    type_code: i32,
    version: i32,
    timestamp_seconds: i64,
    timestamp_nanos: i32,
    channel_id: Seq<char>,
    tx_id: Seq<char>,
    epoch: u64,
    extension: Seq<u8>,
    tls_cert_hash: Seq<u8>,
) -> Seq<Datum> {
    seq![
        Datum::Int(type_code as int),
        Datum::Int(version as int),
        Datum::Message(Some(timestamp_record(timestamp_seconds, timestamp_nanos))),
        Datum::Text(channel_id),
        Datum::Text(tx_id),
        Datum::Int(epoch as int),
        Datum::Bytes(extension),
        Datum::Bytes(tls_cert_hash),
    ]
}

#[verifier::rlimit(60)]
pub(crate) proof fn lemma_channel_header(
    type_code: i32,
    version: i32,
    timestamp_seconds: i64,
    timestamp_nanos: i32,
    channel_id: Seq<char>,
    tx_id: Seq<char>,
    epoch: u64,
    extension: Seq<u8>,
    tls_cert_hash: Seq<u8>,
    rest: Seq<u8>,
    depth: nat,
)
    requires
        timestamp_bytes(timestamp_seconds, timestamp_nanos).len() <= u64::MAX,
        encode_utf8(channel_id).len() <= u64::MAX,
        encode_utf8(tx_id).len() <= u64::MAX,
        extension.len() <= u64::MAX,
        tls_cert_hash.len() <= u64::MAX,
        depth >= 1,
    ensures
        fields_merged(
            Layout::ChannelHeader,
            blank_record(Layout::ChannelHeader),
            channel_header_bytes(
                type_code,
                version,
                timestamp_seconds,
                timestamp_nanos,
                channel_id,
                tx_id,
                epoch,
                extension,
                tls_cert_hash,
            ) + rest,
            rest.len(),
            depth,
        ) == Ok::<_, DecodeErrorView>(
            (channel_header_record(
                type_code,
                version,
                timestamp_seconds,
                timestamp_nanos,
                channel_id,
                tx_id,
                epoch,
                extension,
                tls_cert_hash,
            ), rest),
        ),
{
    reveal(fields);
    let l = Layout::ChannelHeader;
    let r0 = blank_record(l);
    let t8 = rest;
    let t7 = run(8, tls_cert_hash) + t8;
    let t6 = run(7, extension) + t7;
    let t5 = number(6, epoch as int) + t6;
    let t4 = run(5, encode_utf8(tx_id)) + t5;
    let t3 = run(4, encode_utf8(channel_id)) + t4;
    let t2 = run(3, timestamp_bytes(timestamp_seconds, timestamp_nanos)) + t3;
    let t1 = number(2, version as int) + t2;
    let t0 = number(1, type_code as int) + t1;
    assert(
        channel_header_bytes(
            type_code,
            version,
            timestamp_seconds,
            timestamp_nanos,
            channel_id,
            tx_id,
            epoch,
            extension,
            tls_cert_hash,
        ) + rest =~= t0
    );
    let r1 = r0.update(0, Datum::Int(type_code as int));
    step_number(l, r0, 1, type_code as int, t1, rest.len(), depth);
    let r2 = r1.update(1, Datum::Int(version as int));
    step_number(l, r1, 2, version as int, t2, rest.len(), depth);
    let r3 = r2.update(
        2,
        Datum::Message(Some(timestamp_record(timestamp_seconds, timestamp_nanos))),
    );
    lemma_timestamp(timestamp_seconds, timestamp_nanos, t3, (depth - 1) as nat);
    step_message(
        l,
        r2,
        3,
        Layout::Timestamp,
        timestamp_bytes(timestamp_seconds, timestamp_nanos),
        timestamp_record(timestamp_seconds, timestamp_nanos),
        t3,
        rest.len(),
        depth,
    );
    let r4 = r3.update(3, Datum::Text(channel_id));
    step_text(l, r3, 4, channel_id, t4, rest.len(), depth);
    let r5 = r4.update(4, Datum::Text(tx_id));
    step_text(l, r4, 5, tx_id, t5, rest.len(), depth);
    let r6 = r5.update(5, Datum::Int(epoch as int));
    step_number(l, r5, 6, epoch as int, t6, rest.len(), depth);
    let r7 = r6.update(6, Datum::Bytes(extension));
    step_bytes(l, r6, 7, extension, t7, rest.len(), depth);
    let r8 = r7.update(7, Datum::Bytes(tls_cert_hash));
    step_bytes(l, r7, 8, tls_cert_hash, t8, rest.len(), depth);
    assert(
        r8 =~= channel_header_record(
            type_code,
            version,
            timestamp_seconds,
            timestamp_nanos,
            channel_id,
            tx_id,
            epoch,
            extension,
            tls_cert_hash,
        )
    );
}

/// What is read of the bytes of a [`ChannelHeader`] has each value in its field.
pub proof fn channel_header_is_read(
    m: ChannelHeader,
    type_code: i32,
    version: i32,
    timestamp_seconds: i64,
    timestamp_nanos: i32,
    channel_id: Seq<char>,
    tx_id: Seq<char>,
    epoch: u64,
    extension: Seq<u8>,
    tls_cert_hash: Seq<u8>,
)
    requires
        timestamp_bytes(timestamp_seconds, timestamp_nanos).len() <= u64::MAX,
        encode_utf8(channel_id).len() <= u64::MAX,
        encode_utf8(tx_id).len() <= u64::MAX,
        extension.len() <= u64::MAX,
        tls_cert_hash.len() <= u64::MAX,
    ensures
        decoded(
            ChannelHeader::layout(),
            channel_header_bytes(
                type_code,
                version,
                timestamp_seconds,
                timestamp_nanos,
                channel_id,
                tx_id,
                epoch,
                extension,
                tls_cert_hash,
            ),
        ) is Ok,
        decoded(
            ChannelHeader::layout(),
            channel_header_bytes(
                type_code,
                version,
                timestamp_seconds,
                timestamp_nanos,
                channel_id,
                tx_id,
                epoch,
                extension,
                tls_cert_hash,
            ),
        ) == Ok::<_, DecodeErrorView>(m.record()) ==> {
            &&& m.type_code == type_code
            &&& m.version == version
            &&& m.timestamp is Some
            &&& m.timestamp->0.seconds == timestamp_seconds
            &&& m.timestamp->0.nanos == timestamp_nanos
            &&& m.channel_id@ == channel_id
            &&& m.tx_id@ == tx_id
            &&& m.epoch == epoch
            &&& m.extension@ == extension
            &&& m.tls_cert_hash@ == tls_cert_hash
        },
{
    lemma_channel_header(
        type_code,
        version,
        timestamp_seconds,
        timestamp_nanos,
        channel_id,
        tx_id,
        epoch,
        extension,
        tls_cert_hash,
        seq![],
        RECURSION_LIMIT as nat,
    );
    assert(
        channel_header_bytes(
            type_code,
            version,
            timestamp_seconds,
            timestamp_nanos,
            channel_id,
            tx_id,
            epoch,
            extension,
            tls_cert_hash,
        ) + Seq::<u8>::empty() =~= channel_header_bytes(
            type_code,
            version,
            timestamp_seconds,
            timestamp_nanos,
            channel_id,
            tx_id,
            epoch,
            extension,
            tls_cert_hash,
        )
    );
    if m.record() == channel_header_record(
        type_code,
        version,
        timestamp_seconds,
        timestamp_nanos,
        channel_id,
        tx_id,
        epoch,
        extension,
        tls_cert_hash,
    ) {
        let r = channel_header_record(
            type_code,
            version,
            timestamp_seconds,
            timestamp_nanos,
            channel_id,
            tx_id,
            epoch,
            extension,
            tls_cert_hash,
        );
        assert(m.record()[0] == r[0]);
        assert(m.record()[1] == r[1]);
        assert(m.record()[2] == r[2]);
        let r_timestamp = r[2]->Message_0->0;
        let m_timestamp = m.timestamp->0;
        assert(m_timestamp.record()[0] == r_timestamp[0]);
        assert(m_timestamp.record()[1] == r_timestamp[1]);
        assert(m.record()[3] == r[3]);
        assert(m.record()[4] == r[4]);
        assert(m.record()[5] == r[5]);
        assert(m.record()[6] == r[6]);
        assert(m.record()[7] == r[7]);
    }
}

/// The bytes that a [`ChannelHeader`] is written as.
#[verifier::rlimit(60)]
pub proof fn channel_header_is_written(m: ChannelHeader)
    ensures
        written(m) == set_number(1, m.type_code as int)
            + (set_number(2, m.version as int)
            + (set_message(3, m.timestamp)
            + (set_run(
            4,
            encode_utf8(m.channel_id@),
        ) + (set_run(
            5,
            encode_utf8(m.tx_id@),
        ) + (set_number(6, m.epoch as int) + (set_run(7, m.extension@) + (set_run(
            8,
            m.tls_cert_hash@,
        )))))))),
{
    reveal(fields);
    let l = Layout::ChannelHeader;
    let r = m.record();
    let e8 = encoded_from(l, r, 8);
    assert(e8 == Seq::<u8>::empty());
    write_bytes(fields(l)[7], m.tls_cert_hash@);
    let e7 = set_run(8, m.tls_cert_hash@) + e8;
    assert(encoded_from(l, r, 7) == e7);
    write_bytes(fields(l)[6], m.extension@);
    let e6 = set_run(7, m.extension@) + e7;
    assert(encoded_from(l, r, 6) == e6);
    write_number(fields(l)[5], m.epoch as int);
    let e5 = set_number(6, m.epoch as int) + e6;
    assert(encoded_from(l, r, 5) == e5);
    write_text(fields(l)[4], m.tx_id@);
    let e4 = set_run(5, encode_utf8(m.tx_id@)) + e5;
    assert(encoded_from(l, r, 4) == e4);
    write_text(fields(l)[3], m.channel_id@);
    let e3 = set_run(4, encode_utf8(m.channel_id@)) + e4;
    assert(encoded_from(l, r, 3) == e3);
    write_message(fields(l)[2], m.timestamp);
    let e2 = set_message(3, m.timestamp) + e3;
    assert(encoded_from(l, r, 2) == e2);
    write_number(fields(l)[1], m.version as int);
    let e1 = set_number(2, m.version as int) + e2;
    assert(encoded_from(l, r, 1) == e1);
    write_number(fields(l)[0], m.type_code as int);
    let e0 = set_number(1, m.type_code as int) + e1;
    assert(encoded_from(l, r, 0) == e0);
    assert(
        written(m) =~= set_number(1, m.type_code as int)
            + (set_number(2, m.version as int)
            + (set_message(3, m.timestamp)
            + (set_run(
            4,
            encode_utf8(m.channel_id@),
        ) + (set_run(
            5,
            encode_utf8(m.tx_id@),
        ) + (set_number(6, m.epoch as int) + (set_run(7, m.extension@) + (set_run(
            8,
            m.tls_cert_hash@,
        ))))))))
    );
}

/// The names of a [`ChannelHeader`] and its fields, in reports of faults.
pub proof fn channel_header_is_told_by_name()
    ensures
        ChannelHeader::layout() == Layout::ChannelHeader,
        title(Layout::ChannelHeader) == Some("ChannelHeader"@),
        fields(Layout::ChannelHeader).len() == 8,
        fields(Layout::ChannelHeader)[0].name@ == "r#type"@,
        fields(Layout::ChannelHeader)[1].name@ == "version"@,
        fields(Layout::ChannelHeader)[2].name@ == "timestamp"@,
        fields(Layout::ChannelHeader)[3].name@ == "channel_id"@,
        fields(Layout::ChannelHeader)[4].name@ == "tx_id"@,
        fields(Layout::ChannelHeader)[5].name@ == "epoch"@,
        fields(Layout::ChannelHeader)[6].name@ == "extension"@,
        fields(Layout::ChannelHeader)[7].name@ == "tls_cert_hash"@,
{
    reveal(fields);
}

/// A [`ChannelHeader`] is in order where its maps hold no key twice.
pub proof fn channel_header_is_in_order(m: ChannelHeader)
    ensures
        (m.timestamp matches Some(inner) ==> inner.well_formed()) ==> m.well_formed(),
{
}

// ---- SignatureHeader -------------------------------------------------------
/// The bytes of a [`SignatureHeader`] with every field in place.
pub open spec fn signature_header_bytes(
    creator: Seq<u8>,
    nonce: Seq<u8>,
) -> Seq<u8> {
    run(1, creator)
        + run(2, nonce)
}

/// The values that those bytes hold.
pub open spec fn signature_header_record(
    creator: Seq<u8>,
    nonce: Seq<u8>,
) -> Seq<Datum> {
    seq![
        Datum::Bytes(creator),
        Datum::Bytes(nonce),
    ]
}

pub(crate) proof fn lemma_signature_header(
    creator: Seq<u8>,
    nonce: Seq<u8>,
    rest: Seq<u8>,
    depth: nat,
)
    requires
        creator.len() <= u64::MAX,
        nonce.len() <= u64::MAX,
    ensures
        fields_merged(
            Layout::SignatureHeader,
            blank_record(Layout::SignatureHeader),
            signature_header_bytes(creator, nonce) + rest,
            rest.len(),
            depth,
        ) == Ok::<_, DecodeErrorView>((signature_header_record(creator, nonce), rest)),
{
    reveal(fields);
    let l = Layout::SignatureHeader;
    let r0 = blank_record(l);
    let t2 = rest;
    let t1 = run(2, nonce) + t2;
    let t0 = run(1, creator) + t1;
    assert(signature_header_bytes(creator, nonce) + rest =~= t0);
    let r1 = r0.update(0, Datum::Bytes(creator));
    step_bytes(l, r0, 1, creator, t1, rest.len(), depth);
    let r2 = r1.update(1, Datum::Bytes(nonce));
    step_bytes(l, r1, 2, nonce, t2, rest.len(), depth);
    assert(r2 =~= signature_header_record(creator, nonce));
}

/// What is read of the bytes of a [`SignatureHeader`] has each value in its field.
pub proof fn signature_header_is_read(
    m: SignatureHeader,
    creator: Seq<u8>,
    nonce: Seq<u8>,
)
    requires
        creator.len() <= u64::MAX,
        nonce.len() <= u64::MAX,
    ensures
        decoded(SignatureHeader::layout(), signature_header_bytes(creator, nonce)) is Ok,
        decoded(
            SignatureHeader::layout(),
            signature_header_bytes(creator, nonce),
        ) == Ok::<_, DecodeErrorView>(m.record()) ==> {
            &&& m.creator@ == creator
            &&& m.nonce@ == nonce
        },
{
    lemma_signature_header(creator, nonce, seq![], RECURSION_LIMIT as nat);
    assert(
        signature_header_bytes(creator, nonce) + Seq::<u8>::empty()
            =~= signature_header_bytes(creator, nonce)
    );
    if m.record() == signature_header_record(creator, nonce) {
        let r = signature_header_record(creator, nonce);
        assert(m.record()[0] == r[0]);
        assert(m.record()[1] == r[1]);
    }
}

/// The bytes that a [`SignatureHeader`] is written as.
pub proof fn signature_header_is_written(m: SignatureHeader)
    ensures
        written(m) == set_run(1, m.creator@)
            + set_run(2, m.nonce@),
{
    reveal(fields);
    let l = Layout::SignatureHeader;
    let r = m.record();
    let e2 = encoded_from(l, r, 2);
    assert(e2 == Seq::<u8>::empty());
    write_bytes(fields(l)[1], m.nonce@);
    let e1 = set_run(2, m.nonce@) + e2;
    assert(encoded_from(l, r, 1) == e1);
    write_bytes(fields(l)[0], m.creator@);
    let e0 = set_run(1, m.creator@) + e1;
    assert(encoded_from(l, r, 0) == e0);
    assert(written(m) =~= set_run(1, m.creator@)
        + set_run(2, m.nonce@));
}

/// The names of a [`SignatureHeader`] and its fields, in reports of faults.
pub proof fn signature_header_is_told_by_name()
    ensures
        SignatureHeader::layout() == Layout::SignatureHeader,
        title(Layout::SignatureHeader) == Some("SignatureHeader"@),
        fields(Layout::SignatureHeader).len() == 2,
        fields(Layout::SignatureHeader)[0].name@ == "creator"@,
        fields(Layout::SignatureHeader)[1].name@ == "nonce"@,
{
    reveal(fields);
}

/// A [`SignatureHeader`] is in order where its maps hold no key twice.
pub proof fn signature_header_is_in_order(m: SignatureHeader)
    ensures
        m.well_formed(),
{
}

// ---- SerializedIdentity ----------------------------------------------------
/// The bytes of a [`SerializedIdentity`] with every field in place.
pub open spec fn serialized_identity_bytes(
    mspid: Seq<char>,
    id_bytes: Seq<u8>,
) -> Seq<u8> {
    run(1, encode_utf8(mspid))
        + run(2, id_bytes)
}

/// The values that those bytes hold.
pub open spec fn serialized_identity_record(
    mspid: Seq<char>,
    id_bytes: Seq<u8>,
) -> Seq<Datum> {
    seq![
        Datum::Text(mspid),
        Datum::Bytes(id_bytes),
    ]
}

pub(crate) proof fn lemma_serialized_identity(
    mspid: Seq<char>,
    id_bytes: Seq<u8>,
    rest: Seq<u8>,
    depth: nat,
)
    requires
        encode_utf8(mspid).len() <= u64::MAX,
        id_bytes.len() <= u64::MAX,
    ensures
        fields_merged(
            Layout::SerializedIdentity,
            blank_record(Layout::SerializedIdentity),
            serialized_identity_bytes(mspid, id_bytes) + rest,
            rest.len(),
            depth,
        ) == Ok::<_, DecodeErrorView>((serialized_identity_record(mspid, id_bytes), rest)),
{
    reveal(fields);
    let l = Layout::SerializedIdentity;
    let r0 = blank_record(l);
    let t2 = rest;
    let t1 = run(2, id_bytes) + t2;
    let t0 = run(1, encode_utf8(mspid)) + t1;
    assert(serialized_identity_bytes(mspid, id_bytes) + rest =~= t0);
    let r1 = r0.update(0, Datum::Text(mspid));
    step_text(l, r0, 1, mspid, t1, rest.len(), depth);
    let r2 = r1.update(1, Datum::Bytes(id_bytes));
    step_bytes(l, r1, 2, id_bytes, t2, rest.len(), depth);
    assert(r2 =~= serialized_identity_record(mspid, id_bytes));
}

/// What is read of the bytes of a [`SerializedIdentity`] has each value in its field.
pub proof fn serialized_identity_is_read(
    m: SerializedIdentity,
    mspid: Seq<char>,
    id_bytes: Seq<u8>,
)
    requires
        encode_utf8(mspid).len() <= u64::MAX,
        id_bytes.len() <= u64::MAX,
    ensures
        decoded(SerializedIdentity::layout(), serialized_identity_bytes(mspid, id_bytes)) is Ok,
        decoded(
            SerializedIdentity::layout(),
            serialized_identity_bytes(mspid, id_bytes),
        ) == Ok::<_, DecodeErrorView>(m.record()) ==> {
            &&& m.mspid@ == mspid
            &&& m.id_bytes@ == id_bytes
        },
{
    lemma_serialized_identity(mspid, id_bytes, seq![], RECURSION_LIMIT as nat);
    assert(
        serialized_identity_bytes(mspid, id_bytes) + Seq::<u8>::empty()
            =~= serialized_identity_bytes(mspid, id_bytes)
    );
    if m.record() == serialized_identity_record(mspid, id_bytes) {
        let r = serialized_identity_record(mspid, id_bytes);
        assert(m.record()[0] == r[0]);
        assert(m.record()[1] == r[1]);
    }
}

/// The bytes that a [`SerializedIdentity`] is written as.
pub proof fn serialized_identity_is_written(m: SerializedIdentity)
    ensures
        written(m) == set_run(1, encode_utf8(m.mspid@))
            + set_run(2, m.id_bytes@),
{
    reveal(fields);
    let l = Layout::SerializedIdentity;
    let r = m.record();
    let e2 = encoded_from(l, r, 2);
    assert(e2 == Seq::<u8>::empty());
    write_bytes(fields(l)[1], m.id_bytes@);
    let e1 = set_run(2, m.id_bytes@) + e2;
    assert(encoded_from(l, r, 1) == e1);
    write_text(fields(l)[0], m.mspid@);
    let e0 = set_run(1, encode_utf8(m.mspid@)) + e1;
    assert(encoded_from(l, r, 0) == e0);
    assert(written(m) =~= set_run(1, encode_utf8(m.mspid@))
        + set_run(2, m.id_bytes@));
}

/// The names of a [`SerializedIdentity`] and its fields, in reports of faults.
pub proof fn serialized_identity_is_told_by_name()
    ensures
        SerializedIdentity::layout() == Layout::SerializedIdentity,
        title(Layout::SerializedIdentity) == Some("SerializedIdentity"@),
        fields(Layout::SerializedIdentity).len() == 2,
        fields(Layout::SerializedIdentity)[0].name@ == "mspid"@,
        fields(Layout::SerializedIdentity)[1].name@ == "id_bytes"@,
{
    reveal(fields);
}

/// A [`SerializedIdentity`] is in order where its maps hold no key twice.
pub proof fn serialized_identity_is_in_order(m: SerializedIdentity)
    ensures
        m.well_formed(),
{
}

// ---- ChaincodeId -----------------------------------------------------------
/// The bytes of a [`ChaincodeId`] with every field in place.
pub open spec fn chaincode_id_bytes(
    path: Seq<char>,
    name: Seq<char>,
    version: Seq<char>,
) -> Seq<u8> {
    run(1, encode_utf8(path))
        + run(2, encode_utf8(name))
        + run(3, encode_utf8(version))
}

spec fn chaincode_id_record(
    path: Seq<char>,
    name: Seq<char>,
    version: Seq<char>,
) -> Seq<Datum> {
    seq![
        Datum::Text(path),
        Datum::Text(name),
        Datum::Text(version),
    ]
}

proof fn lemma_chaincode_id(
    path: Seq<char>,
    name: Seq<char>,
    version: Seq<char>,
    rest: Seq<u8>,
    depth: nat,
)
    requires
        encode_utf8(path).len() <= u64::MAX,
        encode_utf8(name).len() <= u64::MAX,
        encode_utf8(version).len() <= u64::MAX,
    ensures
        fields_merged(
            Layout::ChaincodeId,
            blank_record(Layout::ChaincodeId),
            chaincode_id_bytes(path, name, version) + rest,
            rest.len(),
            depth,
        ) == Ok::<_, DecodeErrorView>((chaincode_id_record(path, name, version), rest)),
{
    reveal(fields);
    let l = Layout::ChaincodeId;
    let r0 = blank_record(l);
    let t3 = rest;
    let t2 = run(3, encode_utf8(version)) + t3;
    let t1 = run(2, encode_utf8(name)) + t2;
    let t0 = run(1, encode_utf8(path)) + t1;
    assert(chaincode_id_bytes(path, name, version) + rest =~= t0);
    let r1 = r0.update(0, Datum::Text(path));
    step_text(l, r0, 1, path, t1, rest.len(), depth);
    let r2 = r1.update(1, Datum::Text(name));
    step_text(l, r1, 2, name, t2, rest.len(), depth);
    let r3 = r2.update(2, Datum::Text(version));
    step_text(l, r2, 3, version, t3, rest.len(), depth);
    assert(r3 =~= chaincode_id_record(path, name, version));
}

/// What is read of the bytes of a [`ChaincodeId`] has each value in its field.
pub proof fn chaincode_id_is_read(
    m: ChaincodeId,
    path: Seq<char>,
    name: Seq<char>,
    version: Seq<char>,
)
    requires
        encode_utf8(path).len() <= u64::MAX,
        encode_utf8(name).len() <= u64::MAX,
        encode_utf8(version).len() <= u64::MAX,
    ensures
        decoded(ChaincodeId::layout(), chaincode_id_bytes(path, name, version)) is Ok,
        decoded(
            ChaincodeId::layout(),
            chaincode_id_bytes(path, name, version),
        ) == Ok::<_, DecodeErrorView>(m.record()) ==> {
            &&& m.path@ == path
            &&& m.name@ == name
            &&& m.version@ == version
        },
{
    lemma_chaincode_id(path, name, version, seq![], RECURSION_LIMIT as nat);
    assert(
        chaincode_id_bytes(
            path,
            name,
            version,
        ) + Seq::<u8>::empty() =~= chaincode_id_bytes(path, name, version)
    );
    if m.record() == chaincode_id_record(path, name, version) {
        let r = chaincode_id_record(path, name, version);
        assert(m.record()[0] == r[0]);
        assert(m.record()[1] == r[1]);
        assert(m.record()[2] == r[2]);
    }
}

/// The bytes that a [`ChaincodeId`] is written as.
pub proof fn chaincode_id_is_written(m: ChaincodeId)
    ensures
        written(m) == set_run(1, encode_utf8(m.path@))
            + set_run(2, encode_utf8(m.name@))
            + set_run(3, encode_utf8(m.version@)),
{
    reveal(fields);
    let l = Layout::ChaincodeId;
    let r = m.record();
    let e3 = encoded_from(l, r, 3);
    assert(e3 == Seq::<u8>::empty());
    write_text(fields(l)[2], m.version@);
    let e2 = set_run(3, encode_utf8(m.version@)) + e3;
    assert(encoded_from(l, r, 2) == e2);
    write_text(fields(l)[1], m.name@);
    let e1 = set_run(2, encode_utf8(m.name@)) + e2;
    assert(encoded_from(l, r, 1) == e1);
    write_text(fields(l)[0], m.path@);
    let e0 = set_run(1, encode_utf8(m.path@)) + e1;
    assert(encoded_from(l, r, 0) == e0);
    assert(written(m) =~= set_run(1, encode_utf8(m.path@))
        + set_run(2, encode_utf8(m.name@))
        + set_run(3, encode_utf8(m.version@)));
}

/// The names of a [`ChaincodeId`] and its fields, in reports of faults.
pub proof fn chaincode_id_is_told_by_name()
    ensures
        ChaincodeId::layout() == Layout::ChaincodeId,
        title(Layout::ChaincodeId) == Some("ChaincodeId"@),
        fields(Layout::ChaincodeId).len() == 3,
        fields(Layout::ChaincodeId)[0].name@ == "path"@,
        fields(Layout::ChaincodeId)[1].name@ == "name"@,
        fields(Layout::ChaincodeId)[2].name@ == "version"@,
{
    reveal(fields);
}

/// A [`ChaincodeId`] is in order where its maps hold no key twice.
pub proof fn chaincode_id_is_in_order(m: ChaincodeId)
    ensures
        m.well_formed(),
{
}

// ---- ChaincodeInput --------------------------------------------------------
/// The bytes of a [`ChaincodeInput`] with every field in place.
pub open spec fn chaincode_input_bytes(
    args: Seq<Seq<u8>>,
    decorations: Seq<(Seq<char>, Seq<u8>)>,
    is_init: bool,
) -> Seq<u8> {
    runs(1, args)
        + runs(2, entry_runs(decorations))
        + number(3, truth(is_init))
}

/// The values that those bytes hold.
pub open spec fn chaincode_input_record(
    args: Seq<Seq<u8>>,
    decorations: Seq<(Seq<char>, Seq<u8>)>,
    is_init: bool,
) -> Seq<Datum> {
    seq![
        Datum::ManyBytes(args),
        Datum::Entries(decorations),
        Datum::Int(truth(is_init)),
    ]
}

pub(crate) proof fn lemma_chaincode_input(
    args: Seq<Seq<u8>>,
    decorations: Seq<(Seq<char>, Seq<u8>)>,
    is_init: bool,
    rest: Seq<u8>,
    depth: nat,
)
    requires
        fits(args),
        keys_differ(decorations),
        fits(entry_runs(decorations)),
        entries_fit(decorations),
        depth >= 1,
    ensures
        fields_merged(
            Layout::ChaincodeInput,
            blank_record(Layout::ChaincodeInput),
            chaincode_input_bytes(args, decorations, is_init) + rest,
            rest.len(),
            depth,
        ) == Ok::<_, DecodeErrorView>((chaincode_input_record(args, decorations, is_init), rest)),
{
    reveal(fields);
    let l = Layout::ChaincodeInput;
    let r0 = blank_record(l);
    let t3 = rest;
    let t2 = number(3, truth(is_init)) + t3;
    let t1 = runs(2, entry_runs(decorations)) + t2;
    let t0 = runs(1, args) + t1;
    assert(chaincode_input_bytes(args, decorations, is_init) + rest =~= t0);
    let r1 = r0.update(0, Datum::ManyBytes(args));
    step_runs(l, r0, 1, args, t1, rest.len(), depth);
    let r2 = r1.update(1, Datum::Entries(decorations));
    step_entries(l, r1, 2, decorations, t2, rest.len(), depth);
    let r3 = r2.update(2, Datum::Int(truth(is_init)));
    step_number(l, r2, 3, truth(is_init), t3, rest.len(), depth);
    assert(r3 =~= chaincode_input_record(args, decorations, is_init));
}

/// What is read of the bytes of a [`ChaincodeInput`] has each value in its field.
pub proof fn chaincode_input_is_read(
    m: ChaincodeInput,
    args: Seq<Seq<u8>>,
    decorations: Seq<(Seq<char>, Seq<u8>)>,
    is_init: bool,
)
    requires
        fits(args),
        keys_differ(decorations),
        fits(entry_runs(decorations)),
        entries_fit(decorations),
    ensures
        decoded(ChaincodeInput::layout(), chaincode_input_bytes(args, decorations, is_init)) is Ok,
        decoded(
            ChaincodeInput::layout(),
            chaincode_input_bytes(args, decorations, is_init),
        ) == Ok::<_, DecodeErrorView>(m.record()) ==> {
            &&& m.args.deep_view() == args
            &&& m.decorations@ == decorations
            &&& m.is_init == is_init
        },
{
    lemma_chaincode_input(args, decorations, is_init, seq![], RECURSION_LIMIT as nat);
    assert(
        chaincode_input_bytes(
            args,
            decorations,
            is_init,
        ) + Seq::<u8>::empty() =~= chaincode_input_bytes(args, decorations, is_init)
    );
    if m.record() == chaincode_input_record(args, decorations, is_init) {
        let r = chaincode_input_record(args, decorations, is_init);
        assert(m.record()[0] == r[0]);
        assert(m.record()[1] == r[1]);
        assert(m.record()[2] == r[2]);
    }
}

/// The bytes that a [`ChaincodeInput`] is written as.
pub proof fn chaincode_input_is_written(m: ChaincodeInput)
    ensures
        written(m) == runs(1, m.args.deep_view())
            + runs(2, set_entry_runs(m.decorations@))
            + set_number(3, truth(m.is_init)),
{
    reveal(fields);
    let l = Layout::ChaincodeInput;
    let r = m.record();
    let e3 = encoded_from(l, r, 3);
    assert(e3 == Seq::<u8>::empty());
    write_number(fields(l)[2], truth(m.is_init));
    let e2 = set_number(3, truth(m.is_init)) + e3;
    assert(encoded_from(l, r, 2) == e2);
    write_entries(fields(l)[1], m.decorations@);
    let e1 = runs(2, set_entry_runs(m.decorations@)) + e2;
    assert(encoded_from(l, r, 1) == e1);
    write_runs(fields(l)[0], m.args.deep_view());
    let e0 = runs(1, m.args.deep_view()) + e1;
    assert(encoded_from(l, r, 0) == e0);
    assert(written(m) =~= runs(1, m.args.deep_view())
        + runs(2, set_entry_runs(m.decorations@))
        + set_number(3, truth(m.is_init)));
}

/// The names of a [`ChaincodeInput`] and its fields, in reports of faults.
pub proof fn chaincode_input_is_told_by_name()
    ensures
        ChaincodeInput::layout() == Layout::ChaincodeInput,
        title(Layout::ChaincodeInput) == Some("ChaincodeInput"@),
        fields(Layout::ChaincodeInput).len() == 3,
        fields(Layout::ChaincodeInput)[0].name@ == "args"@,
        fields(Layout::ChaincodeInput)[1].name@ == "decorations"@,
        fields(Layout::ChaincodeInput)[2].name@ == "is_init"@,
{
    reveal(fields);
}

/// A [`ChaincodeInput`] is in order where its maps hold no key twice.
pub proof fn chaincode_input_is_in_order(m: ChaincodeInput)
    ensures
        keys_differ(m.decorations@) ==> m.well_formed(),
{
}

// ---- ChaincodeSpec ---------------------------------------------------------
/// The bytes of a [`ChaincodeSpec`] with every field in place.
pub open spec fn chaincode_spec_bytes(
    type_code: i32,
    chaincode_id_path: Seq<char>,
    chaincode_id_name: Seq<char>,
    chaincode_id_version: Seq<char>,
    input_args: Seq<Seq<u8>>,
    input_decorations: Seq<(Seq<char>, Seq<u8>)>,
    input_is_init: bool,
    timeout: i32,
) -> Seq<u8> {
    number(1, type_code as int)
        + run(2, chaincode_id_bytes(chaincode_id_path, chaincode_id_name, chaincode_id_version))
        + run(3, chaincode_input_bytes(input_args, input_decorations, input_is_init))
        + number(4, timeout as int)
}

spec fn chaincode_spec_record(
    type_code: i32,
    chaincode_id_path: Seq<char>,
    chaincode_id_name: Seq<char>,
    chaincode_id_version: Seq<char>,
    input_args: Seq<Seq<u8>>,
    input_decorations: Seq<(Seq<char>, Seq<u8>)>,
    input_is_init: bool,
    timeout: i32,
) -> Seq<Datum> {
    seq![
        Datum::Int(type_code as int),
        Datum::Message(
            Some(chaincode_id_record(chaincode_id_path, chaincode_id_name, chaincode_id_version)),
        ),
        Datum::Message(Some(chaincode_input_record(input_args, input_decorations, input_is_init))),
        Datum::Int(timeout as int),
    ]
}

proof fn lemma_chaincode_spec(
    type_code: i32,
    chaincode_id_path: Seq<char>,
    chaincode_id_name: Seq<char>,
    chaincode_id_version: Seq<char>,
    input_args: Seq<Seq<u8>>,
    input_decorations: Seq<(Seq<char>, Seq<u8>)>,
    input_is_init: bool,
    timeout: i32,
    rest: Seq<u8>,
    depth: nat,
)
    requires
        encode_utf8(chaincode_id_path).len() <= u64::MAX,
        encode_utf8(chaincode_id_name).len() <= u64::MAX,
        encode_utf8(chaincode_id_version).len() <= u64::MAX,
        chaincode_id_bytes(
            chaincode_id_path,
            chaincode_id_name,
            chaincode_id_version,
        ).len() <= u64::MAX,
        fits(input_args),
        keys_differ(input_decorations),
        fits(entry_runs(input_decorations)),
        entries_fit(input_decorations),
        chaincode_input_bytes(input_args, input_decorations, input_is_init).len() <= u64::MAX,
        depth >= 2,
    ensures
        fields_merged(
            Layout::ChaincodeSpec,
            blank_record(Layout::ChaincodeSpec),
            chaincode_spec_bytes(
                type_code,
                chaincode_id_path,
                chaincode_id_name,
                chaincode_id_version,
                input_args,
                input_decorations,
                input_is_init,
                timeout,
            ) + rest,
            rest.len(),
            depth,
        ) == Ok::<_, DecodeErrorView>(
            (chaincode_spec_record(
                type_code,
                chaincode_id_path,
                chaincode_id_name,
                chaincode_id_version,
                input_args,
                input_decorations,
                input_is_init,
                timeout,
            ), rest),
        ),
{
    reveal(fields);
    let l = Layout::ChaincodeSpec;
    let r0 = blank_record(l);
    let t4 = rest;
    let t3 = number(4, timeout as int) + t4;
    let t2 = run(3, chaincode_input_bytes(input_args, input_decorations, input_is_init)) + t3;
    let t1 = run(
        2,
        chaincode_id_bytes(chaincode_id_path, chaincode_id_name, chaincode_id_version),
    ) + t2;
    let t0 = number(1, type_code as int) + t1;
    assert(
        chaincode_spec_bytes(
            type_code,
            chaincode_id_path,
            chaincode_id_name,
            chaincode_id_version,
            input_args,
            input_decorations,
            input_is_init,
            timeout,
        ) + rest =~= t0
    );
    let r1 = r0.update(0, Datum::Int(type_code as int));
    step_number(l, r0, 1, type_code as int, t1, rest.len(), depth);
    let r2 = r1.update(
        1,
        Datum::Message(
            Some(chaincode_id_record(chaincode_id_path, chaincode_id_name, chaincode_id_version)),
        ),
    );
    lemma_chaincode_id(
        chaincode_id_path,
        chaincode_id_name,
        chaincode_id_version,
        t2,
        (depth - 1) as nat,
    );
    step_message(
        l,
        r1,
        2,
        Layout::ChaincodeId,
        chaincode_id_bytes(chaincode_id_path, chaincode_id_name, chaincode_id_version),
        chaincode_id_record(chaincode_id_path, chaincode_id_name, chaincode_id_version),
        t2,
        rest.len(),
        depth,
    );
    let r3 = r2.update(
        2,
        Datum::Message(Some(chaincode_input_record(input_args, input_decorations, input_is_init))),
    );
    lemma_chaincode_input(input_args, input_decorations, input_is_init, t3, (depth - 1) as nat);
    step_message(
        l,
        r2,
        3,
        Layout::ChaincodeInput,
        chaincode_input_bytes(input_args, input_decorations, input_is_init),
        chaincode_input_record(input_args, input_decorations, input_is_init),
        t3,
        rest.len(),
        depth,
    );
    let r4 = r3.update(3, Datum::Int(timeout as int));
    step_number(l, r3, 4, timeout as int, t4, rest.len(), depth);
    assert(
        r4 =~= chaincode_spec_record(
            type_code,
            chaincode_id_path,
            chaincode_id_name,
            chaincode_id_version,
            input_args,
            input_decorations,
            input_is_init,
            timeout,
        )
    );
}

/// What is read of the bytes of a [`ChaincodeSpec`] has each value in its field.
pub proof fn chaincode_spec_is_read(
    m: ChaincodeSpec,
    type_code: i32,
    chaincode_id_path: Seq<char>,
    chaincode_id_name: Seq<char>,
    chaincode_id_version: Seq<char>,
    input_args: Seq<Seq<u8>>,
    input_decorations: Seq<(Seq<char>, Seq<u8>)>,
    input_is_init: bool,
    timeout: i32,
)
    requires
        encode_utf8(chaincode_id_path).len() <= u64::MAX,
        encode_utf8(chaincode_id_name).len() <= u64::MAX,
        encode_utf8(chaincode_id_version).len() <= u64::MAX,
        chaincode_id_bytes(
            chaincode_id_path,
            chaincode_id_name,
            chaincode_id_version,
        ).len() <= u64::MAX,
        fits(input_args),
        keys_differ(input_decorations),
        fits(entry_runs(input_decorations)),
        entries_fit(input_decorations),
        chaincode_input_bytes(input_args, input_decorations, input_is_init).len() <= u64::MAX,
    ensures
        decoded(
            ChaincodeSpec::layout(),
            chaincode_spec_bytes(
                type_code,
                chaincode_id_path,
                chaincode_id_name,
                chaincode_id_version,
                input_args,
                input_decorations,
                input_is_init,
                timeout,
            ),
        ) is Ok,
        decoded(
            ChaincodeSpec::layout(),
            chaincode_spec_bytes(
                type_code,
                chaincode_id_path,
                chaincode_id_name,
                chaincode_id_version,
                input_args,
                input_decorations,
                input_is_init,
                timeout,
            ),
        ) == Ok::<_, DecodeErrorView>(m.record()) ==> {
            &&& m.type_code == type_code
            &&& m.chaincode_id is Some
            &&& m.chaincode_id->0.path@ == chaincode_id_path
            &&& m.chaincode_id->0.name@ == chaincode_id_name
            &&& m.chaincode_id->0.version@ == chaincode_id_version
            &&& m.input is Some
            &&& m.input->0.args.deep_view() == input_args
            &&& m.input->0.decorations@ == input_decorations
            &&& m.input->0.is_init == input_is_init
            &&& m.timeout == timeout
        },
{
    lemma_chaincode_spec(
        type_code,
        chaincode_id_path,
        chaincode_id_name,
        chaincode_id_version,
        input_args,
        input_decorations,
        input_is_init,
        timeout,
        seq![],
        RECURSION_LIMIT as nat,
    );
    assert(
        chaincode_spec_bytes(
            type_code,
            chaincode_id_path,
            chaincode_id_name,
            chaincode_id_version,
            input_args,
            input_decorations,
            input_is_init,
            timeout,
        ) + Seq::<u8>::empty() =~= chaincode_spec_bytes(
            type_code,
            chaincode_id_path,
            chaincode_id_name,
            chaincode_id_version,
            input_args,
            input_decorations,
            input_is_init,
            timeout,
        )
    );
    if m.record() == chaincode_spec_record(
        type_code,
        chaincode_id_path,
        chaincode_id_name,
        chaincode_id_version,
        input_args,
        input_decorations,
        input_is_init,
        timeout,
    ) {
        let r = chaincode_spec_record(
            type_code,
            chaincode_id_path,
            chaincode_id_name,
            chaincode_id_version,
            input_args,
            input_decorations,
            input_is_init,
            timeout,
        );
        assert(m.record()[0] == r[0]);
        assert(m.record()[1] == r[1]);
        let r_chaincode_id = r[1]->Message_0->0;
        let m_chaincode_id = m.chaincode_id->0;
        assert(m_chaincode_id.record()[0] == r_chaincode_id[0]);
        assert(m_chaincode_id.record()[1] == r_chaincode_id[1]);
        assert(m_chaincode_id.record()[2] == r_chaincode_id[2]);
        assert(m.record()[2] == r[2]);
        let r_input = r[2]->Message_0->0;
        let m_input = m.input->0;
        assert(m_input.record()[0] == r_input[0]);
        assert(m_input.record()[1] == r_input[1]);
        assert(m_input.record()[2] == r_input[2]);
        assert(m.record()[3] == r[3]);
    }
}

/// The bytes that a [`ChaincodeSpec`] is written as.
pub proof fn chaincode_spec_is_written(m: ChaincodeSpec)
    ensures
        written(m) == set_number(1, m.type_code as int)
            + set_message(2, m.chaincode_id)
            + set_message(3, m.input)
            + set_number(4, m.timeout as int),
{
    reveal(fields);
    let l = Layout::ChaincodeSpec;
    let r = m.record();
    let e4 = encoded_from(l, r, 4);
    assert(e4 == Seq::<u8>::empty());
    write_number(fields(l)[3], m.timeout as int);
    let e3 = set_number(4, m.timeout as int) + e4;
    assert(encoded_from(l, r, 3) == e3);
    write_message(fields(l)[2], m.input);
    let e2 = set_message(3, m.input) + e3;
    assert(encoded_from(l, r, 2) == e2);
    write_message(fields(l)[1], m.chaincode_id);
    let e1 = set_message(2, m.chaincode_id) + e2;
    assert(encoded_from(l, r, 1) == e1);
    write_number(fields(l)[0], m.type_code as int);
    let e0 = set_number(1, m.type_code as int) + e1;
    assert(encoded_from(l, r, 0) == e0);
    assert(written(m) =~= set_number(1, m.type_code as int)
        + set_message(2, m.chaincode_id)
        + set_message(3, m.input)
        + set_number(4, m.timeout as int));
}

/// The names of a [`ChaincodeSpec`] and its fields, in reports of faults.
pub proof fn chaincode_spec_is_told_by_name()
    ensures
        ChaincodeSpec::layout() == Layout::ChaincodeSpec,
        title(Layout::ChaincodeSpec) == Some("ChaincodeSpec"@),
        fields(Layout::ChaincodeSpec).len() == 4,
        fields(Layout::ChaincodeSpec)[0].name@ == "r#type"@,
        fields(Layout::ChaincodeSpec)[1].name@ == "chaincode_id"@,
        fields(Layout::ChaincodeSpec)[2].name@ == "input"@,
        fields(Layout::ChaincodeSpec)[3].name@ == "timeout"@,
{
    reveal(fields);
}

/// A [`ChaincodeSpec`] is in order where its maps hold no key twice.
pub proof fn chaincode_spec_is_in_order(m: ChaincodeSpec)
    ensures
        (m.chaincode_id matches Some(inner)
            ==> inner.well_formed()) && (m.input matches Some(inner) ==> inner.well_formed())
                ==> m.well_formed(),
{
}

// ---- Response --------------------------------------------------------------
/// The bytes of a [`Response`] with every field in place.
pub open spec fn response_bytes(
    status: i32,
    message: Seq<char>,
    payload: Seq<u8>,
) -> Seq<u8> {
    number(1, status as int)
        + run(2, encode_utf8(message))
        + run(3, payload)
}

spec fn response_record(
    status: i32,
    message: Seq<char>,
    payload: Seq<u8>,
) -> Seq<Datum> {
    seq![
        Datum::Int(status as int),
        Datum::Text(message),
        Datum::Bytes(payload),
    ]
}

proof fn lemma_response(
    status: i32,
    message: Seq<char>,
    payload: Seq<u8>,
    rest: Seq<u8>,
    depth: nat,
)
    requires
        encode_utf8(message).len() <= u64::MAX,
        payload.len() <= u64::MAX,
    ensures
        fields_merged(
            Layout::Response,
            blank_record(Layout::Response),
            response_bytes(status, message, payload) + rest,
            rest.len(),
            depth,
        ) == Ok::<_, DecodeErrorView>((response_record(status, message, payload), rest)),
{
    reveal(fields);
    let l = Layout::Response;
    let r0 = blank_record(l);
    let t3 = rest;
    let t2 = run(3, payload) + t3;
    let t1 = run(2, encode_utf8(message)) + t2;
    let t0 = number(1, status as int) + t1;
    assert(response_bytes(status, message, payload) + rest =~= t0);
    let r1 = r0.update(0, Datum::Int(status as int));
    step_number(l, r0, 1, status as int, t1, rest.len(), depth);
    let r2 = r1.update(1, Datum::Text(message));
    step_text(l, r1, 2, message, t2, rest.len(), depth);
    let r3 = r2.update(2, Datum::Bytes(payload));
    step_bytes(l, r2, 3, payload, t3, rest.len(), depth);
    assert(r3 =~= response_record(status, message, payload));
}

/// What is read of the bytes of a [`Response`] has each value in its field.
pub proof fn response_is_read(
    m: Response,
    status: i32,
    message: Seq<char>,
    payload: Seq<u8>,
)
    requires
        encode_utf8(message).len() <= u64::MAX,
        payload.len() <= u64::MAX,
    ensures
        decoded(Response::layout(), response_bytes(status, message, payload)) is Ok,
        decoded(
            Response::layout(),
            response_bytes(status, message, payload),
        ) == Ok::<_, DecodeErrorView>(m.record()) ==> {
            &&& m.status == status
            &&& m.message@ == message
            &&& m.payload@ == payload
        },
{
    lemma_response(status, message, payload, seq![], RECURSION_LIMIT as nat);
    assert(
        response_bytes(
            status,
            message,
            payload,
        ) + Seq::<u8>::empty() =~= response_bytes(status, message, payload)
    );
    if m.record() == response_record(status, message, payload) {
        let r = response_record(status, message, payload);
        assert(m.record()[0] == r[0]);
        assert(m.record()[1] == r[1]);
        assert(m.record()[2] == r[2]);
    }
}

/// The bytes that a [`Response`] is written as.
pub proof fn response_is_written(m: Response)
    ensures
        written(m) == set_number(1, m.status as int)
            + set_run(2, encode_utf8(m.message@))
            + set_run(3, m.payload@),
{
    reveal(fields);
    let l = Layout::Response;
    let r = m.record();
    let e3 = encoded_from(l, r, 3);
    assert(e3 == Seq::<u8>::empty());
    write_bytes(fields(l)[2], m.payload@);
    let e2 = set_run(3, m.payload@) + e3;
    assert(encoded_from(l, r, 2) == e2);
    write_text(fields(l)[1], m.message@);
    let e1 = set_run(2, encode_utf8(m.message@)) + e2;
    assert(encoded_from(l, r, 1) == e1);
    write_number(fields(l)[0], m.status as int);
    let e0 = set_number(1, m.status as int) + e1;
    assert(encoded_from(l, r, 0) == e0);
    assert(written(m) =~= set_number(1, m.status as int)
        + set_run(2, encode_utf8(m.message@))
        + set_run(3, m.payload@));
}

/// The names of a [`Response`] and its fields, in reports of faults.
pub proof fn response_is_told_by_name()
    ensures
        Response::layout() == Layout::Response,
        title(Layout::Response) == Some("Response"@),
        fields(Layout::Response).len() == 3,
        fields(Layout::Response)[0].name@ == "status"@,
        fields(Layout::Response)[1].name@ == "message"@,
        fields(Layout::Response)[2].name@ == "payload"@,
{
    reveal(fields);
}

/// A [`Response`] is in order where its maps hold no key twice.
pub proof fn response_is_in_order(m: Response)
    ensures
        m.well_formed(),
{
}

// ---- GetState --------------------------------------------------------------
/// The bytes of a [`GetState`] with every field in place.
pub open spec fn get_state_bytes(
    key: Seq<char>,
    collection: Seq<char>,
) -> Seq<u8> {
    run(1, encode_utf8(key))
        + run(2, encode_utf8(collection))
}

spec fn get_state_record(
    key: Seq<char>,
    collection: Seq<char>,
) -> Seq<Datum> {
    seq![
        Datum::Text(key),
        Datum::Text(collection),
    ]
}

proof fn lemma_get_state(
    key: Seq<char>,
    collection: Seq<char>,
    rest: Seq<u8>,
    depth: nat,
)
    requires
        encode_utf8(key).len() <= u64::MAX,
        encode_utf8(collection).len() <= u64::MAX,
    ensures
        fields_merged(
            Layout::GetState,
            blank_record(Layout::GetState),
            get_state_bytes(key, collection) + rest,
            rest.len(),
            depth,
        ) == Ok::<_, DecodeErrorView>((get_state_record(key, collection), rest)),
{
    reveal(fields);
    let l = Layout::GetState;
    let r0 = blank_record(l);
    let t2 = rest;
    let t1 = run(2, encode_utf8(collection)) + t2;
    let t0 = run(1, encode_utf8(key)) + t1;
    assert(get_state_bytes(key, collection) + rest =~= t0);
    let r1 = r0.update(0, Datum::Text(key));
    step_text(l, r0, 1, key, t1, rest.len(), depth);
    let r2 = r1.update(1, Datum::Text(collection));
    step_text(l, r1, 2, collection, t2, rest.len(), depth);
    assert(r2 =~= get_state_record(key, collection));
}

/// What is read of the bytes of a [`GetState`] has each value in its field.
pub proof fn get_state_is_read(
    m: GetState,
    key: Seq<char>,
    collection: Seq<char>,
)
    requires
        encode_utf8(key).len() <= u64::MAX,
        encode_utf8(collection).len() <= u64::MAX,
    ensures
        decoded(GetState::layout(), get_state_bytes(key, collection)) is Ok,
        decoded(
            GetState::layout(),
            get_state_bytes(key, collection),
        ) == Ok::<_, DecodeErrorView>(m.record()) ==> {
            &&& m.key@ == key
            &&& m.collection@ == collection
        },
{
    lemma_get_state(key, collection, seq![], RECURSION_LIMIT as nat);
    assert(
        get_state_bytes(key, collection) + Seq::<u8>::empty() =~= get_state_bytes(key, collection)
    );
    if m.record() == get_state_record(key, collection) {
        let r = get_state_record(key, collection);
        assert(m.record()[0] == r[0]);
        assert(m.record()[1] == r[1]);
    }
}

/// The bytes that a [`GetState`] is written as.
pub proof fn get_state_is_written(m: GetState)
    ensures
        written(m) == set_run(1, encode_utf8(m.key@))
            + set_run(2, encode_utf8(m.collection@)),
{
    reveal(fields);
    let l = Layout::GetState;
    let r = m.record();
    let e2 = encoded_from(l, r, 2);
    assert(e2 == Seq::<u8>::empty());
    write_text(fields(l)[1], m.collection@);
    let e1 = set_run(2, encode_utf8(m.collection@)) + e2;
    assert(encoded_from(l, r, 1) == e1);
    write_text(fields(l)[0], m.key@);
    let e0 = set_run(1, encode_utf8(m.key@)) + e1;
    assert(encoded_from(l, r, 0) == e0);
    assert(written(m) =~= set_run(1, encode_utf8(m.key@))
        + set_run(2, encode_utf8(m.collection@)));
}

/// The names of a [`GetState`] and its fields, in reports of faults.
pub proof fn get_state_is_told_by_name()
    ensures
        GetState::layout() == Layout::GetState,
        title(Layout::GetState) == Some("GetState"@),
        fields(Layout::GetState).len() == 2,
        fields(Layout::GetState)[0].name@ == "key"@,
        fields(Layout::GetState)[1].name@ == "collection"@,
{
    reveal(fields);
}

/// A [`GetState`] is in order where its maps hold no key twice.
pub proof fn get_state_is_in_order(m: GetState)
    ensures
        m.well_formed(),
{
}

// ---- PutState --------------------------------------------------------------
/// The bytes of a [`PutState`] with every field in place.
pub open spec fn put_state_bytes(
    key: Seq<char>,
    value: Seq<u8>,
    collection: Seq<char>,
) -> Seq<u8> {
    run(1, encode_utf8(key))
        + run(2, value)
        + run(3, encode_utf8(collection))
}

spec fn put_state_record(
    key: Seq<char>,
    value: Seq<u8>,
    collection: Seq<char>,
) -> Seq<Datum> {
    seq![
        Datum::Text(key),
        Datum::Bytes(value),
        Datum::Text(collection),
    ]
}

proof fn lemma_put_state(
    key: Seq<char>,
    value: Seq<u8>,
    collection: Seq<char>,
    rest: Seq<u8>,
    depth: nat,
)
    requires
        encode_utf8(key).len() <= u64::MAX,
        value.len() <= u64::MAX,
        encode_utf8(collection).len() <= u64::MAX,
    ensures
        fields_merged(
            Layout::PutState,
            blank_record(Layout::PutState),
            put_state_bytes(key, value, collection) + rest,
            rest.len(),
            depth,
        ) == Ok::<_, DecodeErrorView>((put_state_record(key, value, collection), rest)),
{
    reveal(fields);
    let l = Layout::PutState;
    let r0 = blank_record(l);
    let t3 = rest;
    let t2 = run(3, encode_utf8(collection)) + t3;
    let t1 = run(2, value) + t2;
    let t0 = run(1, encode_utf8(key)) + t1;
    assert(put_state_bytes(key, value, collection) + rest =~= t0);
    let r1 = r0.update(0, Datum::Text(key));
    step_text(l, r0, 1, key, t1, rest.len(), depth);
    let r2 = r1.update(1, Datum::Bytes(value));
    step_bytes(l, r1, 2, value, t2, rest.len(), depth);
    let r3 = r2.update(2, Datum::Text(collection));
    step_text(l, r2, 3, collection, t3, rest.len(), depth);
    assert(r3 =~= put_state_record(key, value, collection));
}

/// What is read of the bytes of a [`PutState`] has each value in its field.
pub proof fn put_state_is_read(
    m: PutState,
    key: Seq<char>,
    value: Seq<u8>,
    collection: Seq<char>,
)
    requires
        encode_utf8(key).len() <= u64::MAX,
        value.len() <= u64::MAX,
        encode_utf8(collection).len() <= u64::MAX,
    ensures
        decoded(PutState::layout(), put_state_bytes(key, value, collection)) is Ok,
        decoded(
            PutState::layout(),
            put_state_bytes(key, value, collection),
        ) == Ok::<_, DecodeErrorView>(m.record()) ==> {
            &&& m.key@ == key
            &&& m.value@ == value
            &&& m.collection@ == collection
        },
{
    lemma_put_state(key, value, collection, seq![], RECURSION_LIMIT as nat);
    assert(
        put_state_bytes(
            key,
            value,
            collection,
        ) + Seq::<u8>::empty() =~= put_state_bytes(key, value, collection)
    );
    if m.record() == put_state_record(key, value, collection) {
        let r = put_state_record(key, value, collection);
        assert(m.record()[0] == r[0]);
        assert(m.record()[1] == r[1]);
        assert(m.record()[2] == r[2]);
    }
}

/// The bytes that a [`PutState`] is written as.
pub proof fn put_state_is_written(m: PutState)
    ensures
        written(m) == set_run(1, encode_utf8(m.key@))
            + set_run(2, m.value@)
            + set_run(3, encode_utf8(m.collection@)),
{
    reveal(fields);
    let l = Layout::PutState;
    let r = m.record();
    let e3 = encoded_from(l, r, 3);
    assert(e3 == Seq::<u8>::empty());
    write_text(fields(l)[2], m.collection@);
    let e2 = set_run(3, encode_utf8(m.collection@)) + e3;
    assert(encoded_from(l, r, 2) == e2);
    write_bytes(fields(l)[1], m.value@);
    let e1 = set_run(2, m.value@) + e2;
    assert(encoded_from(l, r, 1) == e1);
    write_text(fields(l)[0], m.key@);
    let e0 = set_run(1, encode_utf8(m.key@)) + e1;
    assert(encoded_from(l, r, 0) == e0);
    assert(written(m) =~= set_run(1, encode_utf8(m.key@))
        + set_run(2, m.value@)
        + set_run(3, encode_utf8(m.collection@)));
}

/// The names of a [`PutState`] and its fields, in reports of faults.
pub proof fn put_state_is_told_by_name()
    ensures
        PutState::layout() == Layout::PutState,
        title(Layout::PutState) == Some("PutState"@),
        fields(Layout::PutState).len() == 3,
        fields(Layout::PutState)[0].name@ == "key"@,
        fields(Layout::PutState)[1].name@ == "value"@,
        fields(Layout::PutState)[2].name@ == "collection"@,
{
    reveal(fields);
}

/// A [`PutState`] is in order where its maps hold no key twice.
pub proof fn put_state_is_in_order(m: PutState)
    ensures
        m.well_formed(),
{
}

// ---- DelState --------------------------------------------------------------
/// The bytes of a [`DelState`] with every field in place.
pub open spec fn del_state_bytes(
    key: Seq<char>,
    collection: Seq<char>,
) -> Seq<u8> {
    run(1, encode_utf8(key))
        + run(2, encode_utf8(collection))
}

spec fn del_state_record(
    key: Seq<char>,
    collection: Seq<char>,
) -> Seq<Datum> {
    seq![
        Datum::Text(key),
        Datum::Text(collection),
    ]
}

proof fn lemma_del_state(
    key: Seq<char>,
    collection: Seq<char>,
    rest: Seq<u8>,
    depth: nat,
)
    requires
        encode_utf8(key).len() <= u64::MAX,
        encode_utf8(collection).len() <= u64::MAX,
    ensures
        fields_merged(
            Layout::DelState,
            blank_record(Layout::DelState),
            del_state_bytes(key, collection) + rest,
            rest.len(),
            depth,
        ) == Ok::<_, DecodeErrorView>((del_state_record(key, collection), rest)),
{
    reveal(fields);
    let l = Layout::DelState;
    let r0 = blank_record(l);
    let t2 = rest;
    let t1 = run(2, encode_utf8(collection)) + t2;
    let t0 = run(1, encode_utf8(key)) + t1;
    assert(del_state_bytes(key, collection) + rest =~= t0);
    let r1 = r0.update(0, Datum::Text(key));
    step_text(l, r0, 1, key, t1, rest.len(), depth);
    let r2 = r1.update(1, Datum::Text(collection));
    step_text(l, r1, 2, collection, t2, rest.len(), depth);
    assert(r2 =~= del_state_record(key, collection));
}

/// What is read of the bytes of a [`DelState`] has each value in its field.
pub proof fn del_state_is_read(
    m: DelState,
    key: Seq<char>,
    collection: Seq<char>,
)
    requires
        encode_utf8(key).len() <= u64::MAX,
        encode_utf8(collection).len() <= u64::MAX,
    ensures
        decoded(DelState::layout(), del_state_bytes(key, collection)) is Ok,
        decoded(
            DelState::layout(),
            del_state_bytes(key, collection),
        ) == Ok::<_, DecodeErrorView>(m.record()) ==> {
            &&& m.key@ == key
            &&& m.collection@ == collection
        },
{
    lemma_del_state(key, collection, seq![], RECURSION_LIMIT as nat);
    assert(
        del_state_bytes(key, collection) + Seq::<u8>::empty() =~= del_state_bytes(key, collection)
    );
    if m.record() == del_state_record(key, collection) {
        let r = del_state_record(key, collection);
        assert(m.record()[0] == r[0]);
        assert(m.record()[1] == r[1]);
    }
}

/// The bytes that a [`DelState`] is written as.
pub proof fn del_state_is_written(m: DelState)
    ensures
        written(m) == set_run(1, encode_utf8(m.key@))
            + set_run(2, encode_utf8(m.collection@)),
{
    reveal(fields);
    let l = Layout::DelState;
    let r = m.record();
    let e2 = encoded_from(l, r, 2);
    assert(e2 == Seq::<u8>::empty());
    write_text(fields(l)[1], m.collection@);
    let e1 = set_run(2, encode_utf8(m.collection@)) + e2;
    assert(encoded_from(l, r, 1) == e1);
    write_text(fields(l)[0], m.key@);
    let e0 = set_run(1, encode_utf8(m.key@)) + e1;
    assert(encoded_from(l, r, 0) == e0);
    assert(written(m) =~= set_run(1, encode_utf8(m.key@))
        + set_run(2, encode_utf8(m.collection@)));
}

/// The names of a [`DelState`] and its fields, in reports of faults.
pub proof fn del_state_is_told_by_name()
    ensures
        DelState::layout() == Layout::DelState,
        title(Layout::DelState) == Some("DelState"@),
        fields(Layout::DelState).len() == 2,
        fields(Layout::DelState)[0].name@ == "key"@,
        fields(Layout::DelState)[1].name@ == "collection"@,
{
    reveal(fields);
}

/// A [`DelState`] is in order where its maps hold no key twice.
pub proof fn del_state_is_in_order(m: DelState)
    ensures
        m.well_formed(),
{
}

// ---- PurgePrivateState -----------------------------------------------------
/// The bytes of a [`PurgePrivateState`] with every field in place.
pub open spec fn purge_private_state_bytes(
    key: Seq<char>,
    collection: Seq<char>,
) -> Seq<u8> {
    run(1, encode_utf8(key))
        + run(2, encode_utf8(collection))
}

spec fn purge_private_state_record(
    key: Seq<char>,
    collection: Seq<char>,
) -> Seq<Datum> {
    seq![
        Datum::Text(key),
        Datum::Text(collection),
    ]
}

proof fn lemma_purge_private_state(
    key: Seq<char>,
    collection: Seq<char>,
    rest: Seq<u8>,
    depth: nat,
)
    requires
        encode_utf8(key).len() <= u64::MAX,
        encode_utf8(collection).len() <= u64::MAX,
    ensures
        fields_merged(
            Layout::PurgePrivateState,
            blank_record(Layout::PurgePrivateState),
            purge_private_state_bytes(key, collection) + rest,
            rest.len(),
            depth,
        ) == Ok::<_, DecodeErrorView>((purge_private_state_record(key, collection), rest)),
{
    reveal(fields);
    let l = Layout::PurgePrivateState;
    let r0 = blank_record(l);
    let t2 = rest;
    let t1 = run(2, encode_utf8(collection)) + t2;
    let t0 = run(1, encode_utf8(key)) + t1;
    assert(purge_private_state_bytes(key, collection) + rest =~= t0);
    let r1 = r0.update(0, Datum::Text(key));
    step_text(l, r0, 1, key, t1, rest.len(), depth);
    let r2 = r1.update(1, Datum::Text(collection));
    step_text(l, r1, 2, collection, t2, rest.len(), depth);
    assert(r2 =~= purge_private_state_record(key, collection));
}

/// What is read of the bytes of a [`PurgePrivateState`] has each value in its field.
pub proof fn purge_private_state_is_read(
    m: PurgePrivateState,
    key: Seq<char>,
    collection: Seq<char>,
)
    requires
        encode_utf8(key).len() <= u64::MAX,
        encode_utf8(collection).len() <= u64::MAX,
    ensures
        decoded(PurgePrivateState::layout(), purge_private_state_bytes(key, collection)) is Ok,
        decoded(
            PurgePrivateState::layout(),
            purge_private_state_bytes(key, collection),
        ) == Ok::<_, DecodeErrorView>(m.record()) ==> {
            &&& m.key@ == key
            &&& m.collection@ == collection
        },
{
    lemma_purge_private_state(key, collection, seq![], RECURSION_LIMIT as nat);
    assert(
        purge_private_state_bytes(key, collection) + Seq::<u8>::empty()
            =~= purge_private_state_bytes(key, collection)
    );
    if m.record() == purge_private_state_record(key, collection) {
        let r = purge_private_state_record(key, collection);
        assert(m.record()[0] == r[0]);
        assert(m.record()[1] == r[1]);
    }
}

/// The bytes that a [`PurgePrivateState`] is written as.
pub proof fn purge_private_state_is_written(m: PurgePrivateState)
    ensures
        written(m) == set_run(1, encode_utf8(m.key@))
            + set_run(2, encode_utf8(m.collection@)),
{
    reveal(fields);
    let l = Layout::PurgePrivateState;
    let r = m.record();
    let e2 = encoded_from(l, r, 2);
    assert(e2 == Seq::<u8>::empty());
    write_text(fields(l)[1], m.collection@);
    let e1 = set_run(2, encode_utf8(m.collection@)) + e2;
    assert(encoded_from(l, r, 1) == e1);
    write_text(fields(l)[0], m.key@);
    let e0 = set_run(1, encode_utf8(m.key@)) + e1;
    assert(encoded_from(l, r, 0) == e0);
    assert(written(m) =~= set_run(1, encode_utf8(m.key@))
        + set_run(2, encode_utf8(m.collection@)));
}

/// The names of a [`PurgePrivateState`] and its fields, in reports of faults.
pub proof fn purge_private_state_is_told_by_name()
    ensures
        PurgePrivateState::layout() == Layout::PurgePrivateState,
        title(Layout::PurgePrivateState) == Some("PurgePrivateState"@),
        fields(Layout::PurgePrivateState).len() == 2,
        fields(Layout::PurgePrivateState)[0].name@ == "key"@,
        fields(Layout::PurgePrivateState)[1].name@ == "collection"@,
{
    reveal(fields);
}

/// A [`PurgePrivateState`] is in order where its maps hold no key twice.
pub proof fn purge_private_state_is_in_order(m: PurgePrivateState)
    ensures
        m.well_formed(),
{
}

// ---- GetStateByRange -------------------------------------------------------
/// The bytes of a [`GetStateByRange`] with every field in place.
pub open spec fn get_state_by_range_bytes(
    start_key: Seq<char>,
    end_key: Seq<char>,
    collection: Seq<char>,
    metadata: Seq<u8>,
) -> Seq<u8> {
    run(1, encode_utf8(start_key))
        + run(2, encode_utf8(end_key))
        + run(3, encode_utf8(collection))
        + run(4, metadata)
}

spec fn get_state_by_range_record(
    start_key: Seq<char>,
    end_key: Seq<char>,
    collection: Seq<char>,
    metadata: Seq<u8>,
) -> Seq<Datum> {
    seq![
        Datum::Text(start_key),
        Datum::Text(end_key),
        Datum::Text(collection),
        Datum::Bytes(metadata),
    ]
}

proof fn lemma_get_state_by_range(
    start_key: Seq<char>,
    end_key: Seq<char>,
    collection: Seq<char>,
    metadata: Seq<u8>,
    rest: Seq<u8>,
    depth: nat,
)
    requires
        encode_utf8(start_key).len() <= u64::MAX,
        encode_utf8(end_key).len() <= u64::MAX,
        encode_utf8(collection).len() <= u64::MAX,
        metadata.len() <= u64::MAX,
    ensures
        fields_merged(
            Layout::GetStateByRange,
            blank_record(Layout::GetStateByRange),
            get_state_by_range_bytes(start_key, end_key, collection, metadata) + rest,
            rest.len(),
            depth,
        ) == Ok::<_, DecodeErrorView>(
            (get_state_by_range_record(start_key, end_key, collection, metadata), rest),
        ),
{
    reveal(fields);
    let l = Layout::GetStateByRange;
    let r0 = blank_record(l);
    let t4 = rest;
    let t3 = run(4, metadata) + t4;
    let t2 = run(3, encode_utf8(collection)) + t3;
    let t1 = run(2, encode_utf8(end_key)) + t2;
    let t0 = run(1, encode_utf8(start_key)) + t1;
    assert(get_state_by_range_bytes(start_key, end_key, collection, metadata) + rest =~= t0);
    let r1 = r0.update(0, Datum::Text(start_key));
    step_text(l, r0, 1, start_key, t1, rest.len(), depth);
    let r2 = r1.update(1, Datum::Text(end_key));
    step_text(l, r1, 2, end_key, t2, rest.len(), depth);
    let r3 = r2.update(2, Datum::Text(collection));
    step_text(l, r2, 3, collection, t3, rest.len(), depth);
    let r4 = r3.update(3, Datum::Bytes(metadata));
    step_bytes(l, r3, 4, metadata, t4, rest.len(), depth);
    assert(r4 =~= get_state_by_range_record(start_key, end_key, collection, metadata));
}

/// What is read of the bytes of a [`GetStateByRange`] has each value in its field.
pub proof fn get_state_by_range_is_read(
    m: GetStateByRange,
    start_key: Seq<char>,
    end_key: Seq<char>,
    collection: Seq<char>,
    metadata: Seq<u8>,
)
    requires
        encode_utf8(start_key).len() <= u64::MAX,
        encode_utf8(end_key).len() <= u64::MAX,
        encode_utf8(collection).len() <= u64::MAX,
        metadata.len() <= u64::MAX,
    ensures
        decoded(
            GetStateByRange::layout(),
            get_state_by_range_bytes(start_key, end_key, collection, metadata),
        ) is Ok,
        decoded(
            GetStateByRange::layout(),
            get_state_by_range_bytes(start_key, end_key, collection, metadata),
        ) == Ok::<_, DecodeErrorView>(m.record()) ==> {
            &&& m.start_key@ == start_key
            &&& m.end_key@ == end_key
            &&& m.collection@ == collection
            &&& m.metadata@ == metadata
        },
{
    lemma_get_state_by_range(
        start_key,
        end_key,
        collection,
        metadata,
        seq![],
        RECURSION_LIMIT as nat,
    );
    assert(
        get_state_by_range_bytes(
            start_key,
            end_key,
            collection,
            metadata,
        ) + Seq::<u8>::empty() =~= get_state_by_range_bytes(
            start_key,
            end_key,
            collection,
            metadata,
        )
    );
    if m.record() == get_state_by_range_record(start_key, end_key, collection, metadata) {
        let r = get_state_by_range_record(start_key, end_key, collection, metadata);
        assert(m.record()[0] == r[0]);
        assert(m.record()[1] == r[1]);
        assert(m.record()[2] == r[2]);
        assert(m.record()[3] == r[3]);
    }
}

/// The bytes that a [`GetStateByRange`] is written as.
pub proof fn get_state_by_range_is_written(m: GetStateByRange)
    ensures
        written(m) == set_run(1, encode_utf8(m.start_key@))
            + set_run(2, encode_utf8(m.end_key@))
            + set_run(3, encode_utf8(m.collection@))
            + set_run(4, m.metadata@),
{
    reveal(fields);
    let l = Layout::GetStateByRange;
    let r = m.record();
    let e4 = encoded_from(l, r, 4);
    assert(e4 == Seq::<u8>::empty());
    write_bytes(fields(l)[3], m.metadata@);
    let e3 = set_run(4, m.metadata@) + e4;
    assert(encoded_from(l, r, 3) == e3);
    write_text(fields(l)[2], m.collection@);
    let e2 = set_run(3, encode_utf8(m.collection@)) + e3;
    assert(encoded_from(l, r, 2) == e2);
    write_text(fields(l)[1], m.end_key@);
    let e1 = set_run(2, encode_utf8(m.end_key@)) + e2;
    assert(encoded_from(l, r, 1) == e1);
    write_text(fields(l)[0], m.start_key@);
    let e0 = set_run(1, encode_utf8(m.start_key@)) + e1;
    assert(encoded_from(l, r, 0) == e0);
    assert(written(m) =~= set_run(1, encode_utf8(m.start_key@))
        + set_run(2, encode_utf8(m.end_key@))
        + set_run(3, encode_utf8(m.collection@))
        + set_run(4, m.metadata@));
}

/// The names of a [`GetStateByRange`] and its fields, in reports of faults.
pub proof fn get_state_by_range_is_told_by_name()
    ensures
        GetStateByRange::layout() == Layout::GetStateByRange,
        title(Layout::GetStateByRange) == Some("GetStateByRange"@),
        fields(Layout::GetStateByRange).len() == 4,
        fields(Layout::GetStateByRange)[0].name@ == "start_key"@,
        fields(Layout::GetStateByRange)[1].name@ == "end_key"@,
        fields(Layout::GetStateByRange)[2].name@ == "collection"@,
        fields(Layout::GetStateByRange)[3].name@ == "metadata"@,
{
    reveal(fields);
}

/// A [`GetStateByRange`] is in order where its maps hold no key twice.
pub proof fn get_state_by_range_is_in_order(m: GetStateByRange)
    ensures
        m.well_formed(),
{
}

// ---- GetQueryResult --------------------------------------------------------
/// The bytes of a [`GetQueryResult`] with every field in place.
pub open spec fn get_query_result_bytes(
    query: Seq<char>,
    collection: Seq<char>,
    metadata: Seq<u8>,
) -> Seq<u8> {
    run(1, encode_utf8(query))
        + run(2, encode_utf8(collection))
        + run(3, metadata)
}

spec fn get_query_result_record(
    query: Seq<char>,
    collection: Seq<char>,
    metadata: Seq<u8>,
) -> Seq<Datum> {
    seq![
        Datum::Text(query),
        Datum::Text(collection),
        Datum::Bytes(metadata),
    ]
}

proof fn lemma_get_query_result(
    query: Seq<char>,
    collection: Seq<char>,
    metadata: Seq<u8>,
    rest: Seq<u8>,
    depth: nat,
)
    requires
        encode_utf8(query).len() <= u64::MAX,
        encode_utf8(collection).len() <= u64::MAX,
        metadata.len() <= u64::MAX,
    ensures
        fields_merged(
            Layout::GetQueryResult,
            blank_record(Layout::GetQueryResult),
            get_query_result_bytes(query, collection, metadata) + rest,
            rest.len(),
            depth,
        ) == Ok::<_, DecodeErrorView>((get_query_result_record(query, collection, metadata), rest)),
{
    reveal(fields);
    let l = Layout::GetQueryResult;
    let r0 = blank_record(l);
    let t3 = rest;
    let t2 = run(3, metadata) + t3;
    let t1 = run(2, encode_utf8(collection)) + t2;
    let t0 = run(1, encode_utf8(query)) + t1;
    assert(get_query_result_bytes(query, collection, metadata) + rest =~= t0);
    let r1 = r0.update(0, Datum::Text(query));
    step_text(l, r0, 1, query, t1, rest.len(), depth);
    let r2 = r1.update(1, Datum::Text(collection));
    step_text(l, r1, 2, collection, t2, rest.len(), depth);
    let r3 = r2.update(2, Datum::Bytes(metadata));
    step_bytes(l, r2, 3, metadata, t3, rest.len(), depth);
    assert(r3 =~= get_query_result_record(query, collection, metadata));
}

/// What is read of the bytes of a [`GetQueryResult`] has each value in its field.
pub proof fn get_query_result_is_read(
    m: GetQueryResult,
    query: Seq<char>,
    collection: Seq<char>,
    metadata: Seq<u8>,
)
    requires
        encode_utf8(query).len() <= u64::MAX,
        encode_utf8(collection).len() <= u64::MAX,
        metadata.len() <= u64::MAX,
    ensures
        decoded(
            GetQueryResult::layout(),
            get_query_result_bytes(query, collection, metadata),
        ) is Ok,
        decoded(
            GetQueryResult::layout(),
            get_query_result_bytes(query, collection, metadata),
        ) == Ok::<_, DecodeErrorView>(m.record()) ==> {
            &&& m.query@ == query
            &&& m.collection@ == collection
            &&& m.metadata@ == metadata
        },
{
    lemma_get_query_result(query, collection, metadata, seq![], RECURSION_LIMIT as nat);
    assert(
        get_query_result_bytes(
            query,
            collection,
            metadata,
        ) + Seq::<u8>::empty() =~= get_query_result_bytes(query, collection, metadata)
    );
    if m.record() == get_query_result_record(query, collection, metadata) {
        let r = get_query_result_record(query, collection, metadata);
        assert(m.record()[0] == r[0]);
        assert(m.record()[1] == r[1]);
        assert(m.record()[2] == r[2]);
    }
}

/// The bytes that a [`GetQueryResult`] is written as.
pub proof fn get_query_result_is_written(m: GetQueryResult)
    ensures
        written(m) == set_run(1, encode_utf8(m.query@))
            + set_run(2, encode_utf8(m.collection@))
            + set_run(3, m.metadata@),
{
    reveal(fields);
    let l = Layout::GetQueryResult;
    let r = m.record();
    let e3 = encoded_from(l, r, 3);
    assert(e3 == Seq::<u8>::empty());
    write_bytes(fields(l)[2], m.metadata@);
    let e2 = set_run(3, m.metadata@) + e3;
    assert(encoded_from(l, r, 2) == e2);
    write_text(fields(l)[1], m.collection@);
    let e1 = set_run(2, encode_utf8(m.collection@)) + e2;
    assert(encoded_from(l, r, 1) == e1);
    write_text(fields(l)[0], m.query@);
    let e0 = set_run(1, encode_utf8(m.query@)) + e1;
    assert(encoded_from(l, r, 0) == e0);
    assert(written(m) =~= set_run(1, encode_utf8(m.query@))
        + set_run(2, encode_utf8(m.collection@))
        + set_run(3, m.metadata@));
}

/// The names of a [`GetQueryResult`] and its fields, in reports of faults.
pub proof fn get_query_result_is_told_by_name()
    ensures
        GetQueryResult::layout() == Layout::GetQueryResult,
        title(Layout::GetQueryResult) == Some("GetQueryResult"@),
        fields(Layout::GetQueryResult).len() == 3,
        fields(Layout::GetQueryResult)[0].name@ == "query"@,
        fields(Layout::GetQueryResult)[1].name@ == "collection"@,
        fields(Layout::GetQueryResult)[2].name@ == "metadata"@,
{
    reveal(fields);
}

/// A [`GetQueryResult`] is in order where its maps hold no key twice.
pub proof fn get_query_result_is_in_order(m: GetQueryResult)
    ensures
        m.well_formed(),
{
}

// ---- QueryMetadata ---------------------------------------------------------
/// The bytes of a [`QueryMetadata`] with every field in place.
pub open spec fn query_metadata_bytes(
    page_size: i32,
    bookmark: Seq<char>,
) -> Seq<u8> {
    number(1, page_size as int)
        + run(2, encode_utf8(bookmark))
}

spec fn query_metadata_record(
    page_size: i32,
    bookmark: Seq<char>,
) -> Seq<Datum> {
    seq![
        Datum::Int(page_size as int),
        Datum::Text(bookmark),
    ]
}

proof fn lemma_query_metadata(
    page_size: i32,
    bookmark: Seq<char>,
    rest: Seq<u8>,
    depth: nat,
)
    requires
        encode_utf8(bookmark).len() <= u64::MAX,
    ensures
        fields_merged(
            Layout::QueryMetadata,
            blank_record(Layout::QueryMetadata),
            query_metadata_bytes(page_size, bookmark) + rest,
            rest.len(),
            depth,
        ) == Ok::<_, DecodeErrorView>((query_metadata_record(page_size, bookmark), rest)),
{
    reveal(fields);
    let l = Layout::QueryMetadata;
    let r0 = blank_record(l);
    let t2 = rest;
    let t1 = run(2, encode_utf8(bookmark)) + t2;
    let t0 = number(1, page_size as int) + t1;
    assert(query_metadata_bytes(page_size, bookmark) + rest =~= t0);
    let r1 = r0.update(0, Datum::Int(page_size as int));
    step_number(l, r0, 1, page_size as int, t1, rest.len(), depth);
    let r2 = r1.update(1, Datum::Text(bookmark));
    step_text(l, r1, 2, bookmark, t2, rest.len(), depth);
    assert(r2 =~= query_metadata_record(page_size, bookmark));
}

/// What is read of the bytes of a [`QueryMetadata`] has each value in its field.
pub proof fn query_metadata_is_read(
    m: QueryMetadata,
    page_size: i32,
    bookmark: Seq<char>,
)
    requires
        encode_utf8(bookmark).len() <= u64::MAX,
    ensures
        decoded(QueryMetadata::layout(), query_metadata_bytes(page_size, bookmark)) is Ok,
        decoded(
            QueryMetadata::layout(),
            query_metadata_bytes(page_size, bookmark),
        ) == Ok::<_, DecodeErrorView>(m.record()) ==> {
            &&& m.page_size == page_size
            &&& m.bookmark@ == bookmark
        },
{
    lemma_query_metadata(page_size, bookmark, seq![], RECURSION_LIMIT as nat);
    assert(
        query_metadata_bytes(
            page_size,
            bookmark,
        ) + Seq::<u8>::empty() =~= query_metadata_bytes(page_size, bookmark)
    );
    if m.record() == query_metadata_record(page_size, bookmark) {
        let r = query_metadata_record(page_size, bookmark);
        assert(m.record()[0] == r[0]);
        assert(m.record()[1] == r[1]);
    }
}

/// The bytes that a [`QueryMetadata`] is written as.
pub proof fn query_metadata_is_written(m: QueryMetadata)
    ensures
        written(m) == set_number(1, m.page_size as int)
            + set_run(2, encode_utf8(m.bookmark@)),
{
    reveal(fields);
    let l = Layout::QueryMetadata;
    let r = m.record();
    let e2 = encoded_from(l, r, 2);
    assert(e2 == Seq::<u8>::empty());
    write_text(fields(l)[1], m.bookmark@);
    let e1 = set_run(2, encode_utf8(m.bookmark@)) + e2;
    assert(encoded_from(l, r, 1) == e1);
    write_number(fields(l)[0], m.page_size as int);
    let e0 = set_number(1, m.page_size as int) + e1;
    assert(encoded_from(l, r, 0) == e0);
    assert(written(m) =~= set_number(1, m.page_size as int)
        + set_run(2, encode_utf8(m.bookmark@)));
}

/// The names of a [`QueryMetadata`] and its fields, in reports of faults.
pub proof fn query_metadata_is_told_by_name()
    ensures
        QueryMetadata::layout() == Layout::QueryMetadata,
        title(Layout::QueryMetadata) == Some("QueryMetadata"@),
        fields(Layout::QueryMetadata).len() == 2,
        fields(Layout::QueryMetadata)[0].name@ == "page_size"@,
        fields(Layout::QueryMetadata)[1].name@ == "bookmark"@,
{
    reveal(fields);
}

/// A [`QueryMetadata`] is in order where its maps hold no key twice.
pub proof fn query_metadata_is_in_order(m: QueryMetadata)
    ensures
        m.well_formed(),
{
}

// ---- GetHistoryForKey ------------------------------------------------------
/// The bytes of a [`GetHistoryForKey`] with every field in place.
pub open spec fn get_history_for_key_bytes(
    key: Seq<char>,
) -> Seq<u8> {
    run(1, encode_utf8(key))
}

spec fn get_history_for_key_record(
    key: Seq<char>,
) -> Seq<Datum> {
    seq![
        Datum::Text(key),
    ]
}

proof fn lemma_get_history_for_key(
    key: Seq<char>,
    rest: Seq<u8>,
    depth: nat,
)
    requires
        encode_utf8(key).len() <= u64::MAX,
    ensures
        fields_merged(
            Layout::GetHistoryForKey,
            blank_record(Layout::GetHistoryForKey),
            get_history_for_key_bytes(key) + rest,
            rest.len(),
            depth,
        ) == Ok::<_, DecodeErrorView>((get_history_for_key_record(key), rest)),
{
    reveal(fields);
    let l = Layout::GetHistoryForKey;
    let r0 = blank_record(l);
    let t1 = rest;
    let t0 = run(1, encode_utf8(key)) + t1;
    assert(get_history_for_key_bytes(key) + rest =~= t0);
    let r1 = r0.update(0, Datum::Text(key));
    step_text(l, r0, 1, key, t1, rest.len(), depth);
    assert(r1 =~= get_history_for_key_record(key));
}

/// What is read of the bytes of a [`GetHistoryForKey`] has each value in its field.
pub proof fn get_history_for_key_is_read(
    m: GetHistoryForKey,
    key: Seq<char>,
)
    requires
        encode_utf8(key).len() <= u64::MAX,
    ensures
        decoded(GetHistoryForKey::layout(), get_history_for_key_bytes(key)) is Ok,
        decoded(
            GetHistoryForKey::layout(),
            get_history_for_key_bytes(key),
        ) == Ok::<_, DecodeErrorView>(m.record()) ==> {
            &&& m.key@ == key
        },
{
    lemma_get_history_for_key(key, seq![], RECURSION_LIMIT as nat);
    assert(get_history_for_key_bytes(key) + Seq::<u8>::empty() =~= get_history_for_key_bytes(key));
    if m.record() == get_history_for_key_record(key) {
        let r = get_history_for_key_record(key);
        assert(m.record()[0] == r[0]);
    }
}

/// The bytes that a [`GetHistoryForKey`] is written as.
pub proof fn get_history_for_key_is_written(m: GetHistoryForKey)
    ensures
        written(m) == set_run(1, encode_utf8(m.key@)),
{
    reveal(fields);
    let l = Layout::GetHistoryForKey;
    let r = m.record();
    let e1 = encoded_from(l, r, 1);
    assert(e1 == Seq::<u8>::empty());
    write_text(fields(l)[0], m.key@);
    let e0 = set_run(1, encode_utf8(m.key@)) + e1;
    assert(encoded_from(l, r, 0) == e0);
    assert(written(m) =~= set_run(1, encode_utf8(m.key@)));
}

/// The names of a [`GetHistoryForKey`] and its fields, in reports of faults.
pub proof fn get_history_for_key_is_told_by_name()
    ensures
        GetHistoryForKey::layout() == Layout::GetHistoryForKey,
        title(Layout::GetHistoryForKey) == Some("GetHistoryForKey"@),
        fields(Layout::GetHistoryForKey).len() == 1,
        fields(Layout::GetHistoryForKey)[0].name@ == "key"@,
{
    reveal(fields);
}

/// A [`GetHistoryForKey`] is in order where its maps hold no key twice.
pub proof fn get_history_for_key_is_in_order(m: GetHistoryForKey)
    ensures
        m.well_formed(),
{
}

// ---- QueryStateNext --------------------------------------------------------
/// The bytes of a [`QueryStateNext`] with every field in place.
pub open spec fn query_state_next_bytes(
    id: Seq<char>,
) -> Seq<u8> {
    run(1, encode_utf8(id))
}

spec fn query_state_next_record(
    id: Seq<char>,
) -> Seq<Datum> {
    seq![
        Datum::Text(id),
    ]
}

proof fn lemma_query_state_next(
    id: Seq<char>,
    rest: Seq<u8>,
    depth: nat,
)
    requires
        encode_utf8(id).len() <= u64::MAX,
    ensures
        fields_merged(
            Layout::QueryStateNext,
            blank_record(Layout::QueryStateNext),
            query_state_next_bytes(id) + rest,
            rest.len(),
            depth,
        ) == Ok::<_, DecodeErrorView>((query_state_next_record(id), rest)),
{
    reveal(fields);
    let l = Layout::QueryStateNext;
    let r0 = blank_record(l);
    let t1 = rest;
    let t0 = run(1, encode_utf8(id)) + t1;
    assert(query_state_next_bytes(id) + rest =~= t0);
    let r1 = r0.update(0, Datum::Text(id));
    step_text(l, r0, 1, id, t1, rest.len(), depth);
    assert(r1 =~= query_state_next_record(id));
}

/// What is read of the bytes of a [`QueryStateNext`] has each value in its field.
pub proof fn query_state_next_is_read(
    m: QueryStateNext,
    id: Seq<char>,
)
    requires
        encode_utf8(id).len() <= u64::MAX,
    ensures
        decoded(QueryStateNext::layout(), query_state_next_bytes(id)) is Ok,
        decoded(
            QueryStateNext::layout(),
            query_state_next_bytes(id),
        ) == Ok::<_, DecodeErrorView>(m.record()) ==> {
            &&& m.id@ == id
        },
{
    lemma_query_state_next(id, seq![], RECURSION_LIMIT as nat);
    assert(query_state_next_bytes(id) + Seq::<u8>::empty() =~= query_state_next_bytes(id));
    if m.record() == query_state_next_record(id) {
        let r = query_state_next_record(id);
        assert(m.record()[0] == r[0]);
    }
}

/// The bytes that a [`QueryStateNext`] is written as.
pub proof fn query_state_next_is_written(m: QueryStateNext)
    ensures
        written(m) == set_run(1, encode_utf8(m.id@)),
{
    reveal(fields);
    let l = Layout::QueryStateNext;
    let r = m.record();
    let e1 = encoded_from(l, r, 1);
    assert(e1 == Seq::<u8>::empty());
    write_text(fields(l)[0], m.id@);
    let e0 = set_run(1, encode_utf8(m.id@)) + e1;
    assert(encoded_from(l, r, 0) == e0);
    assert(written(m) =~= set_run(1, encode_utf8(m.id@)));
}

/// The names of a [`QueryStateNext`] and its fields, in reports of faults.
pub proof fn query_state_next_is_told_by_name()
    ensures
        QueryStateNext::layout() == Layout::QueryStateNext,
        title(Layout::QueryStateNext) == Some("QueryStateNext"@),
        fields(Layout::QueryStateNext).len() == 1,
        fields(Layout::QueryStateNext)[0].name@ == "id"@,
{
    reveal(fields);
}

/// A [`QueryStateNext`] is in order where its maps hold no key twice.
pub proof fn query_state_next_is_in_order(m: QueryStateNext)
    ensures
        m.well_formed(),
{
}

// ---- QueryStateClose -------------------------------------------------------
/// The bytes of a [`QueryStateClose`] with every field in place.
pub open spec fn query_state_close_bytes(
    id: Seq<char>,
) -> Seq<u8> {
    run(1, encode_utf8(id))
}

spec fn query_state_close_record(
    id: Seq<char>,
) -> Seq<Datum> {
    seq![
        Datum::Text(id),
    ]
}

proof fn lemma_query_state_close(
    id: Seq<char>,
    rest: Seq<u8>,
    depth: nat,
)
    requires
        encode_utf8(id).len() <= u64::MAX,
    ensures
        fields_merged(
            Layout::QueryStateClose,
            blank_record(Layout::QueryStateClose),
            query_state_close_bytes(id) + rest,
            rest.len(),
            depth,
        ) == Ok::<_, DecodeErrorView>((query_state_close_record(id), rest)),
{
    reveal(fields);
    let l = Layout::QueryStateClose;
    let r0 = blank_record(l);
    let t1 = rest;
    let t0 = run(1, encode_utf8(id)) + t1;
    assert(query_state_close_bytes(id) + rest =~= t0);
    let r1 = r0.update(0, Datum::Text(id));
    step_text(l, r0, 1, id, t1, rest.len(), depth);
    assert(r1 =~= query_state_close_record(id));
}

/// What is read of the bytes of a [`QueryStateClose`] has each value in its field.
pub proof fn query_state_close_is_read(
    m: QueryStateClose,
    id: Seq<char>,
)
    requires
        encode_utf8(id).len() <= u64::MAX,
    ensures
        decoded(QueryStateClose::layout(), query_state_close_bytes(id)) is Ok,
        decoded(
            QueryStateClose::layout(),
            query_state_close_bytes(id),
        ) == Ok::<_, DecodeErrorView>(m.record()) ==> {
            &&& m.id@ == id
        },
{
    lemma_query_state_close(id, seq![], RECURSION_LIMIT as nat);
    assert(query_state_close_bytes(id) + Seq::<u8>::empty() =~= query_state_close_bytes(id));
    if m.record() == query_state_close_record(id) {
        let r = query_state_close_record(id);
        assert(m.record()[0] == r[0]);
    }
}

/// The bytes that a [`QueryStateClose`] is written as.
pub proof fn query_state_close_is_written(m: QueryStateClose)
    ensures
        written(m) == set_run(1, encode_utf8(m.id@)),
{
    reveal(fields);
    let l = Layout::QueryStateClose;
    let r = m.record();
    let e1 = encoded_from(l, r, 1);
    assert(e1 == Seq::<u8>::empty());
    write_text(fields(l)[0], m.id@);
    let e0 = set_run(1, encode_utf8(m.id@)) + e1;
    assert(encoded_from(l, r, 0) == e0);
    assert(written(m) =~= set_run(1, encode_utf8(m.id@)));
}

/// The names of a [`QueryStateClose`] and its fields, in reports of faults.
pub proof fn query_state_close_is_told_by_name()
    ensures
        QueryStateClose::layout() == Layout::QueryStateClose,
        title(Layout::QueryStateClose) == Some("QueryStateClose"@),
        fields(Layout::QueryStateClose).len() == 1,
        fields(Layout::QueryStateClose)[0].name@ == "id"@,
{
    reveal(fields);
}

/// A [`QueryStateClose`] is in order where its maps hold no key twice.
pub proof fn query_state_close_is_in_order(m: QueryStateClose)
    ensures
        m.well_formed(),
{
}

// ---- QueryResultBytes ------------------------------------------------------
/// The bytes of a [`QueryResultBytes`] with every field in place.
pub open spec fn query_result_bytes_bytes(
    result_bytes: Seq<u8>,
) -> Seq<u8> {
    run(1, result_bytes)
}

spec fn query_result_bytes_record(
    result_bytes: Seq<u8>,
) -> Seq<Datum> {
    seq![
        Datum::Bytes(result_bytes),
    ]
}

proof fn lemma_query_result_bytes(
    result_bytes: Seq<u8>,
    rest: Seq<u8>,
    depth: nat,
)
    requires
        result_bytes.len() <= u64::MAX,
    ensures
        fields_merged(
            Layout::QueryResultBytes,
            blank_record(Layout::QueryResultBytes),
            query_result_bytes_bytes(result_bytes) + rest,
            rest.len(),
            depth,
        ) == Ok::<_, DecodeErrorView>((query_result_bytes_record(result_bytes), rest)),
{
    reveal(fields);
    let l = Layout::QueryResultBytes;
    let r0 = blank_record(l);
    let t1 = rest;
    let t0 = run(1, result_bytes) + t1;
    assert(query_result_bytes_bytes(result_bytes) + rest =~= t0);
    let r1 = r0.update(0, Datum::Bytes(result_bytes));
    step_bytes(l, r0, 1, result_bytes, t1, rest.len(), depth);
    assert(r1 =~= query_result_bytes_record(result_bytes));
}

/// What is read of the bytes of a [`QueryResultBytes`] has each value in its field.
pub proof fn query_result_bytes_is_read(
    m: QueryResultBytes,
    result_bytes: Seq<u8>,
)
    requires
        result_bytes.len() <= u64::MAX,
    ensures
        decoded(QueryResultBytes::layout(), query_result_bytes_bytes(result_bytes)) is Ok,
        decoded(
            QueryResultBytes::layout(),
            query_result_bytes_bytes(result_bytes),
        ) == Ok::<_, DecodeErrorView>(m.record()) ==> {
            &&& m.result_bytes@ == result_bytes
        },
{
    lemma_query_result_bytes(result_bytes, seq![], RECURSION_LIMIT as nat);
    assert(
        query_result_bytes_bytes(result_bytes) + Seq::<u8>::empty()
            =~= query_result_bytes_bytes(result_bytes)
    );
    if m.record() == query_result_bytes_record(result_bytes) {
        let r = query_result_bytes_record(result_bytes);
        assert(m.record()[0] == r[0]);
    }
}

/// The bytes that a [`QueryResultBytes`] is written as.
pub proof fn query_result_bytes_is_written(m: QueryResultBytes)
    ensures
        written(m) == set_run(1, m.result_bytes@),
{
    reveal(fields);
    let l = Layout::QueryResultBytes;
    let r = m.record();
    let e1 = encoded_from(l, r, 1);
    assert(e1 == Seq::<u8>::empty());
    write_bytes(fields(l)[0], m.result_bytes@);
    let e0 = set_run(1, m.result_bytes@) + e1;
    assert(encoded_from(l, r, 0) == e0);
    assert(written(m) =~= set_run(1, m.result_bytes@));
}

/// The names of a [`QueryResultBytes`] and its fields, in reports of faults.
pub proof fn query_result_bytes_is_told_by_name()
    ensures
        QueryResultBytes::layout() == Layout::QueryResultBytes,
        title(Layout::QueryResultBytes) == Some("QueryResultBytes"@),
        fields(Layout::QueryResultBytes).len() == 1,
        fields(Layout::QueryResultBytes)[0].name@ == "result_bytes"@,
{
    reveal(fields);
}

/// A [`QueryResultBytes`] is in order where its maps hold no key twice.
pub proof fn query_result_bytes_is_in_order(m: QueryResultBytes)
    ensures
        m.well_formed(),
{
}

// ---- QueryResponse ---------------------------------------------------------
/// The bytes of a [`QueryResponse`] with every field in place.
pub open spec fn query_response_bytes(
    results: Seq<Seq<u8>>,
    has_more: bool,
    id: Seq<char>,
    metadata: Seq<u8>,
) -> Seq<u8> {
    runs(1, result_runs(results))
        + number(2, truth(has_more))
        + run(3, encode_utf8(id))
        + run(4, metadata)
}

/// The values that those bytes hold.
pub open spec fn query_response_record(
    results: Seq<Seq<u8>>,
    has_more: bool,
    id: Seq<char>,
    metadata: Seq<u8>,
) -> Seq<Datum> {
    seq![
        Datum::Messages(result_records(results)),
        Datum::Int(truth(has_more)),
        Datum::Text(id),
        Datum::Bytes(metadata),
    ]
}

pub(crate) proof fn lemma_query_response(
    results: Seq<Seq<u8>>,
    has_more: bool,
    id: Seq<char>,
    metadata: Seq<u8>,
    rest: Seq<u8>,
    depth: nat,
)
    requires
        fits(results),
        fits(result_runs(results)),
        encode_utf8(id).len() <= u64::MAX,
        metadata.len() <= u64::MAX,
        depth >= 1,
    ensures
        fields_merged(
            Layout::QueryResponse,
            blank_record(Layout::QueryResponse),
            query_response_bytes(results, has_more, id, metadata) + rest,
            rest.len(),
            depth,
        ) == Ok::<_, DecodeErrorView>(
            (query_response_record(results, has_more, id, metadata), rest),
        ),
{
    reveal(fields);
    let l = Layout::QueryResponse;
    let r0 = blank_record(l);
    let t4 = rest;
    let t3 = run(4, metadata) + t4;
    let t2 = run(3, encode_utf8(id)) + t3;
    let t1 = number(2, truth(has_more)) + t2;
    let t0 = runs(1, result_runs(results)) + t1;
    assert(query_response_bytes(results, has_more, id, metadata) + rest =~= t0);
    let r1 = r0.update(0, Datum::Messages(result_records(results)));
    step_results(l, r0, 1, results, t1, rest.len(), depth);
    let r2 = r1.update(1, Datum::Int(truth(has_more)));
    step_number(l, r1, 2, truth(has_more), t2, rest.len(), depth);
    let r3 = r2.update(2, Datum::Text(id));
    step_text(l, r2, 3, id, t3, rest.len(), depth);
    let r4 = r3.update(3, Datum::Bytes(metadata));
    step_bytes(l, r3, 4, metadata, t4, rest.len(), depth);
    assert(r4 =~= query_response_record(results, has_more, id, metadata));
}

/// What is read of the bytes of a [`QueryResponse`] has each value in its field.
pub proof fn query_response_is_read(
    m: QueryResponse,
    results: Seq<Seq<u8>>,
    has_more: bool,
    id: Seq<char>,
    metadata: Seq<u8>,
)
    requires
        fits(results),
        fits(result_runs(results)),
        encode_utf8(id).len() <= u64::MAX,
        metadata.len() <= u64::MAX,
    ensures
        decoded(
            QueryResponse::layout(),
            query_response_bytes(results, has_more, id, metadata),
        ) is Ok,
        decoded(
            QueryResponse::layout(),
            query_response_bytes(results, has_more, id, metadata),
        ) == Ok::<_, DecodeErrorView>(m.record()) ==> {
            &&& m.results@.len() == results.len()
            &&& forall|i: int| 0 <= i < results.len()
                ==> (#[trigger] m.results@[i]).result_bytes@ == results[i]
            &&& m.has_more == has_more
            &&& m.id@ == id
            &&& m.metadata@ == metadata
        },
{
    lemma_query_response(results, has_more, id, metadata, seq![], RECURSION_LIMIT as nat);
    assert(
        query_response_bytes(
            results,
            has_more,
            id,
            metadata,
        ) + Seq::<u8>::empty() =~= query_response_bytes(results, has_more, id, metadata)
    );
    if m.record() == query_response_record(results, has_more, id, metadata) {
        let r = query_response_record(results, has_more, id, metadata);
        assert(m.record()[0] == r[0]);
        lemma_same_results(m.results@, results);
        assert(m.record()[1] == r[1]);
        assert(m.record()[2] == r[2]);
        assert(m.record()[3] == r[3]);
    }
}

/// The bytes that a [`QueryResponse`] is written as.
pub proof fn query_response_is_written(m: QueryResponse)
    ensures
        written(m) == runs(1, set_result_runs(m.results@))
            + set_number(2, truth(m.has_more))
            + set_run(3, encode_utf8(m.id@))
            + set_run(4, m.metadata@),
{
    reveal(fields);
    let l = Layout::QueryResponse;
    let r = m.record();
    let e4 = encoded_from(l, r, 4);
    assert(e4 == Seq::<u8>::empty());
    write_bytes(fields(l)[3], m.metadata@);
    let e3 = set_run(4, m.metadata@) + e4;
    assert(encoded_from(l, r, 3) == e3);
    write_text(fields(l)[2], m.id@);
    let e2 = set_run(3, encode_utf8(m.id@)) + e3;
    assert(encoded_from(l, r, 2) == e2);
    write_number(fields(l)[1], truth(m.has_more));
    let e1 = set_number(2, truth(m.has_more)) + e2;
    assert(encoded_from(l, r, 1) == e1);
    write_results(fields(l)[0], m.results@);
    let e0 = runs(1, set_result_runs(m.results@)) + e1;
    assert(encoded_from(l, r, 0) == e0);
    assert(written(m) =~= runs(1, set_result_runs(m.results@))
        + set_number(2, truth(m.has_more))
        + set_run(3, encode_utf8(m.id@))
        + set_run(4, m.metadata@));
}

/// The names of a [`QueryResponse`] and its fields, in reports of faults.
pub proof fn query_response_is_told_by_name()
    ensures
        QueryResponse::layout() == Layout::QueryResponse,
        title(Layout::QueryResponse) == Some("QueryResponse"@),
        fields(Layout::QueryResponse).len() == 4,
        fields(Layout::QueryResponse)[0].name@ == "results"@,
        fields(Layout::QueryResponse)[1].name@ == "has_more"@,
        fields(Layout::QueryResponse)[2].name@ == "id"@,
        fields(Layout::QueryResponse)[3].name@ == "metadata"@,
{
    reveal(fields);
}

/// A [`QueryResponse`] is in order where its maps hold no key twice.
pub proof fn query_response_is_in_order(m: QueryResponse)
    ensures
        m.well_formed(),
{
}

// ---- QueryResponseMetadata -------------------------------------------------
/// The bytes of a [`QueryResponseMetadata`] with every field in place.
pub open spec fn query_response_metadata_bytes(
    fetched_records_count: i32,
    bookmark: Seq<char>,
) -> Seq<u8> {
    number(1, fetched_records_count as int)
        + run(2, encode_utf8(bookmark))
}

/// The values that those bytes hold.
pub open spec fn query_response_metadata_record(
    fetched_records_count: i32,
    bookmark: Seq<char>,
) -> Seq<Datum> {
    seq![
        Datum::Int(fetched_records_count as int),
        Datum::Text(bookmark),
    ]
}

pub(crate) proof fn lemma_query_response_metadata(
    fetched_records_count: i32,
    bookmark: Seq<char>,
    rest: Seq<u8>,
    depth: nat,
)
    requires
        encode_utf8(bookmark).len() <= u64::MAX,
    ensures
        fields_merged(
            Layout::QueryResponseMetadata,
            blank_record(Layout::QueryResponseMetadata),
            query_response_metadata_bytes(fetched_records_count, bookmark) + rest,
            rest.len(),
            depth,
        ) == Ok::<_, DecodeErrorView>(
            (query_response_metadata_record(fetched_records_count, bookmark), rest),
        ),
{
    reveal(fields);
    let l = Layout::QueryResponseMetadata;
    let r0 = blank_record(l);
    let t2 = rest;
    let t1 = run(2, encode_utf8(bookmark)) + t2;
    let t0 = number(1, fetched_records_count as int) + t1;
    assert(query_response_metadata_bytes(fetched_records_count, bookmark) + rest =~= t0);
    let r1 = r0.update(0, Datum::Int(fetched_records_count as int));
    step_number(l, r0, 1, fetched_records_count as int, t1, rest.len(), depth);
    let r2 = r1.update(1, Datum::Text(bookmark));
    step_text(l, r1, 2, bookmark, t2, rest.len(), depth);
    assert(r2 =~= query_response_metadata_record(fetched_records_count, bookmark));
}

/// What is read of the bytes of a [`QueryResponseMetadata`] has each value in its field.
pub proof fn query_response_metadata_is_read(
    m: QueryResponseMetadata,
    fetched_records_count: i32,
    bookmark: Seq<char>,
)
    requires
        encode_utf8(bookmark).len() <= u64::MAX,
    ensures
        decoded(
            QueryResponseMetadata::layout(),
            query_response_metadata_bytes(fetched_records_count, bookmark),
        ) is Ok,
        decoded(
            QueryResponseMetadata::layout(),
            query_response_metadata_bytes(fetched_records_count, bookmark),
        ) == Ok::<_, DecodeErrorView>(m.record()) ==> {
            &&& m.fetched_records_count == fetched_records_count
            &&& m.bookmark@ == bookmark
        },
{
    lemma_query_response_metadata(fetched_records_count, bookmark, seq![], RECURSION_LIMIT as nat);
    assert(
        query_response_metadata_bytes(
            fetched_records_count,
            bookmark,
        ) + Seq::<u8>::empty() =~= query_response_metadata_bytes(fetched_records_count, bookmark)
    );
    if m.record() == query_response_metadata_record(fetched_records_count, bookmark) {
        let r = query_response_metadata_record(fetched_records_count, bookmark);
        assert(m.record()[0] == r[0]);
        assert(m.record()[1] == r[1]);
    }
}

/// The bytes that a [`QueryResponseMetadata`] is written as.
pub proof fn query_response_metadata_is_written(m: QueryResponseMetadata)
    ensures
        written(m) == set_number(1, m.fetched_records_count as int)
            + set_run(2, encode_utf8(m.bookmark@)),
{
    reveal(fields);
    let l = Layout::QueryResponseMetadata;
    let r = m.record();
    let e2 = encoded_from(l, r, 2);
    assert(e2 == Seq::<u8>::empty());
    write_text(fields(l)[1], m.bookmark@);
    let e1 = set_run(2, encode_utf8(m.bookmark@)) + e2;
    assert(encoded_from(l, r, 1) == e1);
    write_number(fields(l)[0], m.fetched_records_count as int);
    let e0 = set_number(1, m.fetched_records_count as int) + e1;
    assert(encoded_from(l, r, 0) == e0);
    assert(written(m) =~= set_number(1, m.fetched_records_count as int)
        + set_run(2, encode_utf8(m.bookmark@)));
}

/// The names of a [`QueryResponseMetadata`] and its fields, in reports of faults.
pub proof fn query_response_metadata_is_told_by_name()
    ensures
        QueryResponseMetadata::layout() == Layout::QueryResponseMetadata,
        title(Layout::QueryResponseMetadata) == Some("QueryResponseMetadata"@),
        fields(Layout::QueryResponseMetadata).len() == 2,
        fields(Layout::QueryResponseMetadata)[0].name@ == "fetched_records_count"@,
        fields(Layout::QueryResponseMetadata)[1].name@ == "bookmark"@,
{
    reveal(fields);
}

/// A [`QueryResponseMetadata`] is in order where its maps hold no key twice.
pub proof fn query_response_metadata_is_in_order(m: QueryResponseMetadata)
    ensures
        m.well_formed(),
{
}

// ---- Kv --------------------------------------------------------------------
/// The bytes of a [`Kv`] with every field in place.
pub open spec fn kv_bytes(
    namespace: Seq<char>,
    key: Seq<char>,
    value: Seq<u8>,
) -> Seq<u8> {
    run(1, encode_utf8(namespace))
        + run(2, encode_utf8(key))
        + run(3, value)
}

/// The values that those bytes hold.
pub open spec fn kv_record(
    namespace: Seq<char>,
    key: Seq<char>,
    value: Seq<u8>,
) -> Seq<Datum> {
    seq![
        Datum::Text(namespace),
        Datum::Text(key),
        Datum::Bytes(value),
    ]
}

pub(crate) proof fn lemma_kv(
    namespace: Seq<char>,
    key: Seq<char>,
    value: Seq<u8>,
    rest: Seq<u8>,
    depth: nat,
)
    requires
        encode_utf8(namespace).len() <= u64::MAX,
        encode_utf8(key).len() <= u64::MAX,
        value.len() <= u64::MAX,
    ensures
        fields_merged(
            Layout::Kv,
            blank_record(Layout::Kv),
            kv_bytes(namespace, key, value) + rest,
            rest.len(),
            depth,
        ) == Ok::<_, DecodeErrorView>((kv_record(namespace, key, value), rest)),
{
    reveal(fields);
    let l = Layout::Kv;
    let r0 = blank_record(l);
    let t3 = rest;
    let t2 = run(3, value) + t3;
    let t1 = run(2, encode_utf8(key)) + t2;
    let t0 = run(1, encode_utf8(namespace)) + t1;
    assert(kv_bytes(namespace, key, value) + rest =~= t0);
    let r1 = r0.update(0, Datum::Text(namespace));
    step_text(l, r0, 1, namespace, t1, rest.len(), depth);
    let r2 = r1.update(1, Datum::Text(key));
    step_text(l, r1, 2, key, t2, rest.len(), depth);
    let r3 = r2.update(2, Datum::Bytes(value));
    step_bytes(l, r2, 3, value, t3, rest.len(), depth);
    assert(r3 =~= kv_record(namespace, key, value));
}

/// What is read of the bytes of a [`Kv`] has each value in its field.
pub proof fn kv_is_read(
    m: Kv,
    namespace: Seq<char>,
    key: Seq<char>,
    value: Seq<u8>,
)
    requires
        encode_utf8(namespace).len() <= u64::MAX,
        encode_utf8(key).len() <= u64::MAX,
        value.len() <= u64::MAX,
    ensures
        decoded(Kv::layout(), kv_bytes(namespace, key, value)) is Ok,
        decoded(
            Kv::layout(),
            kv_bytes(namespace, key, value),
        ) == Ok::<_, DecodeErrorView>(m.record()) ==> {
            &&& m.namespace@ == namespace
            &&& m.key@ == key
            &&& m.value@ == value
        },
{
    lemma_kv(namespace, key, value, seq![], RECURSION_LIMIT as nat);
    assert(
        kv_bytes(namespace, key, value) + Seq::<u8>::empty() =~= kv_bytes(namespace, key, value)
    );
    if m.record() == kv_record(namespace, key, value) {
        let r = kv_record(namespace, key, value);
        assert(m.record()[0] == r[0]);
        assert(m.record()[1] == r[1]);
        assert(m.record()[2] == r[2]);
    }
}

/// The bytes that a [`Kv`] is written as.
pub proof fn kv_is_written(m: Kv)
    ensures
        written(m) == set_run(1, encode_utf8(m.namespace@))
            + set_run(2, encode_utf8(m.key@))
            + set_run(3, m.value@),
{
    reveal(fields);
    let l = Layout::Kv;
    let r = m.record();
    let e3 = encoded_from(l, r, 3);
    assert(e3 == Seq::<u8>::empty());
    write_bytes(fields(l)[2], m.value@);
    let e2 = set_run(3, m.value@) + e3;
    assert(encoded_from(l, r, 2) == e2);
    write_text(fields(l)[1], m.key@);
    let e1 = set_run(2, encode_utf8(m.key@)) + e2;
    assert(encoded_from(l, r, 1) == e1);
    write_text(fields(l)[0], m.namespace@);
    let e0 = set_run(1, encode_utf8(m.namespace@)) + e1;
    assert(encoded_from(l, r, 0) == e0);
    assert(written(m) =~= set_run(1, encode_utf8(m.namespace@))
        + set_run(2, encode_utf8(m.key@))
        + set_run(3, m.value@));
}

/// The names of a [`Kv`] and its fields, in reports of faults.
pub proof fn kv_is_told_by_name()
    ensures
        Kv::layout() == Layout::Kv,
        title(Layout::Kv) == Some("Kv"@),
        fields(Layout::Kv).len() == 3,
        fields(Layout::Kv)[0].name@ == "namespace"@,
        fields(Layout::Kv)[1].name@ == "key"@,
        fields(Layout::Kv)[2].name@ == "value"@,
{
    reveal(fields);
}

/// A [`Kv`] is in order where its maps hold no key twice.
pub proof fn kv_is_in_order(m: Kv)
    ensures
        m.well_formed(),
{
}

// ---- KeyModification -------------------------------------------------------
/// The bytes of a [`KeyModification`] with every field in place.
pub open spec fn key_modification_bytes(
    tx_id: Seq<char>,
    value: Seq<u8>,
    timestamp_seconds: i64,
    timestamp_nanos: i32,
    is_delete: bool,
) -> Seq<u8> {
    run(1, encode_utf8(tx_id))
        + run(2, value)
        + run(3, timestamp_bytes(timestamp_seconds, timestamp_nanos))
        + number(4, truth(is_delete))
}

/// The values that those bytes hold.
pub open spec fn key_modification_record(
    tx_id: Seq<char>,
    value: Seq<u8>,
    timestamp_seconds: i64,
    timestamp_nanos: i32,
    is_delete: bool,
) -> Seq<Datum> {
    seq![
        Datum::Text(tx_id),
        Datum::Bytes(value),
        Datum::Message(Some(timestamp_record(timestamp_seconds, timestamp_nanos))),
        Datum::Int(truth(is_delete)),
    ]
}

pub(crate) proof fn lemma_key_modification(
    tx_id: Seq<char>,
    value: Seq<u8>,
    timestamp_seconds: i64,
    timestamp_nanos: i32,
    is_delete: bool,
    rest: Seq<u8>,
    depth: nat,
)
    requires
        encode_utf8(tx_id).len() <= u64::MAX,
        value.len() <= u64::MAX,
        timestamp_bytes(timestamp_seconds, timestamp_nanos).len() <= u64::MAX,
        depth >= 1,
    ensures
        fields_merged(
            Layout::KeyModification,
            blank_record(Layout::KeyModification),
            key_modification_bytes(
                tx_id,
                value,
                timestamp_seconds,
                timestamp_nanos,
                is_delete,
            ) + rest,
            rest.len(),
            depth,
        ) == Ok::<_, DecodeErrorView>(
            (key_modification_record(
                tx_id,
                value,
                timestamp_seconds,
                timestamp_nanos,
                is_delete,
            ), rest),
        ),
{
    reveal(fields);
    let l = Layout::KeyModification;
    let r0 = blank_record(l);
    let t4 = rest;
    let t3 = number(4, truth(is_delete)) + t4;
    let t2 = run(3, timestamp_bytes(timestamp_seconds, timestamp_nanos)) + t3;
    let t1 = run(2, value) + t2;
    let t0 = run(1, encode_utf8(tx_id)) + t1;
    assert(
        key_modification_bytes(
            tx_id,
            value,
            timestamp_seconds,
            timestamp_nanos,
            is_delete,
        ) + rest =~= t0
    );
    let r1 = r0.update(0, Datum::Text(tx_id));
    step_text(l, r0, 1, tx_id, t1, rest.len(), depth);
    let r2 = r1.update(1, Datum::Bytes(value));
    step_bytes(l, r1, 2, value, t2, rest.len(), depth);
    let r3 = r2.update(
        2,
        Datum::Message(Some(timestamp_record(timestamp_seconds, timestamp_nanos))),
    );
    lemma_timestamp(timestamp_seconds, timestamp_nanos, t3, (depth - 1) as nat);
    step_message(
        l,
        r2,
        3,
        Layout::Timestamp,
        timestamp_bytes(timestamp_seconds, timestamp_nanos),
        timestamp_record(timestamp_seconds, timestamp_nanos),
        t3,
        rest.len(),
        depth,
    );
    let r4 = r3.update(3, Datum::Int(truth(is_delete)));
    step_number(l, r3, 4, truth(is_delete), t4, rest.len(), depth);
    assert(
        r4 =~= key_modification_record(tx_id, value, timestamp_seconds, timestamp_nanos, is_delete)
    );
}

/// What is read of the bytes of a [`KeyModification`] has each value in its field.
pub proof fn key_modification_is_read(
    m: KeyModification,
    tx_id: Seq<char>,
    value: Seq<u8>,
    timestamp_seconds: i64,
    timestamp_nanos: i32,
    is_delete: bool,
)
    requires
        encode_utf8(tx_id).len() <= u64::MAX,
        value.len() <= u64::MAX,
        timestamp_bytes(timestamp_seconds, timestamp_nanos).len() <= u64::MAX,
    ensures
        decoded(
            KeyModification::layout(),
            key_modification_bytes(tx_id, value, timestamp_seconds, timestamp_nanos, is_delete),
        ) is Ok,
        decoded(
            KeyModification::layout(),
            key_modification_bytes(tx_id, value, timestamp_seconds, timestamp_nanos, is_delete),
        ) == Ok::<_, DecodeErrorView>(m.record()) ==> {
            &&& m.tx_id@ == tx_id
            &&& m.value@ == value
            &&& m.timestamp is Some
            &&& m.timestamp->0.seconds == timestamp_seconds
            &&& m.timestamp->0.nanos == timestamp_nanos
            &&& m.is_delete == is_delete
        },
{
    lemma_key_modification(
        tx_id,
        value,
        timestamp_seconds,
        timestamp_nanos,
        is_delete,
        seq![],
        RECURSION_LIMIT as nat,
    );
    assert(
        key_modification_bytes(
            tx_id,
            value,
            timestamp_seconds,
            timestamp_nanos,
            is_delete,
        ) + Seq::<u8>::empty() =~= key_modification_bytes(
            tx_id,
            value,
            timestamp_seconds,
            timestamp_nanos,
            is_delete,
        )
    );
    if m.record() == key_modification_record(
        tx_id,
        value,
        timestamp_seconds,
        timestamp_nanos,
        is_delete,
    ) {
        let r = key_modification_record(
            tx_id,
            value,
            timestamp_seconds,
            timestamp_nanos,
            is_delete,
        );
        assert(m.record()[0] == r[0]);
        assert(m.record()[1] == r[1]);
        assert(m.record()[2] == r[2]);
        let r_timestamp = r[2]->Message_0->0;
        let m_timestamp = m.timestamp->0;
        assert(m_timestamp.record()[0] == r_timestamp[0]);
        assert(m_timestamp.record()[1] == r_timestamp[1]);
        assert(m.record()[3] == r[3]);
    }
}

/// The bytes that a [`KeyModification`] is written as.
pub proof fn key_modification_is_written(m: KeyModification)
    ensures
        written(m) == set_run(1, encode_utf8(m.tx_id@))
            + set_run(2, m.value@)
            + set_message(3, m.timestamp)
            + set_number(4, truth(m.is_delete)),
{
    reveal(fields);
    let l = Layout::KeyModification;
    let r = m.record();
    let e4 = encoded_from(l, r, 4);
    assert(e4 == Seq::<u8>::empty());
    write_number(fields(l)[3], truth(m.is_delete));
    let e3 = set_number(4, truth(m.is_delete)) + e4;
    assert(encoded_from(l, r, 3) == e3);
    write_message(fields(l)[2], m.timestamp);
    let e2 = set_message(3, m.timestamp) + e3;
    assert(encoded_from(l, r, 2) == e2);
    write_bytes(fields(l)[1], m.value@);
    let e1 = set_run(2, m.value@) + e2;
    assert(encoded_from(l, r, 1) == e1);
    write_text(fields(l)[0], m.tx_id@);
    let e0 = set_run(1, encode_utf8(m.tx_id@)) + e1;
    assert(encoded_from(l, r, 0) == e0);
    assert(written(m) =~= set_run(1, encode_utf8(m.tx_id@))
        + set_run(2, m.value@)
        + set_message(3, m.timestamp)
        + set_number(4, truth(m.is_delete)));
}

/// The names of a [`KeyModification`] and its fields, in reports of faults.
pub proof fn key_modification_is_told_by_name()
    ensures
        KeyModification::layout() == Layout::KeyModification,
        title(Layout::KeyModification) == Some("KeyModification"@),
        fields(Layout::KeyModification).len() == 4,
        fields(Layout::KeyModification)[0].name@ == "tx_id"@,
        fields(Layout::KeyModification)[1].name@ == "value"@,
        fields(Layout::KeyModification)[2].name@ == "timestamp"@,
        fields(Layout::KeyModification)[3].name@ == "is_delete"@,
{
    reveal(fields);
}

/// A [`KeyModification`] is in order where its maps hold no key twice.
pub proof fn key_modification_is_in_order(m: KeyModification)
    ensures
        (m.timestamp matches Some(inner) ==> inner.well_formed()) ==> m.well_formed(),
{
}

} // verus!

//! What a transaction learns of its proposal, its arguments and its events.

use vstd::prelude::*;
use vstd::utf8::encode_utf8;

use crate::codec::{decoded, keys_differ, Message, RECURSION_LIMIT};
use crate::bytes_map::BytesMap;
use crate::error::{DecodeErrorView, Error, ErrorView, Result};
use crate::message_laws::{chaincode_proposal_payload_bytes, channel_header_bytes};
use crate::message_laws::{header_bytes, lemma_chaincode_proposal_payload};
use crate::message_laws::{lemma_channel_header, lemma_header, lemma_proposal};
use crate::message_laws::{lemma_signature_header, proposal_bytes, serialized_identity_bytes};
use crate::message_laws::{serialized_identity_is_read, signature_header_bytes};
use crate::message_laws::timestamp_bytes;
use crate::ledger_laws::{can_be_read, is_read_as};
use crate::proto::{ChaincodeEvent, ChaincodeInput, ChaincodeProposalPayload};
use crate::proto::{ChannelHeader, Header, Proposal};
use crate::proto::{SerializedIdentity, SignatureHeader, SignedProposal, Timestamp};
use crate::stub::{event_view, moment, parts_of, signed_view, string_args};
use crate::stub::{with_event, ChaincodeStub, ProposalParts, StubView};
use crate::text;
use crate::wire_form::{entries_fit, entry_runs, fits};

verus! {

/// The stub of a transaction learns from the signed proposal: its creator is that of
/// the signature header, its timestamp that of the channel header, and its transient
/// data those of the payload.
pub proof fn stubs_learn_from_the_proposal(
    proposal: SignedProposal,
    type_code: i32,
    version: i32,
    seconds: i64,
    nanos: i32,
    channel_id: Seq<char>,
    tx_id: Seq<char>,
    epoch: u64,
    header_extension: Seq<u8>,
    tls_cert_hash: Seq<u8>,
    creator: Seq<u8>,
    nonce: Seq<u8>,
    input: Seq<u8>,
    transient: Seq<(Seq<char>, Seq<u8>)>,
    extension: Seq<u8>,
)
    requires
        timestamp_bytes(seconds, nanos).len() <= u64::MAX,
        encode_utf8(channel_id).len() <= u64::MAX,
        encode_utf8(tx_id).len() <= u64::MAX,
        header_extension.len() <= u64::MAX,
        tls_cert_hash.len() <= u64::MAX,
        creator.len() <= u64::MAX,
        nonce.len() <= u64::MAX,
        input.len() <= u64::MAX,
        keys_differ(transient),
        fits(entry_runs(transient)),
        entries_fit(transient),
        extension.len() <= u64::MAX,
        ({
            let channel_header = channel_header_bytes(
                type_code,
                version,
                seconds,
                nanos,
                channel_id,
                tx_id,
                epoch,
                header_extension,
                tls_cert_hash,
            );
            let signature_header = signature_header_bytes(creator, nonce);
            let header = header_bytes(channel_header, signature_header);
            let payload = chaincode_proposal_payload_bytes(input, transient);
            &&& channel_header.len() <= u64::MAX
            &&& signature_header.len() <= u64::MAX
            &&& header.len() <= u64::MAX
            &&& payload.len() <= u64::MAX
            &&& proposal.proposal_bytes@ == proposal_bytes(header, payload, extension)
        }),
    ensures
        parts_of(Some(proposal)) == Ok::<_, DecodeErrorView>(
            (ProposalParts {
                tx_timestamp: Some((seconds as int, nanos as int)),
                creator,
                transient,
            }),
        ),
{
    let channel_header = channel_header_bytes(
        type_code,
        version,
        seconds,
        nanos,
        channel_id,
        tx_id,
        epoch,
        header_extension,
        tls_cert_hash,
    );
    let signature_header = signature_header_bytes(creator, nonce);
    let header = header_bytes(channel_header, signature_header);
    let payload = chaincode_proposal_payload_bytes(input, transient);
    let bytes = proposal_bytes(header, payload, extension);
    let none = Seq::<u8>::empty();
    let depth = RECURSION_LIMIT as nat;
    lemma_proposal(header, payload, extension, none, depth);
    lemma_header(channel_header, signature_header, none, depth);
    lemma_channel_header(
        type_code,
        version,
        seconds,
        nanos,
        channel_id,
        tx_id,
        epoch,
        header_extension,
        tls_cert_hash,
        none,
        depth,
    );
    lemma_signature_header(creator, nonce, none, depth);
    lemma_chaincode_proposal_payload(input, transient, none, depth);
    assert(bytes + none =~= bytes);
    assert(header + none =~= header);
    assert(channel_header + none =~= channel_header);
    assert(signature_header + none =~= signature_header);
    assert(payload + none =~= payload);
}

/// What a proposal says is read message by message, and the first one that cannot be
/// read is told: the proposal, its header, the two headers in it, and the payload. The
/// timestamp may be missing.
pub proof fn proposals_are_read_message_by_message(
    signed: SignedProposal,
    proposal: Proposal,
    header: Header,
    channel_header: ChannelHeader,
    signature_header: SignatureHeader,
    payload: ChaincodeProposalPayload,
)
    ensures
        ({
            let bytes = signed.proposal_bytes@;
            let given = parts_of(Some(signed));
            let first = is_read_as(bytes, proposal);
            let second = first && is_read_as(proposal.header@, header);
            let third = second && is_read_as(header.channel_header@, channel_header);
            let fourth = third && is_read_as(header.signature_header@, signature_header);
            &&& decoded(Proposal::layout(), bytes) matches Err(e) ==> given == Err::<
                ProposalParts,
                _,
            >(e)
            &&& first ==> (decoded(Header::layout(), proposal.header@) matches Err(e) ==> given
                == Err::<ProposalParts, _>(e))
            &&& second ==> (decoded(ChannelHeader::layout(), header.channel_header@) matches Err(e)
                ==> given == Err::<ProposalParts, _>(e))
            &&& third ==> (decoded(
                SignatureHeader::layout(),
                header.signature_header@,
            ) matches Err(e) ==> given == Err::<ProposalParts, _>(e))
            &&& fourth ==> (decoded(
                ChaincodeProposalPayload::layout(),
                proposal.payload@,
            ) matches Err(e) ==> given == Err::<ProposalParts, _>(e))
            &&& fourth && is_read_as(proposal.payload@, payload) ==> (given matches Ok(parts)
                && parts.creator == signature_header.creator@ && parts.transient
                == payload.transient_map@ && match channel_header.timestamp {
                Some(t) => parts.tx_timestamp == Some((t.seconds as int, t.nanos as int)),
                None => parts.tx_timestamp is None,
            })
        }),
{
}

/// Without a proposal there is no creator, no timestamp and no transient data.
pub proof fn stubs_without_proposal_know_nothing_of_it()
    ensures
        parts_of(None) matches Ok(parts) && parts.creator.len() == 0 && parts.transient.len() == 0
            && parts.tx_timestamp is None,
{
}

/// The identity of the creator is the organisation and the certificate that the
/// client wrote.
pub proof fn creators_are_identified(found: SerializedIdentity, mspid: Seq<char>, id_bytes: Seq<u8>)
    requires
        encode_utf8(mspid).len() <= u64::MAX,
        id_bytes.len() <= u64::MAX,
    ensures
        decoded(
            SerializedIdentity::layout(),
            serialized_identity_bytes(mspid, id_bytes),
        ) is Ok,
        decoded(SerializedIdentity::layout(), serialized_identity_bytes(mspid, id_bytes)) == Ok::<
            _,
            DecodeErrorView,
        >(found.record()) ==> found.mspid@ == mspid && found.id_bytes@ == id_bytes,
{
    serialized_identity_is_read(found, mspid, id_bytes);
}

/// A signed proposal is seen by its bytes and its signature, a moment by its seconds
/// and nanoseconds, and an event by its four fields.
pub proof fn views_have_the_fields(
    proposal: SignedProposal,
    timestamp: Timestamp,
    event: ChaincodeEvent,
)
    ensures
        signed_view(Some(proposal)) == Some((proposal.proposal_bytes@, proposal.signature@)),
        signed_view(None) is None,
        moment(Some(timestamp)) == Some((timestamp.seconds as int, timestamp.nanos as int)),
        moment(None) is None,
        event_view(Some(event)) matches Some(view) && view.chaincode_id == event.chaincode_id@
            && view.tx_id == event.tx_id@ && view.event_name == event.event_name@ && view.payload
            == event.payload@,
        event_view(None) is None,
{
}

/// Every argument is one text, in the same place.
pub proof fn every_argument_is_a_text(args: Seq<Seq<u8>>, i: int)
    ensures
        string_args(args).len() == args.len(),
        0 <= i < args.len() ==> string_args(args)[i] == text::lossy(args[i]),
{
}

/// The event that is emitted has the name and the payload that were set, belongs to
/// the transaction, and names no chaincode. Nothing else about the transaction
/// changes.
pub proof fn events_are_emitted_as_set(stub: StubView, name: Seq<char>, payload: Seq<u8>)
    ensures
        with_event(stub, name, payload).event matches Some(event) && event.event_name == name
            && event.payload == payload && event.tx_id == stub.tx_id && event.chaincode_id.len()
            == 0,
        ({
            let after = with_event(stub, name, payload);
            &&& after.channel_id == stub.channel_id
            &&& after.tx_id == stub.tx_id
            &&& after.args == stub.args
            &&& after.decorations == stub.decorations
            &&& after.signed_proposal == stub.signed_proposal
            &&& after.creator == stub.creator
            &&& after.transient == stub.transient
            &&& after.tx_timestamp == stub.tx_timestamp
        }),
{
}

/// The stub of a transaction gives back what it was made of: the ids, the arguments, the
/// decorations and the proposal.
pub proof fn stubs_give_what_they_were_made_of(
    channel: String,
    tx: String,
    input: ChaincodeInput,
    signed: Option<SignedProposal>,
    made: Result<ChaincodeStub>,
    stub: ChaincodeStub,
    channel_id: &str,
    tx_id: &str,
    args: &[Vec<u8>],
    decorations: &BytesMap,
    proposal: Option<&SignedProposal>,
)
    requires
        call_ensures(ChaincodeStub::new, (channel, tx, input, signed), made),
        made == Ok::<ChaincodeStub, Error>(stub),
        call_ensures(ChaincodeStub::get_channel_id, (&stub,), channel_id),
        call_ensures(ChaincodeStub::get_tx_id, (&stub,), tx_id),
        call_ensures(ChaincodeStub::get_args, (&stub,), args),
        call_ensures(ChaincodeStub::get_decorations, (&stub,), decorations),
        call_ensures(ChaincodeStub::get_signed_proposal, (&stub,), proposal),
    ensures
        channel_id@ == channel@,
        tx_id@ == tx@,
        args@.len() == input.args@.len(),
        forall|i: int| 0 <= i < args@.len() ==> (#[trigger] args@[i])@ == input.args@[i]@,
        decorations@ == input.decorations@,
        proposal is Some <==> signed is Some,
        proposal matches Some(p) ==> p.proposal_bytes@ == signed->0.proposal_bytes@ && p.signature@
            == signed->0.signature@,
{
    assert forall|i: int| 0 <= i < args@.len() implies (#[trigger] args@[i])@
        == input.args@[i]@ by {
        assert(input.args.deep_view()[i] == input.args@[i].deep_view());
        assert(input.args@[i].deep_view() =~= input.args@[i]@);
    }
}

/// The stub of a transaction with a proposal gives the creator of the signature header,
/// the transient data of the payload and the timestamp of the channel header; without a
/// proposal it has none of them. It cannot be made where the proposal cannot be read.
pub proof fn stubs_give_what_the_proposal_says(
    channel: String,
    tx: String,
    input: ChaincodeInput,
    signed: Option<SignedProposal>,
    made: Result<ChaincodeStub>,
    stub: ChaincodeStub,
    creator: &[u8],
    transient: &BytesMap,
    timestamp: Result<Timestamp>,
)
    requires
        call_ensures(ChaincodeStub::new, (channel, tx, input, signed), made),
        made matches Ok(s) ==> s == stub,
        call_ensures(ChaincodeStub::get_creator, (&stub,), creator),
        call_ensures(ChaincodeStub::get_transient, (&stub,), transient),
        call_ensures(ChaincodeStub::get_tx_timestamp, (&stub,), timestamp),
    ensures
        made is Ok <==> parts_of(signed) is Ok,
        made matches Err(e) ==> e@ == ErrorView::Decode(parts_of(signed)->Err_0),
        parts_of(signed) matches Ok(parts) ==> {
            &&& creator@ == parts.creator
            &&& transient@ == parts.transient
            &&& match parts.tx_timestamp {
                Some((seconds, nanos)) => timestamp matches Ok(t) && t.seconds == seconds && t.nanos
                    == nanos,
                None => timestamp matches Err(e) && e@ == ErrorView::Protocol(
                    "transaction has no timestamp (no proposal)"@,
                ),
            }
        },
{
}

/// The creator's identity is read from the creator's bytes.
pub proof fn identities_are_read_from_the_creator(
    stub: ChaincodeStub,
    creator: &[u8],
    given: Result<SerializedIdentity>,
    written: SerializedIdentity,
)
    requires
        call_ensures(ChaincodeStub::get_creator, (&stub,), creator),
        call_ensures(ChaincodeStub::get_creator_identity, (&stub,), given),
    ensures
        given is Ok <==> can_be_read::<SerializedIdentity>(creator@),
        given matches Err(e) ==> (e@ matches ErrorView::Decode(_)),
        is_read_as(creator@, written) ==> (given matches Ok(identity) && identity.mspid@
            == written.mspid@ && identity.id_bytes@ == written.id_bytes@),
{
    if is_read_as(creator@, written) {
        let identity = given->Ok_0;
        assert(identity.record()[0] == written.record()[0]);
        assert(identity.record()[1] == written.record()[1]);
    }
}

/// The function of a call is its first argument and the parameters are the others, each as
/// text; without arguments both are empty.
pub proof fn functions_are_the_first_argument(
    stub: ChaincodeStub,
    args: &[Vec<u8>],
    words: Vec<String>,
    split: (String, Vec<String>),
)
    requires
        call_ensures(ChaincodeStub::get_args, (&stub,), args),
        call_ensures(ChaincodeStub::get_string_args, (&stub,), words),
        call_ensures(ChaincodeStub::get_function_and_args, (&stub,), split),
    ensures
        words.deep_view().len() == args@.len(),
        forall|i: int|
            0 <= i < args@.len() ==> (#[trigger] words.deep_view()[i]) == text::lossy(args@[i]@),
        args@.len() == 0 ==> split.0@.len() == 0 && split.1@.len() == 0,
        args@.len() > 0 ==> seq![split.0@] + split.1.deep_view() == words.deep_view(),
{
    let all = words.deep_view();
    assert(all.len() == args@.len());
    if args@.len() > 0 {
        let both = seq![split.0@] + split.1.deep_view();
        assert(both.len() == all.len());
        assert forall|i: int| 0 <= i < all.len() implies both[i] == all[i] by {
            if i > 0 {
                assert(split.1.deep_view()[i - 1] == all[i]);
            }
        }
        assert(both =~= all);
    }
}

/// An event is set where it has a name: it has the name and the payload that were given and
/// belongs to the transaction; nothing else about the transaction changes.
pub proof fn events_need_a_name(
    stub: &mut ChaincodeStub,
    name: &str,
    payload: Vec<u8>,
    set: Result<()>,
)
    requires
        call_ensures(ChaincodeStub::set_event, (stub, name, payload), set),
    ensures
        set is Ok <==> name@.len() > 0,
        set matches Err(e) ==> e@ == ErrorView::InvalidArgument("event name must not be empty"@)
            && final(stub)@ == old(stub)@,
        set is Ok ==> {
            &&& final(stub)@.event matches Some(event) && event.event_name == name@ && event.payload
                == payload@ && event.tx_id == old(stub)@.tx_id && event.chaincode_id.len() == 0
            &&& final(stub)@.channel_id == old(stub)@.channel_id
            &&& final(stub)@.tx_id == old(stub)@.tx_id
            &&& final(stub)@.args == old(stub)@.args
            &&& final(stub)@.decorations == old(stub)@.decorations
            &&& final(stub)@.signed_proposal == old(stub)@.signed_proposal
            &&& final(stub)@.creator == old(stub)@.creator
            &&& final(stub)@.transient == old(stub)@.transient
            &&& final(stub)@.tx_timestamp == old(stub)@.tx_timestamp
        },
{
}

/// The event that was set last is the one that is taken, and it is taken once.
pub proof fn events_are_taken_as_they_were_set(
    stub: &mut ChaincodeStub,
    name: &str,
    payload: Vec<u8>,
    set: Result<()>,
    after: &mut ChaincodeStub,
    event: Option<ChaincodeEvent>,
    later: &mut ChaincodeStub,
    none: Option<ChaincodeEvent>,
)
    requires
        call_ensures(ChaincodeStub::set_event, (stub, name, payload), set),
        name@.len() > 0,
        *old(after) == *final(stub),
        call_ensures(ChaincodeStub::take_event, (after,), event),
        *old(later) == *final(after),
        call_ensures(ChaincodeStub::take_event, (later,), none),
    ensures
        event matches Some(e) && e.event_name@ == name@ && e.payload@ == payload@ && e.tx_id@
            == old(stub)@.tx_id && e.chaincode_id@.len() == 0,
        none is None,
        final(after)@.channel_id == old(stub)@.channel_id,
        final(after)@.tx_id == old(stub)@.tx_id,
        final(after)@.args == old(stub)@.args,
        final(after)@.decorations == old(stub)@.decorations,
        final(after)@.signed_proposal == old(stub)@.signed_proposal,
        final(after)@.creator == old(stub)@.creator,
        final(after)@.transient == old(stub)@.transient,
        final(after)@.tx_timestamp == old(stub)@.tx_timestamp,
{
}

} // verus!

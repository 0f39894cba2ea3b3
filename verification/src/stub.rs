//! The per-transaction API: what a transaction knows of itself, and the ledger
//! requests that it can make.

use vstd::prelude::*;

use crate::bytes_map::BytesMap;
use crate::codec::{decoded, Datum, Message};
use crate::composite_key;
use crate::error::{DecodeError, DecodeErrorView, Error, ErrorView, Result};
use crate::fields::decode;
use crate::layout::Layout;
use crate::proto::{ChaincodeEvent, ChaincodeInput, ChaincodeProposalPayload, ChannelHeader};
use crate::proto::{Header, Proposal, SerializedIdentity, SignatureHeader, SignedProposal};
use crate::proto::Timestamp;
use crate::text;

verus! {

/// Per-transaction API handed to chaincode.
pub struct ChaincodeStub {
    channel_id: String,
    tx_id: String,
    args: Vec<Vec<u8>>,
    decorations: BytesMap,
    signed_proposal: Option<SignedProposal>,
    creator: Vec<u8>,
    transient: BytesMap,
    tx_timestamp: Option<Timestamp>,
    event: Option<ChaincodeEvent>,
}

/// What a [`ChaincodeEvent`] says.
#[verifier::ext_equal]
pub struct EventView {
    pub chaincode_id: Seq<char>,
    pub tx_id: Seq<char>,
    pub event_name: Seq<char>,
    pub payload: Seq<u8>,
}

impl View for ChaincodeEvent {
    type V = EventView;

    open spec fn view(&self) -> EventView {
        EventView {
            chaincode_id: self.chaincode_id@,
            tx_id: self.tx_id@,
            event_name: self.event_name@,
            payload: self.payload@,
        }
    }
}

/// What a [`ChaincodeStub`] knows.
pub struct StubView {
    pub channel_id: Seq<char>,
    pub tx_id: Seq<char>,
    pub args: Seq<Seq<u8>>,
    pub decorations: Seq<(Seq<char>, Seq<u8>)>,
    /// The proposal's bytes and its signature.
    pub signed_proposal: Option<(Seq<u8>, Seq<u8>)>,
    pub creator: Seq<u8>,
    pub transient: Seq<(Seq<char>, Seq<u8>)>,
    /// Seconds and nanoseconds.
    pub tx_timestamp: Option<(int, int)>,
    pub event: Option<EventView>,
}

/// The bytes and the signature of a proposal.
pub open spec fn signed_view(proposal: Option<SignedProposal>) -> Option<(Seq<u8>, Seq<u8>)> {
    match proposal {
        Some(p) => Some((p.proposal_bytes@, p.signature@)),
        None => None,
    }
}

/// The seconds and nanoseconds of a moment.
pub open spec fn moment(timestamp: Option<Timestamp>) -> Option<(int, int)> {
    match timestamp {
        Some(t) => Some((t.seconds as int, t.nanos as int)),
        None => None,
    }
}

/// What an event says, where there is one.
pub open spec fn event_view(event: Option<ChaincodeEvent>) -> Option<EventView> {
    match event {
        Some(e) => Some(e@),
        None => None,
    }
}

impl View for ChaincodeStub {
    type V = StubView;

    closed spec fn view(&self) -> StubView {
        StubView {
            channel_id: self.channel_id@,
            tx_id: self.tx_id@,
            args: self.args.deep_view(),
            decorations: self.decorations@,
            signed_proposal: signed_view(self.signed_proposal),
            creator: self.creator@,
            transient: self.transient@,
            tx_timestamp: moment(self.tx_timestamp),
            event: event_view(self.event),
        }
    }
}

/// What a proposal says of the transaction.
pub struct ProposalParts {
    pub tx_timestamp: Option<(int, int)>,
    pub creator: Seq<u8>,
    pub transient: Seq<(Seq<char>, Seq<u8>)>,
}

/// The seconds and nanoseconds in the record of a moment.
pub open spec fn record_moment(record: Option<Seq<Datum>>) -> Option<(int, int)> {
    match record {
        Some(r) => Some((r[0]->Int_0, r[1]->Int_0)),
        None => None,
    }
}

/// Takes a proposal apart: the timestamp stands in the channel header, the creator
/// in the signature header, and the transient data in the payload.
pub open spec fn proposal_parts(proposal_bytes: Seq<u8>) -> std::result::Result<
    ProposalParts,
    DecodeErrorView,
> {
    match decoded(Layout::Proposal, proposal_bytes) {
        Err(e) => Err(e),
        Ok(proposal) => match decoded(Layout::Header, proposal[0]->Bytes_0) {
            Err(e) => Err(e),
            Ok(header) => match decoded(Layout::ChannelHeader, header[0]->Bytes_0) {
                Err(e) => Err(e),
                Ok(channel_header) => match decoded(
                    Layout::SignatureHeader,
                    header[1]->Bytes_0,
                ) {
                    Err(e) => Err(e),
                    Ok(signature_header) => match decoded(
                        Layout::ChaincodeProposalPayload,
                        proposal[1]->Bytes_0,
                    ) {
                        Err(e) => Err(e),
                        Ok(payload) => Ok(
                            ProposalParts {
                                tx_timestamp: record_moment(channel_header[2]->Message_0),
                                creator: signature_header[0]->Bytes_0,
                                transient: payload[1]->Entries_0,
                            },
                        ),
                    },
                },
            },
        },
    }
}

/// What the proposal of a transaction says, if it has one.
pub open spec fn parts_of(proposal: Option<SignedProposal>) -> std::result::Result<
    ProposalParts,
    DecodeErrorView,
> {
    match proposal {
        None => Ok(
            ProposalParts { tx_timestamp: None, creator: seq![], transient: seq![] },
        ),
        Some(p) => proposal_parts(p.proposal_bytes@),
    }
}

/// Takes apart the proposal of a transaction.
fn open_proposal(proposal_bytes: &[u8]) -> (r: std::result::Result<
    (Option<Timestamp>, Vec<u8>, BytesMap),
    DecodeError,
>)
    ensures
        match r {
            Ok((timestamp, creator, transient)) => proposal_parts(proposal_bytes@) == Ok::<
                _,
                DecodeErrorView,
            >(
                (ProposalParts {
                    tx_timestamp: moment(timestamp),
                    creator: creator@,
                    transient: transient@,
                }),
            ),
            Err(e) => proposal_parts(proposal_bytes@) == Err::<ProposalParts, _>(e@),
        },
{
    let proposal: Proposal = match decode(proposal_bytes) {
        Ok(proposal) => proposal,
        Err(e) => return Err(e),
    };
    let header: Header = match decode(proposal.header.as_slice()) {
        Ok(header) => header,
        Err(e) => return Err(e),
    };
    let channel_header: ChannelHeader = match decode(header.channel_header.as_slice()) {
        Ok(channel_header) => channel_header,
        Err(e) => return Err(e),
    };
    let signature_header: SignatureHeader = match decode(header.signature_header.as_slice()) {
        Ok(signature_header) => signature_header,
        Err(e) => return Err(e),
    };
    let payload: ChaincodeProposalPayload = match decode(proposal.payload.as_slice()) {
        Ok(payload) => payload,
        Err(e) => return Err(e),
    };
    Ok((channel_header.timestamp, signature_header.creator, payload.transient_map))
}

impl ChaincodeStub {
    /// The stub of a transaction. Fails where the proposal cannot be decoded.
    pub fn new(
        channel_id: String,
        tx_id: String,
        input: ChaincodeInput,
        signed_proposal: Option<SignedProposal>,
    ) -> (r: Result<ChaincodeStub>)
        ensures
            match parts_of(signed_proposal) {
                Ok(parts) => r matches Ok(stub) && stub@ == (StubView {
                    channel_id: channel_id@,
                    tx_id: tx_id@,
                    args: input.args.deep_view(),
                    decorations: input.decorations@,
                    signed_proposal: signed_view(signed_proposal),
                    creator: parts.creator,
                    transient: parts.transient,
                    tx_timestamp: parts.tx_timestamp,
                    event: None,
                }),
                Err(e) => r matches Err(error) && error@ == ErrorView::Decode(e),
            },
    {
        let mut tx_timestamp: Option<Timestamp> = None;
        let mut creator: Vec<u8> = Vec::new();
        let mut transient = BytesMap::new();
        if let Some(proposal) = &signed_proposal {
            match open_proposal(proposal.proposal_bytes.as_slice()) {
                Ok((timestamp, signer, data)) => {
                    tx_timestamp = timestamp;
                    creator = signer;
                    transient = data;
                },
                Err(e) => return Err(Error::Decode(e)),
            }
        }
        let ChaincodeInput { args, decorations, is_init: _ } = input;
        Ok(
            ChaincodeStub {
                channel_id,
                tx_id,
                args,
                decorations,
                signed_proposal,
                creator,
                transient,
                tx_timestamp,
                event: None,
            },
        )
    }

    // ---- transaction identity ----------------------------------------------
    /// The id of the transaction.
    pub fn get_tx_id(&self) -> (r: &str)
        ensures
            r@ == self@.tx_id,
    {
        self.tx_id.as_str()
    }

    /// The channel of the transaction.
    pub fn get_channel_id(&self) -> (r: &str)
        ensures
            r@ == self@.channel_id,
    {
        self.channel_id.as_str()
    }

    /// Timestamp from the transaction's channel header, which the client set and
    /// which is the same on all endorsers.
    pub fn get_tx_timestamp(&self) -> (r: Result<Timestamp>)
        ensures
            match self@.tx_timestamp {
                Some((seconds, nanos)) => r matches Ok(t) && t.seconds == seconds && t.nanos
                    == nanos,
                None => r matches Err(e) && e@ == ErrorView::Protocol(
                    "transaction has no timestamp (no proposal)"@,
                ),
            },
    {
        match &self.tx_timestamp {
            Some(t) => Ok(Timestamp { seconds: t.seconds, nanos: t.nanos }),
            None => Err(
                Error::Protocol("transaction has no timestamp (no proposal)".to_owned()),
            ),
        }
    }

    // ---- arguments ---------------------------------------------------------
    /// The arguments, as they came.
    pub fn get_args(&self) -> (r: &[Vec<u8>])
        ensures
            r@.len() == self@.args.len(),
            forall|i: int| 0 <= i < r@.len() ==> #[trigger] r@[i]@ == self@.args[i],
    {
        proof {
            assert forall|i: int| 0 <= i < self.args@.len() implies #[trigger] self.args@[i]@
                == self@.args[i] by {
                assert(self.args@[i].deep_view() =~= self.args@[i]@);
            }
        }
        self.args.as_slice()
    }

    /// The arguments as text; bytes that are not UTF-8 are replaced.
    pub fn get_string_args(&self) -> (r: Vec<String>)
        ensures
            r.deep_view() == string_args(self@.args),
            forall|i: int|
                0 <= i < self@.args.len() ==> text::lossy_keeps_text(#[trigger] self@.args[i]),
    {
        let mut out: Vec<String> = Vec::new();
        let mut i: usize = 0;
        while i < self.args.len()
            invariant
                0 <= i <= self.args@.len(),
                out@.len() == i,
                forall|k: int| 0 <= k < i ==> #[trigger] out@[k]@ == text::lossy(self@.args[k]),
                forall|k: int|
                    0 <= k < i ==> text::lossy_keeps_text(#[trigger] self@.args[k]),
            decreases self.args@.len() - i,
        {
            assert(self.args@[i as int].deep_view() =~= self.args@[i as int]@);
            out.push(text::lossy_text(self.args[i].as_slice()));
            i = i + 1;
        }
        assert(out.deep_view() =~= string_args(self@.args));
        out
    }

    /// First argument as the function name, the rest as parameters.
    pub fn get_function_and_args(&self) -> (r: (String, Vec<String>))
        ensures
            self@.args.len() == 0 ==> r.0@ == Seq::<char>::empty() && r.1@.len() == 0,
            self@.args.len() > 0 ==> r.0@ == text::lossy(self@.args[0]) && r.1.deep_view()
                == string_args(self@.args.skip(1)),
            forall|i: int|
                0 <= i < self@.args.len() ==> text::lossy_keeps_text(#[trigger] self@.args[i]),
    {
        let mut args = self.get_string_args();
        let ghost all = args.deep_view();
        assert(all.len() == args@.len());
        if args.len() == 0 {
            (String::new(), args)
        } else {
            let function = args.remove(0);
            assert(function@ == all[0]);
            assert(args.deep_view() =~= all.skip(1));
            assert(all.skip(1) =~= string_args(self@.args.skip(1)));
            (function, args)
        }
    }

    // ---- identity and proposal ---------------------------------------------
    /// Raw creator bytes: an encoded [`SerializedIdentity`].
    pub fn get_creator(&self) -> (r: &[u8])
        ensures
            r@ == self@.creator,
    {
        self.creator.as_slice()
    }

    /// Creator decoded into the organisation and the bytes of the certificate.
    pub fn get_creator_identity(&self) -> (r: Result<SerializedIdentity>)
        ensures
            match decoded(Layout::SerializedIdentity, self@.creator) {
                Ok(record) => r matches Ok(identity) && identity.record() == record,
                Err(e) => r matches Err(error) && error@ == ErrorView::Decode(e),
            },
    {
        match decode(self.creator.as_slice()) {
            Ok(identity) => Ok(identity),
            Err(e) => Err(Error::Decode(e)),
        }
    }

    /// The transient data of the proposal.
    pub fn get_transient(&self) -> (r: &BytesMap)
        ensures
            r@ == self@.transient,
    {
        &self.transient
    }

    /// The decorations of the input.
    pub fn get_decorations(&self) -> (r: &BytesMap)
        ensures
            r@ == self@.decorations,
    {
        &self.decorations
    }

    /// The proposal of the transaction.
    pub fn get_signed_proposal(&self) -> (r: Option<&SignedProposal>)
        ensures
            match r {
                Some(p) => self@.signed_proposal == Some((p.proposal_bytes@, p.signature@)),
                None => self@.signed_proposal is None,
            },
    {
        self.signed_proposal.as_ref()
    }

    // ---- events ------------------------------------------------------------
    /// Sets the single chaincode event emitted with this transaction. A second
    /// call replaces the first.
    pub fn set_event(&mut self, name: &str, payload: Vec<u8>) -> (r: Result<()>)
        ensures
            if name@.len() == 0 {
                (r matches Err(e) && e@ == ErrorView::InvalidArgument(
                    "event name must not be empty"@,
                )) && final(self)@ == old(self)@
            } else {
                r is Ok && final(self)@ == with_event(old(self)@, name@, payload@)
            },
    {
        if name.is_empty() {
            return Err(Error::InvalidArgument("event name must not be empty".to_owned()));
        }
        let event = ChaincodeEvent {
            // Filled in by the peer.
            chaincode_id: String::new(),
            tx_id: self.tx_id.clone(),
            event_name: name.to_owned(),
            payload,
        };
        self.event = Some(event);
        assert(event@ =~= EventView {
            chaincode_id: seq![],
            tx_id: self.tx_id@,
            event_name: name@,
            payload: payload@,
        });
        Ok(())
    }

    /// Takes the event that was set.
    pub fn take_event(&mut self) -> (r: Option<ChaincodeEvent>)
        ensures
            event_view(r) == old(self)@.event,
            final(self)@ == (StubView { event: None, ..old(self)@ }),
    {
        self.event.take()
    }

    // ---- composite keys ----------------------------------------------------
    /// Builds a composite key.
    pub fn create_composite_key(&self, object_type: &str, attributes: &[&str]) -> (r: Result<String>)
        ensures
            match composite_key::first_fault(
                seq![object_type@] + composite_key::texts(attributes@),
            ) {
                None => r matches Ok(key) && key@ == composite_key::composite_key(
                    object_type@,
                    composite_key::texts(attributes@),
                ),
                Some(fault) => r matches Err(e) && e@ == ErrorView::InvalidArgument(fault),
            },
    {
        composite_key::create_composite_key(object_type, attributes)
    }

    /// Splits a composite key into its object type and attributes.
    pub fn split_composite_key(&self, composite_key: &str) -> (r: Result<(String, Vec<String>)>)
        ensures
            match composite_key::components(composite_key@) {
                Ok((object_type, attributes)) => r matches Ok((t, a)) && t@ == object_type
                    && a.deep_view() == attributes,
                Err(fault) => r matches Err(e) && e@ == ErrorView::InvalidArgument(fault),
            },
    {
        composite_key::split_composite_key(composite_key)
    }
}

/// Each of `args` as text.
pub open spec fn string_args(args: Seq<Seq<u8>>) -> Seq<Seq<char>> {
    Seq::new(args.len(), |i: int| text::lossy(args[i]))
}

/// What a stub knows after an event has been set.
pub open spec fn with_event(stub: StubView, name: Seq<char>, payload: Seq<u8>) -> StubView {
    StubView {
        event: Some(
            EventView { chaincode_id: seq![], tx_id: stub.tx_id, event_name: name, payload },
        ),
        ..stub
    }
}

/// Of two events that are set, the second is the one that is emitted.
pub proof fn second_event_replaces_first(
    stub: StubView,
    first: Seq<char>,
    first_payload: Seq<u8>,
    second: Seq<char>,
    second_payload: Seq<u8>,
)
    ensures
        with_event(with_event(stub, first, first_payload), second, second_payload) == with_event(
            stub,
            second,
            second_payload,
        ),
{
}

} // verus!

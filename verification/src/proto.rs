//! The messages that chaincode and peer exchange.

use vstd::prelude::*;

use crate::bytes_map::BytesMap;
use crate::codec::{blank_record, Datum, Message};
use crate::error::DecodeError;
use crate::fields::{at_field, bool_number, optional_record, records};
use crate::fields::{merge_bool, merge_bytes, merge_entries, merge_int32, merge_int64};
use crate::fields::{merge_many_bytes, merge_message, merge_messages, merge_text, merge_uint64};
use crate::fields::{merge_unknown, put_bytes, put_entries, put_many_bytes, put_message};
use crate::fields::{put_messages, put_number, put_text, put_uint64};
use crate::layout::{fields, Layout};
use crate::wire::WireType;

verus! {

/// A moment: seconds and nanoseconds since the Unix epoch.
#[derive(Debug, Clone, PartialEq, Eq)]
pub struct Timestamp {
    pub seconds: i64,
    pub nanos: i32,
}

impl Message for Timestamp {
    open spec fn layout() -> Layout {
        Layout::Timestamp
    }

    open spec fn record(&self) -> Seq<Datum> {
        seq![
            Datum::Int(self.seconds as int),
            Datum::Int(self.nanos as int),
        ]
    }

    open spec fn well_formed(&self) -> bool {
        true
    }

    proof fn record_has_every_field(&self) {
        reveal(fields);
    }

    proof fn record_is_shaped(&self) {
        reveal(fields);
    }

    fn blank() -> (r: Timestamp) {
        proof {
            reveal(fields);
        }
        let r = Timestamp { seconds: 0, nanos: 0 };
        assert(r.record() =~= blank_record(Layout::Timestamp));
        r
    }

    fn merge_field<'a>(&mut self, tag: u32, wire: WireType, bytes: &'a [u8], depth: u32) -> (r:
        Result<&'a [u8], DecodeError>) {
        proof {
            reveal(fields);
        }
        let ghost before = self.record();
        let r = match tag {
            1 => at_field(merge_int64(&mut self.seconds, wire, bytes), "Timestamp", "seconds"),
            2 => at_field(merge_int32(&mut self.nanos, wire, bytes), "Timestamp", "nanos"),
            _ => merge_unknown(wire, tag, bytes, depth),
        };
        assert(1 <= tag <= 2 ==> self.record() =~= before.update(
            tag - 1,
            self.record()[tag - 1],
        ));
        r
    }

    fn field_count() -> (r: usize) {
        proof {
            reveal(fields);
        }
        2
    }

    fn put_field(&self, index: usize, out: &mut Vec<u8>) {
        proof {
            reveal(fields);
        }
        match index {
            0 => put_number(1, self.seconds, out),
            _ => put_number(2, self.nanos as i64, out),
        }
    }
}

/// The envelope of everything that chaincode and peer say to each other.
#[derive(Debug, Clone, PartialEq, Eq)]
pub struct ChaincodeMessage {
    pub type_code: i32,
    pub timestamp: Option<Timestamp>,
    pub payload: Vec<u8>,
    pub txid: String,
    pub proposal: Option<SignedProposal>,
    pub chaincode_event: Option<ChaincodeEvent>,
    pub channel_id: String,
}

impl Message for ChaincodeMessage {
    open spec fn layout() -> Layout {
        Layout::ChaincodeMessage
    }

    open spec fn record(&self) -> Seq<Datum> {
        seq![
            Datum::Int(self.type_code as int),
            optional_record(self.timestamp),
            Datum::Bytes(self.payload@),
            Datum::Text(self.txid@),
            optional_record(self.proposal),
            optional_record(self.chaincode_event),
            Datum::Text(self.channel_id@),
        ]
    }

    open spec fn well_formed(&self) -> bool {
        true
    }

    proof fn record_has_every_field(&self) {
        reveal(fields);
    }

    proof fn record_is_shaped(&self) {
        reveal(fields);
        if let Some(inner) = self.timestamp {
            inner.record_is_shaped();
        }
        if let Some(inner) = self.proposal {
            inner.record_is_shaped();
        }
        if let Some(inner) = self.chaincode_event {
            inner.record_is_shaped();
        }
    }

    fn blank() -> (r: ChaincodeMessage) {
        proof {
            reveal(fields);
        }
        let r = ChaincodeMessage {
            type_code: 0,
            timestamp: None,
            payload: Vec::new(),
            txid: String::new(),
            proposal: None,
            chaincode_event: None,
            channel_id: String::new(),
        };
        assert(r.record() =~= blank_record(Layout::ChaincodeMessage));
        r
    }

    fn merge_field<'a>(&mut self, tag: u32, wire: WireType, bytes: &'a [u8], depth: u32) -> (r:
        Result<&'a [u8], DecodeError>) {
        proof {
            reveal(fields);
        }
        let ghost before = self.record();
        let r = match tag {
            1 => at_field(
                merge_int32(&mut self.type_code, wire, bytes),
                "ChaincodeMessage",
                "r#type",
            ),
            2 => at_field(
                merge_message(&mut self.timestamp, wire, bytes, depth),
                "ChaincodeMessage",
                "timestamp",
            ),
            3 => at_field(
                merge_bytes(&mut self.payload, wire, bytes),
                "ChaincodeMessage",
                "payload",
            ),
            4 => at_field(merge_text(&mut self.txid, wire, bytes), "ChaincodeMessage", "txid"),
            5 => at_field(
                merge_message(&mut self.proposal, wire, bytes, depth),
                "ChaincodeMessage",
                "proposal",
            ),
            6 => at_field(
                merge_message(&mut self.chaincode_event, wire, bytes, depth),
                "ChaincodeMessage",
                "chaincode_event",
            ),
            7 => at_field(
                merge_text(&mut self.channel_id, wire, bytes),
                "ChaincodeMessage",
                "channel_id",
            ),
            _ => merge_unknown(wire, tag, bytes, depth),
        };
        assert(1 <= tag <= 7 ==> self.record() =~= before.update(
            tag - 1,
            self.record()[tag - 1],
        ));
        r
    }

    fn field_count() -> (r: usize) {
        proof {
            reveal(fields);
        }
        7
    }

    fn put_field(&self, index: usize, out: &mut Vec<u8>) {
        proof {
            reveal(fields);
        }
        match index {
            0 => put_number(1, self.type_code as i64, out),
            1 => put_message(2, &self.timestamp, out),
            2 => put_bytes(3, &self.payload, out),
            3 => put_text(4, &self.txid, out),
            4 => put_message(5, &self.proposal, out),
            5 => put_message(6, &self.chaincode_event, out),
            _ => put_text(7, &self.channel_id, out),
        }
    }
}

/// A proposal with its signature.
#[derive(Debug, Clone, PartialEq, Eq)]
pub struct SignedProposal {
    pub proposal_bytes: Vec<u8>,
    pub signature: Vec<u8>,
}

impl Message for SignedProposal {
    open spec fn layout() -> Layout {
        Layout::SignedProposal
    }

    open spec fn record(&self) -> Seq<Datum> {
        seq![
            Datum::Bytes(self.proposal_bytes@),
            Datum::Bytes(self.signature@),
        ]
    }

    open spec fn well_formed(&self) -> bool {
        true
    }

    proof fn record_has_every_field(&self) {
        reveal(fields);
    }

    proof fn record_is_shaped(&self) {
        reveal(fields);
    }

    fn blank() -> (r: SignedProposal) {
        proof {
            reveal(fields);
        }
        let r = SignedProposal { proposal_bytes: Vec::new(), signature: Vec::new() };
        assert(r.record() =~= blank_record(Layout::SignedProposal));
        r
    }

    fn merge_field<'a>(&mut self, tag: u32, wire: WireType, bytes: &'a [u8], depth: u32) -> (r:
        Result<&'a [u8], DecodeError>) {
        proof {
            reveal(fields);
        }
        let ghost before = self.record();
        let r = match tag {
            1 => at_field(
                merge_bytes(&mut self.proposal_bytes, wire, bytes),
                "SignedProposal",
                "proposal_bytes",
            ),
            2 => at_field(
                merge_bytes(&mut self.signature, wire, bytes),
                "SignedProposal",
                "signature",
            ),
            _ => merge_unknown(wire, tag, bytes, depth),
        };
        assert(1 <= tag <= 2 ==> self.record() =~= before.update(
            tag - 1,
            self.record()[tag - 1],
        ));
        r
    }

    fn field_count() -> (r: usize) {
        proof {
            reveal(fields);
        }
        2
    }

    fn put_field(&self, index: usize, out: &mut Vec<u8>) {
        proof {
            reveal(fields);
        }
        match index {
            0 => put_bytes(1, &self.proposal_bytes, out),
            _ => put_bytes(2, &self.signature, out),
        }
    }
}

/// What a client proposes.
#[derive(Debug, Clone, PartialEq, Eq)]
pub struct Proposal {
    pub header: Vec<u8>,
    pub payload: Vec<u8>,
    pub extension: Vec<u8>,
}

impl Message for Proposal {
    open spec fn layout() -> Layout {
        Layout::Proposal
    }

    open spec fn record(&self) -> Seq<Datum> {
        seq![
            Datum::Bytes(self.header@),
            Datum::Bytes(self.payload@),
            Datum::Bytes(self.extension@),
        ]
    }

    open spec fn well_formed(&self) -> bool {
        true
    }

    proof fn record_has_every_field(&self) {
        reveal(fields);
    }

    proof fn record_is_shaped(&self) {
        reveal(fields);
    }

    fn blank() -> (r: Proposal) {
        proof {
            reveal(fields);
        }
        let r = Proposal { header: Vec::new(), payload: Vec::new(), extension: Vec::new() };
        assert(r.record() =~= blank_record(Layout::Proposal));
        r
    }

    fn merge_field<'a>(&mut self, tag: u32, wire: WireType, bytes: &'a [u8], depth: u32) -> (r:
        Result<&'a [u8], DecodeError>) {
        proof {
            reveal(fields);
        }
        let ghost before = self.record();
        let r = match tag {
            1 => at_field(merge_bytes(&mut self.header, wire, bytes), "Proposal", "header"),
            2 => at_field(merge_bytes(&mut self.payload, wire, bytes), "Proposal", "payload"),
            3 => at_field(merge_bytes(&mut self.extension, wire, bytes), "Proposal", "extension"),
            _ => merge_unknown(wire, tag, bytes, depth),
        };
        assert(1 <= tag <= 3 ==> self.record() =~= before.update(
            tag - 1,
            self.record()[tag - 1],
        ));
        r
    }

    fn field_count() -> (r: usize) {
        proof {
            reveal(fields);
        }
        3
    }

    fn put_field(&self, index: usize, out: &mut Vec<u8>) {
        proof {
            reveal(fields);
        }
        match index {
            0 => put_bytes(1, &self.header, out),
            1 => put_bytes(2, &self.payload, out),
            _ => put_bytes(3, &self.extension, out),
        }
    }
}

/// The payload of a proposal to a chaincode.
#[derive(Debug, Clone, PartialEq, Eq)]
pub struct ChaincodeProposalPayload {
    pub input: Vec<u8>,
    pub transient_map: BytesMap,
}

impl Message for ChaincodeProposalPayload {
    open spec fn layout() -> Layout {
        Layout::ChaincodeProposalPayload
    }

    open spec fn record(&self) -> Seq<Datum> {
        seq![
            Datum::Bytes(self.input@),
            Datum::Entries(self.transient_map@),
        ]
    }

    open spec fn well_formed(&self) -> bool {
        self.transient_map.well_formed()
    }

    proof fn record_has_every_field(&self) {
        reveal(fields);
    }

    proof fn record_is_shaped(&self) {
        reveal(fields);
    }

    fn blank() -> (r: ChaincodeProposalPayload) {
        proof {
            reveal(fields);
        }
        let r = ChaincodeProposalPayload { input: Vec::new(), transient_map: BytesMap::new() };
        assert(r.record() =~= blank_record(Layout::ChaincodeProposalPayload));
        r
    }

    fn merge_field<'a>(&mut self, tag: u32, wire: WireType, bytes: &'a [u8], depth: u32) -> (r:
        Result<&'a [u8], DecodeError>) {
        proof {
            reveal(fields);
        }
        let ghost before = self.record();
        let r = match tag {
            1 => at_field(
                merge_bytes(&mut self.input, wire, bytes),
                "ChaincodeProposalPayload",
                "input",
            ),
            2 => at_field(
                merge_entries(&mut self.transient_map, wire, bytes, depth),
                "ChaincodeProposalPayload",
                "transient_map",
            ),
            _ => merge_unknown(wire, tag, bytes, depth),
        };
        assert(1 <= tag <= 2 ==> self.record() =~= before.update(
            tag - 1,
            self.record()[tag - 1],
        ));
        r
    }

    fn field_count() -> (r: usize) {
        proof {
            reveal(fields);
        }
        2
    }

    fn put_field(&self, index: usize, out: &mut Vec<u8>) {
        proof {
            reveal(fields);
        }
        match index {
            0 => put_bytes(1, &self.input, out),
            _ => put_entries(2, &self.transient_map, out),
        }
    }
}

/// The headers of a proposal.
#[derive(Debug, Clone, PartialEq, Eq)]
pub struct Header {
    pub channel_header: Vec<u8>,
    pub signature_header: Vec<u8>,
}

impl Message for Header {
    open spec fn layout() -> Layout {
        Layout::Header
    }

    open spec fn record(&self) -> Seq<Datum> {
        seq![
            Datum::Bytes(self.channel_header@),
            Datum::Bytes(self.signature_header@),
        ]
    }

    open spec fn well_formed(&self) -> bool {
        true
    }

    proof fn record_has_every_field(&self) {
        reveal(fields);
    }

    proof fn record_is_shaped(&self) {
        reveal(fields);
    }

    fn blank() -> (r: Header) {
        proof {
            reveal(fields);
        }
        let r = Header { channel_header: Vec::new(), signature_header: Vec::new() };
        assert(r.record() =~= blank_record(Layout::Header));
        r
    }

    fn merge_field<'a>(&mut self, tag: u32, wire: WireType, bytes: &'a [u8], depth: u32) -> (r:
        Result<&'a [u8], DecodeError>) {
        proof {
            reveal(fields);
        }
        let ghost before = self.record();
        let r = match tag {
            1 => at_field(
                merge_bytes(&mut self.channel_header, wire, bytes),
                "Header",
                "channel_header",
            ),
            2 => at_field(
                merge_bytes(&mut self.signature_header, wire, bytes),
                "Header",
                "signature_header",
            ),
            _ => merge_unknown(wire, tag, bytes, depth),
        };
        assert(1 <= tag <= 2 ==> self.record() =~= before.update(
            tag - 1,
            self.record()[tag - 1],
        ));
        r
    }

    fn field_count() -> (r: usize) {
        proof {
            reveal(fields);
        }
        2
    }

    fn put_field(&self, index: usize, out: &mut Vec<u8>) {
        proof {
            reveal(fields);
        }
        match index {
            0 => put_bytes(1, &self.channel_header, out),
            _ => put_bytes(2, &self.signature_header, out),
        }
    }
}

/// The part of a header that concerns the channel.
#[derive(Debug, Clone, PartialEq, Eq)]
pub struct ChannelHeader {
    pub type_code: i32,
    pub version: i32,
    pub timestamp: Option<Timestamp>,
    pub channel_id: String,
    pub tx_id: String,
    pub epoch: u64,
    pub extension: Vec<u8>,
    pub tls_cert_hash: Vec<u8>,
}

impl Message for ChannelHeader {
    open spec fn layout() -> Layout {
        Layout::ChannelHeader
    }

    open spec fn record(&self) -> Seq<Datum> {
        seq![
            Datum::Int(self.type_code as int),
            Datum::Int(self.version as int),
            optional_record(self.timestamp),
            Datum::Text(self.channel_id@),
            Datum::Text(self.tx_id@),
            Datum::Int(self.epoch as int),
            Datum::Bytes(self.extension@),
            Datum::Bytes(self.tls_cert_hash@),
        ]
    }

    open spec fn well_formed(&self) -> bool {
        true
    }

    proof fn record_has_every_field(&self) {
        reveal(fields);
    }

    proof fn record_is_shaped(&self) {
        reveal(fields);
        if let Some(inner) = self.timestamp {
            inner.record_is_shaped();
        }
    }

    fn blank() -> (r: ChannelHeader) {
        proof {
            reveal(fields);
        }
        let r = ChannelHeader {
            type_code: 0,
            version: 0,
            timestamp: None,
            channel_id: String::new(),
            tx_id: String::new(),
            epoch: 0,
            extension: Vec::new(),
            tls_cert_hash: Vec::new(),
        };
        assert(r.record() =~= blank_record(Layout::ChannelHeader));
        r
    }

    fn merge_field<'a>(&mut self, tag: u32, wire: WireType, bytes: &'a [u8], depth: u32) -> (r:
        Result<&'a [u8], DecodeError>) {
        proof {
            reveal(fields);
        }
        let ghost before = self.record();
        let r = match tag {
            1 => at_field(
                merge_int32(&mut self.type_code, wire, bytes),
                "ChannelHeader",
                "r#type",
            ),
            2 => at_field(
                merge_int32(&mut self.version, wire, bytes),
                "ChannelHeader",
                "version",
            ),
            3 => at_field(
                merge_message(&mut self.timestamp, wire, bytes, depth),
                "ChannelHeader",
                "timestamp",
            ),
            4 => at_field(
                merge_text(&mut self.channel_id, wire, bytes),
                "ChannelHeader",
                "channel_id",
            ),
            5 => at_field(merge_text(&mut self.tx_id, wire, bytes), "ChannelHeader", "tx_id"),
            6 => at_field(merge_uint64(&mut self.epoch, wire, bytes), "ChannelHeader", "epoch"),
            7 => at_field(
                merge_bytes(&mut self.extension, wire, bytes),
                "ChannelHeader",
                "extension",
            ),
            8 => at_field(
                merge_bytes(&mut self.tls_cert_hash, wire, bytes),
                "ChannelHeader",
                "tls_cert_hash",
            ),
            _ => merge_unknown(wire, tag, bytes, depth),
        };
        assert(1 <= tag <= 8 ==> self.record() =~= before.update(
            tag - 1,
            self.record()[tag - 1],
        ));
        r
    }

    fn field_count() -> (r: usize) {
        proof {
            reveal(fields);
        }
        8
    }

    fn put_field(&self, index: usize, out: &mut Vec<u8>) {
        proof {
            reveal(fields);
        }
        match index {
            0 => put_number(1, self.type_code as i64, out),
            1 => put_number(2, self.version as i64, out),
            2 => put_message(3, &self.timestamp, out),
            3 => put_text(4, &self.channel_id, out),
            4 => put_text(5, &self.tx_id, out),
            5 => put_uint64(6, self.epoch, out),
            6 => put_bytes(7, &self.extension, out),
            _ => put_bytes(8, &self.tls_cert_hash, out),
        }
    }
}

/// The part of a header that concerns who signed.
#[derive(Debug, Clone, PartialEq, Eq)]
pub struct SignatureHeader {
    pub creator: Vec<u8>,
    pub nonce: Vec<u8>,
}

impl Message for SignatureHeader {
    open spec fn layout() -> Layout {
        Layout::SignatureHeader
    }

    open spec fn record(&self) -> Seq<Datum> {
        seq![
            Datum::Bytes(self.creator@),
            Datum::Bytes(self.nonce@),
        ]
    }

    open spec fn well_formed(&self) -> bool {
        true
    }

    proof fn record_has_every_field(&self) {
        reveal(fields);
    }

    proof fn record_is_shaped(&self) {
        reveal(fields);
    }

    fn blank() -> (r: SignatureHeader) {
        proof {
            reveal(fields);
        }
        let r = SignatureHeader { creator: Vec::new(), nonce: Vec::new() };
        assert(r.record() =~= blank_record(Layout::SignatureHeader));
        r
    }

    fn merge_field<'a>(&mut self, tag: u32, wire: WireType, bytes: &'a [u8], depth: u32) -> (r:
        Result<&'a [u8], DecodeError>) {
        proof {
            reveal(fields);
        }
        let ghost before = self.record();
        let r = match tag {
            1 => at_field(
                merge_bytes(&mut self.creator, wire, bytes),
                "SignatureHeader",
                "creator",
            ),
            2 => at_field(merge_bytes(&mut self.nonce, wire, bytes), "SignatureHeader", "nonce"),
            _ => merge_unknown(wire, tag, bytes, depth),
        };
        assert(1 <= tag <= 2 ==> self.record() =~= before.update(
            tag - 1,
            self.record()[tag - 1],
        ));
        r
    }

    fn field_count() -> (r: usize) {
        proof {
            reveal(fields);
        }
        2
    }

    fn put_field(&self, index: usize, out: &mut Vec<u8>) {
        proof {
            reveal(fields);
        }
        match index {
            0 => put_bytes(1, &self.creator, out),
            _ => put_bytes(2, &self.nonce, out),
        }
    }
}

/// An identity and the organisation that vouches for it.
#[derive(Debug, Clone, PartialEq, Eq)]
pub struct SerializedIdentity {
    pub mspid: String,
    pub id_bytes: Vec<u8>,
}

impl Message for SerializedIdentity {
    open spec fn layout() -> Layout {
        Layout::SerializedIdentity
    }

    open spec fn record(&self) -> Seq<Datum> {
        seq![
            Datum::Text(self.mspid@),
            Datum::Bytes(self.id_bytes@),
        ]
    }

    open spec fn well_formed(&self) -> bool {
        true
    }

    proof fn record_has_every_field(&self) {
        reveal(fields);
    }

    proof fn record_is_shaped(&self) {
        reveal(fields);
    }

    fn blank() -> (r: SerializedIdentity) {
        proof {
            reveal(fields);
        }
        let r = SerializedIdentity { mspid: String::new(), id_bytes: Vec::new() };
        assert(r.record() =~= blank_record(Layout::SerializedIdentity));
        r
    }

    fn merge_field<'a>(&mut self, tag: u32, wire: WireType, bytes: &'a [u8], depth: u32) -> (r:
        Result<&'a [u8], DecodeError>) {
        proof {
            reveal(fields);
        }
        let ghost before = self.record();
        let r = match tag {
            1 => at_field(
                merge_text(&mut self.mspid, wire, bytes),
                "SerializedIdentity",
                "mspid",
            ),
            2 => at_field(
                merge_bytes(&mut self.id_bytes, wire, bytes),
                "SerializedIdentity",
                "id_bytes",
            ),
            _ => merge_unknown(wire, tag, bytes, depth),
        };
        assert(1 <= tag <= 2 ==> self.record() =~= before.update(
            tag - 1,
            self.record()[tag - 1],
        ));
        r
    }

    fn field_count() -> (r: usize) {
        proof {
            reveal(fields);
        }
        2
    }

    fn put_field(&self, index: usize, out: &mut Vec<u8>) {
        proof {
            reveal(fields);
        }
        match index {
            0 => put_text(1, &self.mspid, out),
            _ => put_bytes(2, &self.id_bytes, out),
        }
    }
}

/// The name of a chaincode.
#[derive(Debug, Clone, PartialEq, Eq)]
pub struct ChaincodeId {
    pub path: String,
    pub name: String,
    pub version: String,
}

impl Message for ChaincodeId {
    open spec fn layout() -> Layout {
        Layout::ChaincodeId
    }

    open spec fn record(&self) -> Seq<Datum> {
        seq![
            Datum::Text(self.path@),
            Datum::Text(self.name@),
            Datum::Text(self.version@),
        ]
    }

    open spec fn well_formed(&self) -> bool {
        true
    }

    proof fn record_has_every_field(&self) {
        reveal(fields);
    }

    proof fn record_is_shaped(&self) {
        reveal(fields);
    }

    fn blank() -> (r: ChaincodeId) {
        proof {
            reveal(fields);
        }
        let r = ChaincodeId { path: String::new(), name: String::new(), version: String::new() };
        assert(r.record() =~= blank_record(Layout::ChaincodeId));
        r
    }

    fn merge_field<'a>(&mut self, tag: u32, wire: WireType, bytes: &'a [u8], depth: u32) -> (r:
        Result<&'a [u8], DecodeError>) {
        proof {
            reveal(fields);
        }
        let ghost before = self.record();
        let r = match tag {
            1 => at_field(merge_text(&mut self.path, wire, bytes), "ChaincodeId", "path"),
            2 => at_field(merge_text(&mut self.name, wire, bytes), "ChaincodeId", "name"),
            3 => at_field(merge_text(&mut self.version, wire, bytes), "ChaincodeId", "version"),
            _ => merge_unknown(wire, tag, bytes, depth),
        };
        assert(1 <= tag <= 3 ==> self.record() =~= before.update(
            tag - 1,
            self.record()[tag - 1],
        ));
        r
    }

    fn field_count() -> (r: usize) {
        proof {
            reveal(fields);
        }
        3
    }

    fn put_field(&self, index: usize, out: &mut Vec<u8>) {
        proof {
            reveal(fields);
        }
        match index {
            0 => put_text(1, &self.path, out),
            1 => put_text(2, &self.name, out),
            _ => put_text(3, &self.version, out),
        }
    }
}

/// The arguments of a transaction.
#[derive(Debug, Clone, PartialEq, Eq)]
pub struct ChaincodeInput {
    pub args: Vec<Vec<u8>>,
    pub decorations: BytesMap,
    pub is_init: bool,
}

impl Message for ChaincodeInput {
    open spec fn layout() -> Layout {
        Layout::ChaincodeInput
    }

    open spec fn record(&self) -> Seq<Datum> {
        seq![
            Datum::ManyBytes(self.args.deep_view()),
            Datum::Entries(self.decorations@),
            Datum::Int(bool_number(self.is_init)),
        ]
    }

    open spec fn well_formed(&self) -> bool {
        self.decorations.well_formed()
    }

    proof fn record_has_every_field(&self) {
        reveal(fields);
    }

    proof fn record_is_shaped(&self) {
        reveal(fields);
    }

    fn blank() -> (r: ChaincodeInput) {
        proof {
            reveal(fields);
        }
        let r = ChaincodeInput { args: Vec::new(), decorations: BytesMap::new(), is_init: false };
        assert(r.args.deep_view() =~= Seq::<Seq<u8>>::empty());
        assert(r.record() =~= blank_record(Layout::ChaincodeInput));
        r
    }

    fn merge_field<'a>(&mut self, tag: u32, wire: WireType, bytes: &'a [u8], depth: u32) -> (r:
        Result<&'a [u8], DecodeError>) {
        proof {
            reveal(fields);
        }
        let ghost before = self.record();
        let r = match tag {
            1 => at_field(
                merge_many_bytes(&mut self.args, wire, bytes),
                "ChaincodeInput",
                "args",
            ),
            2 => at_field(
                merge_entries(&mut self.decorations, wire, bytes, depth),
                "ChaincodeInput",
                "decorations",
            ),
            3 => at_field(
                merge_bool(&mut self.is_init, wire, bytes),
                "ChaincodeInput",
                "is_init",
            ),
            _ => merge_unknown(wire, tag, bytes, depth),
        };
        assert(1 <= tag <= 3 ==> self.record() =~= before.update(
            tag - 1,
            self.record()[tag - 1],
        ));
        r
    }

    fn field_count() -> (r: usize) {
        proof {
            reveal(fields);
        }
        3
    }

    fn put_field(&self, index: usize, out: &mut Vec<u8>) {
        proof {
            reveal(fields);
        }
        match index {
            0 => put_many_bytes(1, &self.args, out),
            1 => put_entries(2, &self.decorations, out),
            _ => put_number(3, if self.is_init { 1 } else { 0 }, out),
        }
    }
}

/// A call of another chaincode.
#[derive(Debug, Clone, PartialEq, Eq)]
pub struct ChaincodeSpec {
    pub type_code: i32,
    pub chaincode_id: Option<ChaincodeId>,
    pub input: Option<ChaincodeInput>,
    pub timeout: i32,
}

impl Message for ChaincodeSpec {
    open spec fn layout() -> Layout {
        Layout::ChaincodeSpec
    }

    open spec fn record(&self) -> Seq<Datum> {
        seq![
            Datum::Int(self.type_code as int),
            optional_record(self.chaincode_id),
            optional_record(self.input),
            Datum::Int(self.timeout as int),
        ]
    }

    open spec fn well_formed(&self) -> bool {
        (self.input matches Some(inner) ==> inner.well_formed())
    }

    proof fn record_has_every_field(&self) {
        reveal(fields);
    }

    proof fn record_is_shaped(&self) {
        reveal(fields);
        if let Some(inner) = self.chaincode_id {
            inner.record_is_shaped();
        }
        if let Some(inner) = self.input {
            inner.record_is_shaped();
        }
    }

    fn blank() -> (r: ChaincodeSpec) {
        proof {
            reveal(fields);
        }
        let r = ChaincodeSpec { type_code: 0, chaincode_id: None, input: None, timeout: 0 };
        assert(r.record() =~= blank_record(Layout::ChaincodeSpec));
        r
    }

    fn merge_field<'a>(&mut self, tag: u32, wire: WireType, bytes: &'a [u8], depth: u32) -> (r:
        Result<&'a [u8], DecodeError>) {
        proof {
            reveal(fields);
        }
        let ghost before = self.record();
        let r = match tag {
            1 => at_field(
                merge_int32(&mut self.type_code, wire, bytes),
                "ChaincodeSpec",
                "r#type",
            ),
            2 => at_field(
                merge_message(&mut self.chaincode_id, wire, bytes, depth),
                "ChaincodeSpec",
                "chaincode_id",
            ),
            3 => at_field(
                merge_message(&mut self.input, wire, bytes, depth),
                "ChaincodeSpec",
                "input",
            ),
            4 => at_field(
                merge_int32(&mut self.timeout, wire, bytes),
                "ChaincodeSpec",
                "timeout",
            ),
            _ => merge_unknown(wire, tag, bytes, depth),
        };
        assert(1 <= tag <= 4 ==> self.record() =~= before.update(
            tag - 1,
            self.record()[tag - 1],
        ));
        r
    }

    fn field_count() -> (r: usize) {
        proof {
            reveal(fields);
        }
        4
    }

    fn put_field(&self, index: usize, out: &mut Vec<u8>) {
        proof {
            reveal(fields);
        }
        match index {
            0 => put_number(1, self.type_code as i64, out),
            1 => put_message(2, &self.chaincode_id, out),
            2 => put_message(3, &self.input, out),
            _ => put_number(4, self.timeout as i64, out),
        }
    }
}

/// An event that a transaction emits.
#[derive(Debug, Clone, PartialEq, Eq)]
pub struct ChaincodeEvent {
    pub chaincode_id: String,
    pub tx_id: String,
    pub event_name: String,
    pub payload: Vec<u8>,
}

impl Message for ChaincodeEvent {
    open spec fn layout() -> Layout {
        Layout::ChaincodeEvent
    }

    open spec fn record(&self) -> Seq<Datum> {
        seq![
            Datum::Text(self.chaincode_id@),
            Datum::Text(self.tx_id@),
            Datum::Text(self.event_name@),
            Datum::Bytes(self.payload@),
        ]
    }

    open spec fn well_formed(&self) -> bool {
        true
    }

    proof fn record_has_every_field(&self) {
        reveal(fields);
    }

    proof fn record_is_shaped(&self) {
        reveal(fields);
    }

    fn blank() -> (r: ChaincodeEvent) {
        proof {
            reveal(fields);
        }
        let r = ChaincodeEvent {
            chaincode_id: String::new(),
            tx_id: String::new(),
            event_name: String::new(),
            payload: Vec::new(),
        };
        assert(r.record() =~= blank_record(Layout::ChaincodeEvent));
        r
    }

    fn merge_field<'a>(&mut self, tag: u32, wire: WireType, bytes: &'a [u8], depth: u32) -> (r:
        Result<&'a [u8], DecodeError>) {
        proof {
            reveal(fields);
        }
        let ghost before = self.record();
        let r = match tag {
            1 => at_field(
                merge_text(&mut self.chaincode_id, wire, bytes),
                "ChaincodeEvent",
                "chaincode_id",
            ),
            2 => at_field(merge_text(&mut self.tx_id, wire, bytes), "ChaincodeEvent", "tx_id"),
            3 => at_field(
                merge_text(&mut self.event_name, wire, bytes),
                "ChaincodeEvent",
                "event_name",
            ),
            4 => at_field(
                merge_bytes(&mut self.payload, wire, bytes),
                "ChaincodeEvent",
                "payload",
            ),
            _ => merge_unknown(wire, tag, bytes, depth),
        };
        assert(1 <= tag <= 4 ==> self.record() =~= before.update(
            tag - 1,
            self.record()[tag - 1],
        ));
        r
    }

    fn field_count() -> (r: usize) {
        proof {
            reveal(fields);
        }
        4
    }

    fn put_field(&self, index: usize, out: &mut Vec<u8>) {
        proof {
            reveal(fields);
        }
        match index {
            0 => put_text(1, &self.chaincode_id, out),
            1 => put_text(2, &self.tx_id, out),
            2 => put_text(3, &self.event_name, out),
            _ => put_bytes(4, &self.payload, out),
        }
    }
}

/// The outcome of a transaction on the wire.
#[derive(Debug, Clone, PartialEq, Eq)]
pub struct Response {
    pub status: i32,
    pub message: String,
    pub payload: Vec<u8>,
}

impl Message for Response {
    open spec fn layout() -> Layout {
        Layout::Response
    }

    open spec fn record(&self) -> Seq<Datum> {
        seq![
            Datum::Int(self.status as int),
            Datum::Text(self.message@),
            Datum::Bytes(self.payload@),
        ]
    }

    open spec fn well_formed(&self) -> bool {
        true
    }

    proof fn record_has_every_field(&self) {
        reveal(fields);
    }

    proof fn record_is_shaped(&self) {
        reveal(fields);
    }

    fn blank() -> (r: Response) {
        proof {
            reveal(fields);
        }
        let r = Response { status: 0, message: String::new(), payload: Vec::new() };
        assert(r.record() =~= blank_record(Layout::Response));
        r
    }

    fn merge_field<'a>(&mut self, tag: u32, wire: WireType, bytes: &'a [u8], depth: u32) -> (r:
        Result<&'a [u8], DecodeError>) {
        proof {
            reveal(fields);
        }
        let ghost before = self.record();
        let r = match tag {
            1 => at_field(merge_int32(&mut self.status, wire, bytes), "Response", "status"),
            2 => at_field(merge_text(&mut self.message, wire, bytes), "Response", "message"),
            3 => at_field(merge_bytes(&mut self.payload, wire, bytes), "Response", "payload"),
            _ => merge_unknown(wire, tag, bytes, depth),
        };
        assert(1 <= tag <= 3 ==> self.record() =~= before.update(
            tag - 1,
            self.record()[tag - 1],
        ));
        r
    }

    fn field_count() -> (r: usize) {
        proof {
            reveal(fields);
        }
        3
    }

    fn put_field(&self, index: usize, out: &mut Vec<u8>) {
        proof {
            reveal(fields);
        }
        match index {
            0 => put_number(1, self.status as i64, out),
            1 => put_text(2, &self.message, out),
            _ => put_bytes(3, &self.payload, out),
        }
    }
}

/// Asks for the value of a key.
#[derive(Debug, Clone, PartialEq, Eq)]
pub struct GetState {
    pub key: String,
    pub collection: String,
}

impl Message for GetState {
    open spec fn layout() -> Layout {
        Layout::GetState
    }

    open spec fn record(&self) -> Seq<Datum> {
        seq![
            Datum::Text(self.key@),
            Datum::Text(self.collection@),
        ]
    }

    open spec fn well_formed(&self) -> bool {
        true
    }

    proof fn record_has_every_field(&self) {
        reveal(fields);
    }

    proof fn record_is_shaped(&self) {
        reveal(fields);
    }

    fn blank() -> (r: GetState) {
        proof {
            reveal(fields);
        }
        let r = GetState { key: String::new(), collection: String::new() };
        assert(r.record() =~= blank_record(Layout::GetState));
        r
    }

    fn merge_field<'a>(&mut self, tag: u32, wire: WireType, bytes: &'a [u8], depth: u32) -> (r:
        Result<&'a [u8], DecodeError>) {
        proof {
            reveal(fields);
        }
        let ghost before = self.record();
        let r = match tag {
            1 => at_field(merge_text(&mut self.key, wire, bytes), "GetState", "key"),
            2 => at_field(
                merge_text(&mut self.collection, wire, bytes),
                "GetState",
                "collection",
            ),
            _ => merge_unknown(wire, tag, bytes, depth),
        };
        assert(1 <= tag <= 2 ==> self.record() =~= before.update(
            tag - 1,
            self.record()[tag - 1],
        ));
        r
    }

    fn field_count() -> (r: usize) {
        proof {
            reveal(fields);
        }
        2
    }

    fn put_field(&self, index: usize, out: &mut Vec<u8>) {
        proof {
            reveal(fields);
        }
        match index {
            0 => put_text(1, &self.key, out),
            _ => put_text(2, &self.collection, out),
        }
    }
}

/// Sets the value of a key.
#[derive(Debug, Clone, PartialEq, Eq)]
pub struct PutState {
    pub key: String,
    pub value: Vec<u8>,
    pub collection: String,
}

impl Message for PutState {
    open spec fn layout() -> Layout {
        Layout::PutState
    }

    open spec fn record(&self) -> Seq<Datum> {
        seq![
            Datum::Text(self.key@),
            Datum::Bytes(self.value@),
            Datum::Text(self.collection@),
        ]
    }

    open spec fn well_formed(&self) -> bool {
        true
    }

    proof fn record_has_every_field(&self) {
        reveal(fields);
    }

    proof fn record_is_shaped(&self) {
        reveal(fields);
    }

    fn blank() -> (r: PutState) {
        proof {
            reveal(fields);
        }
        let r = PutState { key: String::new(), value: Vec::new(), collection: String::new() };
        assert(r.record() =~= blank_record(Layout::PutState));
        r
    }

    fn merge_field<'a>(&mut self, tag: u32, wire: WireType, bytes: &'a [u8], depth: u32) -> (r:
        Result<&'a [u8], DecodeError>) {
        proof {
            reveal(fields);
        }
        let ghost before = self.record();
        let r = match tag {
            1 => at_field(merge_text(&mut self.key, wire, bytes), "PutState", "key"),
            2 => at_field(merge_bytes(&mut self.value, wire, bytes), "PutState", "value"),
            3 => at_field(
                merge_text(&mut self.collection, wire, bytes),
                "PutState",
                "collection",
            ),
            _ => merge_unknown(wire, tag, bytes, depth),
        };
        assert(1 <= tag <= 3 ==> self.record() =~= before.update(
            tag - 1,
            self.record()[tag - 1],
        ));
        r
    }

    fn field_count() -> (r: usize) {
        proof {
            reveal(fields);
        }
        3
    }

    fn put_field(&self, index: usize, out: &mut Vec<u8>) {
        proof {
            reveal(fields);
        }
        match index {
            0 => put_text(1, &self.key, out),
            1 => put_bytes(2, &self.value, out),
            _ => put_text(3, &self.collection, out),
        }
    }
}

/// Deletes a key.
#[derive(Debug, Clone, PartialEq, Eq)]
pub struct DelState {
    pub key: String,
    pub collection: String,
}

impl Message for DelState {
    open spec fn layout() -> Layout {
        Layout::DelState
    }

    open spec fn record(&self) -> Seq<Datum> {
        seq![
            Datum::Text(self.key@),
            Datum::Text(self.collection@),
        ]
    }

    open spec fn well_formed(&self) -> bool {
        true
    }

    proof fn record_has_every_field(&self) {
        reveal(fields);
    }

    proof fn record_is_shaped(&self) {
        reveal(fields);
    }

    fn blank() -> (r: DelState) {
        proof {
            reveal(fields);
        }
        let r = DelState { key: String::new(), collection: String::new() };
        assert(r.record() =~= blank_record(Layout::DelState));
        r
    }

    fn merge_field<'a>(&mut self, tag: u32, wire: WireType, bytes: &'a [u8], depth: u32) -> (r:
        Result<&'a [u8], DecodeError>) {
        proof {
            reveal(fields);
        }
        let ghost before = self.record();
        let r = match tag {
            1 => at_field(merge_text(&mut self.key, wire, bytes), "DelState", "key"),
            2 => at_field(
                merge_text(&mut self.collection, wire, bytes),
                "DelState",
                "collection",
            ),
            _ => merge_unknown(wire, tag, bytes, depth),
        };
        assert(1 <= tag <= 2 ==> self.record() =~= before.update(
            tag - 1,
            self.record()[tag - 1],
        ));
        r
    }

    fn field_count() -> (r: usize) {
        proof {
            reveal(fields);
        }
        2
    }

    fn put_field(&self, index: usize, out: &mut Vec<u8>) {
        proof {
            reveal(fields);
        }
        match index {
            0 => put_text(1, &self.key, out),
            _ => put_text(2, &self.collection, out),
        }
    }
}

/// Purges a key of a private collection.
#[derive(Debug, Clone, PartialEq, Eq)]
pub struct PurgePrivateState {
    pub key: String,
    pub collection: String,
}

impl Message for PurgePrivateState {
    open spec fn layout() -> Layout {
        Layout::PurgePrivateState
    }

    open spec fn record(&self) -> Seq<Datum> {
        seq![
            Datum::Text(self.key@),
            Datum::Text(self.collection@),
        ]
    }

    open spec fn well_formed(&self) -> bool {
        true
    }

    proof fn record_has_every_field(&self) {
        reveal(fields);
    }

    proof fn record_is_shaped(&self) {
        reveal(fields);
    }

    fn blank() -> (r: PurgePrivateState) {
        proof {
            reveal(fields);
        }
        let r = PurgePrivateState { key: String::new(), collection: String::new() };
        assert(r.record() =~= blank_record(Layout::PurgePrivateState));
        r
    }

    fn merge_field<'a>(&mut self, tag: u32, wire: WireType, bytes: &'a [u8], depth: u32) -> (r:
        Result<&'a [u8], DecodeError>) {
        proof {
            reveal(fields);
        }
        let ghost before = self.record();
        let r = match tag {
            1 => at_field(merge_text(&mut self.key, wire, bytes), "PurgePrivateState", "key"),
            2 => at_field(
                merge_text(&mut self.collection, wire, bytes),
                "PurgePrivateState",
                "collection",
            ),
            _ => merge_unknown(wire, tag, bytes, depth),
        };
        assert(1 <= tag <= 2 ==> self.record() =~= before.update(
            tag - 1,
            self.record()[tag - 1],
        ));
        r
    }

    fn field_count() -> (r: usize) {
        proof {
            reveal(fields);
        }
        2
    }

    fn put_field(&self, index: usize, out: &mut Vec<u8>) {
        proof {
            reveal(fields);
        }
        match index {
            0 => put_text(1, &self.key, out),
            _ => put_text(2, &self.collection, out),
        }
    }
}

/// Asks for the keys of a range.
#[derive(Debug, Clone, PartialEq, Eq)]
pub struct GetStateByRange {
    pub start_key: String,
    pub end_key: String,
    pub collection: String,
    pub metadata: Vec<u8>,
}

impl Message for GetStateByRange {
    open spec fn layout() -> Layout {
        Layout::GetStateByRange
    }

    open spec fn record(&self) -> Seq<Datum> {
        seq![
            Datum::Text(self.start_key@),
            Datum::Text(self.end_key@),
            Datum::Text(self.collection@),
            Datum::Bytes(self.metadata@),
        ]
    }

    open spec fn well_formed(&self) -> bool {
        true
    }

    proof fn record_has_every_field(&self) {
        reveal(fields);
    }

    proof fn record_is_shaped(&self) {
        reveal(fields);
    }

    fn blank() -> (r: GetStateByRange) {
        proof {
            reveal(fields);
        }
        let r = GetStateByRange {
            start_key: String::new(),
            end_key: String::new(),
            collection: String::new(),
            metadata: Vec::new(),
        };
        assert(r.record() =~= blank_record(Layout::GetStateByRange));
        r
    }

    fn merge_field<'a>(&mut self, tag: u32, wire: WireType, bytes: &'a [u8], depth: u32) -> (r:
        Result<&'a [u8], DecodeError>) {
        proof {
            reveal(fields);
        }
        let ghost before = self.record();
        let r = match tag {
            1 => at_field(
                merge_text(&mut self.start_key, wire, bytes),
                "GetStateByRange",
                "start_key",
            ),
            2 => at_field(
                merge_text(&mut self.end_key, wire, bytes),
                "GetStateByRange",
                "end_key",
            ),
            3 => at_field(
                merge_text(&mut self.collection, wire, bytes),
                "GetStateByRange",
                "collection",
            ),
            4 => at_field(
                merge_bytes(&mut self.metadata, wire, bytes),
                "GetStateByRange",
                "metadata",
            ),
            _ => merge_unknown(wire, tag, bytes, depth),
        };
        assert(1 <= tag <= 4 ==> self.record() =~= before.update(
            tag - 1,
            self.record()[tag - 1],
        ));
        r
    }

    fn field_count() -> (r: usize) {
        proof {
            reveal(fields);
        }
        4
    }

    fn put_field(&self, index: usize, out: &mut Vec<u8>) {
        proof {
            reveal(fields);
        }
        match index {
            0 => put_text(1, &self.start_key, out),
            1 => put_text(2, &self.end_key, out),
            2 => put_text(3, &self.collection, out),
            _ => put_bytes(4, &self.metadata, out),
        }
    }
}

/// Asks for the answer to a rich query.
#[derive(Debug, Clone, PartialEq, Eq)]
pub struct GetQueryResult {
    pub query: String,
    pub collection: String,
    pub metadata: Vec<u8>,
}

impl Message for GetQueryResult {
    open spec fn layout() -> Layout {
        Layout::GetQueryResult
    }

    open spec fn record(&self) -> Seq<Datum> {
        seq![
            Datum::Text(self.query@),
            Datum::Text(self.collection@),
            Datum::Bytes(self.metadata@),
        ]
    }

    open spec fn well_formed(&self) -> bool {
        true
    }

    proof fn record_has_every_field(&self) {
        reveal(fields);
    }

    proof fn record_is_shaped(&self) {
        reveal(fields);
    }

    fn blank() -> (r: GetQueryResult) {
        proof {
            reveal(fields);
        }
        let r = GetQueryResult {
            query: String::new(),
            collection: String::new(),
            metadata: Vec::new(),
        };
        assert(r.record() =~= blank_record(Layout::GetQueryResult));
        r
    }

    fn merge_field<'a>(&mut self, tag: u32, wire: WireType, bytes: &'a [u8], depth: u32) -> (r:
        Result<&'a [u8], DecodeError>) {
        proof {
            reveal(fields);
        }
        let ghost before = self.record();
        let r = match tag {
            1 => at_field(merge_text(&mut self.query, wire, bytes), "GetQueryResult", "query"),
            2 => at_field(
                merge_text(&mut self.collection, wire, bytes),
                "GetQueryResult",
                "collection",
            ),
            3 => at_field(
                merge_bytes(&mut self.metadata, wire, bytes),
                "GetQueryResult",
                "metadata",
            ),
            _ => merge_unknown(wire, tag, bytes, depth),
        };
        assert(1 <= tag <= 3 ==> self.record() =~= before.update(
            tag - 1,
            self.record()[tag - 1],
        ));
        r
    }

    fn field_count() -> (r: usize) {
        proof {
            reveal(fields);
        }
        3
    }

    fn put_field(&self, index: usize, out: &mut Vec<u8>) {
        proof {
            reveal(fields);
        }
        match index {
            0 => put_text(1, &self.query, out),
            1 => put_text(2, &self.collection, out),
            _ => put_bytes(3, &self.metadata, out),
        }
    }
}

/// How much of a query to answer, and from where on.
#[derive(Debug, Clone, PartialEq, Eq)]
pub struct QueryMetadata {
    pub page_size: i32,
    pub bookmark: String,
}

impl Message for QueryMetadata {
    open spec fn layout() -> Layout {
        Layout::QueryMetadata
    }

    open spec fn record(&self) -> Seq<Datum> {
        seq![
            Datum::Int(self.page_size as int),
            Datum::Text(self.bookmark@),
        ]
    }

    open spec fn well_formed(&self) -> bool {
        true
    }

    proof fn record_has_every_field(&self) {
        reveal(fields);
    }

    proof fn record_is_shaped(&self) {
        reveal(fields);
    }

    fn blank() -> (r: QueryMetadata) {
        proof {
            reveal(fields);
        }
        let r = QueryMetadata { page_size: 0, bookmark: String::new() };
        assert(r.record() =~= blank_record(Layout::QueryMetadata));
        r
    }

    fn merge_field<'a>(&mut self, tag: u32, wire: WireType, bytes: &'a [u8], depth: u32) -> (r:
        Result<&'a [u8], DecodeError>) {
        proof {
            reveal(fields);
        }
        let ghost before = self.record();
        let r = match tag {
            1 => at_field(
                merge_int32(&mut self.page_size, wire, bytes),
                "QueryMetadata",
                "page_size",
            ),
            2 => at_field(
                merge_text(&mut self.bookmark, wire, bytes),
                "QueryMetadata",
                "bookmark",
            ),
            _ => merge_unknown(wire, tag, bytes, depth),
        };
        assert(1 <= tag <= 2 ==> self.record() =~= before.update(
            tag - 1,
            self.record()[tag - 1],
        ));
        r
    }

    fn field_count() -> (r: usize) {
        proof {
            reveal(fields);
        }
        2
    }

    fn put_field(&self, index: usize, out: &mut Vec<u8>) {
        proof {
            reveal(fields);
        }
        match index {
            0 => put_number(1, self.page_size as i64, out),
            _ => put_text(2, &self.bookmark, out),
        }
    }
}

/// Asks for the history of a key.
#[derive(Debug, Clone, PartialEq, Eq)]
pub struct GetHistoryForKey {
    pub key: String,
}

impl Message for GetHistoryForKey {
    open spec fn layout() -> Layout {
        Layout::GetHistoryForKey
    }

    open spec fn record(&self) -> Seq<Datum> {
        seq![Datum::Text(self.key@)]
    }

    open spec fn well_formed(&self) -> bool {
        true
    }

    proof fn record_has_every_field(&self) {
        reveal(fields);
    }

    proof fn record_is_shaped(&self) {
        reveal(fields);
    }

    fn blank() -> (r: GetHistoryForKey) {
        proof {
            reveal(fields);
        }
        let r = GetHistoryForKey { key: String::new() };
        assert(r.record() =~= blank_record(Layout::GetHistoryForKey));
        r
    }

    fn merge_field<'a>(&mut self, tag: u32, wire: WireType, bytes: &'a [u8], depth: u32) -> (r:
        Result<&'a [u8], DecodeError>) {
        proof {
            reveal(fields);
        }
        let ghost before = self.record();
        let r = match tag {
            1 => at_field(merge_text(&mut self.key, wire, bytes), "GetHistoryForKey", "key"),
            _ => merge_unknown(wire, tag, bytes, depth),
        };
        assert(1 <= tag <= 1 ==> self.record() =~= before.update(
            tag - 1,
            self.record()[tag - 1],
        ));
        r
    }

    fn field_count() -> (r: usize) {
        proof {
            reveal(fields);
        }
        1
    }

    fn put_field(&self, index: usize, out: &mut Vec<u8>) {
        proof {
            reveal(fields);
        }
        put_text(1, &self.key, out)
    }
}

/// Asks for more results of an open query.
#[derive(Debug, Clone, PartialEq, Eq)]
pub struct QueryStateNext {
    pub id: String,
}

impl Message for QueryStateNext {
    open spec fn layout() -> Layout {
        Layout::QueryStateNext
    }

    open spec fn record(&self) -> Seq<Datum> {
        seq![Datum::Text(self.id@)]
    }

    open spec fn well_formed(&self) -> bool {
        true
    }

    proof fn record_has_every_field(&self) {
        reveal(fields);
    }

    proof fn record_is_shaped(&self) {
        reveal(fields);
    }

    fn blank() -> (r: QueryStateNext) {
        proof {
            reveal(fields);
        }
        let r = QueryStateNext { id: String::new() };
        assert(r.record() =~= blank_record(Layout::QueryStateNext));
        r
    }

    fn merge_field<'a>(&mut self, tag: u32, wire: WireType, bytes: &'a [u8], depth: u32) -> (r:
        Result<&'a [u8], DecodeError>) {
        proof {
            reveal(fields);
        }
        let ghost before = self.record();
        let r = match tag {
            1 => at_field(merge_text(&mut self.id, wire, bytes), "QueryStateNext", "id"),
            _ => merge_unknown(wire, tag, bytes, depth),
        };
        assert(1 <= tag <= 1 ==> self.record() =~= before.update(
            tag - 1,
            self.record()[tag - 1],
        ));
        r
    }

    fn field_count() -> (r: usize) {
        proof {
            reveal(fields);
        }
        1
    }

    fn put_field(&self, index: usize, out: &mut Vec<u8>) {
        proof {
            reveal(fields);
        }
        put_text(1, &self.id, out)
    }
}

/// Closes an open query.
#[derive(Debug, Clone, PartialEq, Eq)]
pub struct QueryStateClose {
    pub id: String,
}

impl Message for QueryStateClose {
    open spec fn layout() -> Layout {
        Layout::QueryStateClose
    }

    open spec fn record(&self) -> Seq<Datum> {
        seq![Datum::Text(self.id@)]
    }

    open spec fn well_formed(&self) -> bool {
        true
    }

    proof fn record_has_every_field(&self) {
        reveal(fields);
    }

    proof fn record_is_shaped(&self) {
        reveal(fields);
    }

    fn blank() -> (r: QueryStateClose) {
        proof {
            reveal(fields);
        }
        let r = QueryStateClose { id: String::new() };
        assert(r.record() =~= blank_record(Layout::QueryStateClose));
        r
    }

    fn merge_field<'a>(&mut self, tag: u32, wire: WireType, bytes: &'a [u8], depth: u32) -> (r:
        Result<&'a [u8], DecodeError>) {
        proof {
            reveal(fields);
        }
        let ghost before = self.record();
        let r = match tag {
            1 => at_field(merge_text(&mut self.id, wire, bytes), "QueryStateClose", "id"),
            _ => merge_unknown(wire, tag, bytes, depth),
        };
        assert(1 <= tag <= 1 ==> self.record() =~= before.update(
            tag - 1,
            self.record()[tag - 1],
        ));
        r
    }

    fn field_count() -> (r: usize) {
        proof {
            reveal(fields);
        }
        1
    }

    fn put_field(&self, index: usize, out: &mut Vec<u8>) {
        proof {
            reveal(fields);
        }
        put_text(1, &self.id, out)
    }
}

/// A result of a query, encoded.
#[derive(Debug, Clone, PartialEq, Eq)]
pub struct QueryResultBytes {
    pub result_bytes: Vec<u8>,
}

impl Message for QueryResultBytes {
    open spec fn layout() -> Layout {
        Layout::QueryResultBytes
    }

    open spec fn record(&self) -> Seq<Datum> {
        seq![Datum::Bytes(self.result_bytes@)]
    }

    open spec fn well_formed(&self) -> bool {
        true
    }

    proof fn record_has_every_field(&self) {
        reveal(fields);
    }

    proof fn record_is_shaped(&self) {
        reveal(fields);
    }

    fn blank() -> (r: QueryResultBytes) {
        proof {
            reveal(fields);
        }
        let r = QueryResultBytes { result_bytes: Vec::new() };
        assert(r.record() =~= blank_record(Layout::QueryResultBytes));
        r
    }

    fn merge_field<'a>(&mut self, tag: u32, wire: WireType, bytes: &'a [u8], depth: u32) -> (r:
        Result<&'a [u8], DecodeError>) {
        proof {
            reveal(fields);
        }
        let ghost before = self.record();
        let r = match tag {
            1 => at_field(
                merge_bytes(&mut self.result_bytes, wire, bytes),
                "QueryResultBytes",
                "result_bytes",
            ),
            _ => merge_unknown(wire, tag, bytes, depth),
        };
        assert(1 <= tag <= 1 ==> self.record() =~= before.update(
            tag - 1,
            self.record()[tag - 1],
        ));
        r
    }

    fn field_count() -> (r: usize) {
        proof {
            reveal(fields);
        }
        1
    }

    fn put_field(&self, index: usize, out: &mut Vec<u8>) {
        proof {
            reveal(fields);
        }
        put_bytes(1, &self.result_bytes, out)
    }
}

/// Results of a query.
#[derive(Debug, Clone, PartialEq, Eq)]
pub struct QueryResponse {
    pub results: Vec<QueryResultBytes>,
    pub has_more: bool,
    pub id: String,
    pub metadata: Vec<u8>,
}

impl Message for QueryResponse {
    open spec fn layout() -> Layout {
        Layout::QueryResponse
    }

    open spec fn record(&self) -> Seq<Datum> {
        seq![
            Datum::Messages(records(self.results@)),
            Datum::Int(bool_number(self.has_more)),
            Datum::Text(self.id@),
            Datum::Bytes(self.metadata@),
        ]
    }

    open spec fn well_formed(&self) -> bool {
        true
    }

    proof fn record_has_every_field(&self) {
        reveal(fields);
    }

    proof fn record_is_shaped(&self) {
        reveal(fields);
        assert forall|i: int| 0 <= i < self.results@.len() implies crate::codec::shaped(
            Layout::QueryResultBytes,
            #[trigger] records(self.results@)[i],
        ) by {
            self.results@[i].record_is_shaped();
        }
    }

    fn blank() -> (r: QueryResponse) {
        proof {
            reveal(fields);
        }
        let r = QueryResponse {
            results: Vec::new(),
            has_more: false,
            id: String::new(),
            metadata: Vec::new(),
        };
        assert(records(r.results@) =~= Seq::<Seq<Datum>>::empty());
        assert(r.record() =~= blank_record(Layout::QueryResponse));
        r
    }

    fn merge_field<'a>(&mut self, tag: u32, wire: WireType, bytes: &'a [u8], depth: u32) -> (r:
        Result<&'a [u8], DecodeError>) {
        proof {
            reveal(fields);
        }
        let ghost before = self.record();
        let r = match tag {
            1 => at_field(
                merge_messages(&mut self.results, wire, bytes, depth),
                "QueryResponse",
                "results",
            ),
            2 => at_field(
                merge_bool(&mut self.has_more, wire, bytes),
                "QueryResponse",
                "has_more",
            ),
            3 => at_field(merge_text(&mut self.id, wire, bytes), "QueryResponse", "id"),
            4 => at_field(
                merge_bytes(&mut self.metadata, wire, bytes),
                "QueryResponse",
                "metadata",
            ),
            _ => merge_unknown(wire, tag, bytes, depth),
        };
        assert(1 <= tag <= 4 ==> self.record() =~= before.update(
            tag - 1,
            self.record()[tag - 1],
        ));
        r
    }

    fn field_count() -> (r: usize) {
        proof {
            reveal(fields);
        }
        4
    }

    fn put_field(&self, index: usize, out: &mut Vec<u8>) {
        proof {
            reveal(fields);
        }
        match index {
            0 => put_messages(1, &self.results, out),
            1 => put_number(2, if self.has_more { 1 } else { 0 }, out),
            2 => put_text(3, &self.id, out),
            _ => put_bytes(4, &self.metadata, out),
        }
    }
}

/// How much of a query was answered.
#[derive(Debug, Clone, PartialEq, Eq)]
pub struct QueryResponseMetadata {
    pub fetched_records_count: i32,
    pub bookmark: String,
}

impl Message for QueryResponseMetadata {
    open spec fn layout() -> Layout {
        Layout::QueryResponseMetadata
    }

    open spec fn record(&self) -> Seq<Datum> {
        seq![
            Datum::Int(self.fetched_records_count as int),
            Datum::Text(self.bookmark@),
        ]
    }

    open spec fn well_formed(&self) -> bool {
        true
    }

    proof fn record_has_every_field(&self) {
        reveal(fields);
    }

    proof fn record_is_shaped(&self) {
        reveal(fields);
    }

    fn blank() -> (r: QueryResponseMetadata) {
        proof {
            reveal(fields);
        }
        let r = QueryResponseMetadata { fetched_records_count: 0, bookmark: String::new() };
        assert(r.record() =~= blank_record(Layout::QueryResponseMetadata));
        r
    }

    fn merge_field<'a>(&mut self, tag: u32, wire: WireType, bytes: &'a [u8], depth: u32) -> (r:
        Result<&'a [u8], DecodeError>) {
        proof {
            reveal(fields);
        }
        let ghost before = self.record();
        let r = match tag {
            1 => at_field(
                merge_int32(&mut self.fetched_records_count, wire, bytes),
                "QueryResponseMetadata",
                "fetched_records_count",
            ),
            2 => at_field(
                merge_text(&mut self.bookmark, wire, bytes),
                "QueryResponseMetadata",
                "bookmark",
            ),
            _ => merge_unknown(wire, tag, bytes, depth),
        };
        assert(1 <= tag <= 2 ==> self.record() =~= before.update(
            tag - 1,
            self.record()[tag - 1],
        ));
        r
    }

    fn field_count() -> (r: usize) {
        proof {
            reveal(fields);
        }
        2
    }

    fn put_field(&self, index: usize, out: &mut Vec<u8>) {
        proof {
            reveal(fields);
        }
        match index {
            0 => put_number(1, self.fetched_records_count as i64, out),
            _ => put_text(2, &self.bookmark, out),
        }
    }
}

/// A key with its value.
#[derive(Debug, Clone, PartialEq, Eq)]
pub struct Kv {
    pub namespace: String,
    pub key: String,
    pub value: Vec<u8>,
}

impl Message for Kv {
    open spec fn layout() -> Layout {
        Layout::Kv
    }

    open spec fn record(&self) -> Seq<Datum> {
        seq![
            Datum::Text(self.namespace@),
            Datum::Text(self.key@),
            Datum::Bytes(self.value@),
        ]
    }

    open spec fn well_formed(&self) -> bool {
        true
    }

    proof fn record_has_every_field(&self) {
        reveal(fields);
    }

    proof fn record_is_shaped(&self) {
        reveal(fields);
    }

    fn blank() -> (r: Kv) {
        proof {
            reveal(fields);
        }
        let r = Kv { namespace: String::new(), key: String::new(), value: Vec::new() };
        assert(r.record() =~= blank_record(Layout::Kv));
        r
    }

    fn merge_field<'a>(&mut self, tag: u32, wire: WireType, bytes: &'a [u8], depth: u32) -> (r:
        Result<&'a [u8], DecodeError>) {
        proof {
            reveal(fields);
        }
        let ghost before = self.record();
        let r = match tag {
            1 => at_field(merge_text(&mut self.namespace, wire, bytes), "Kv", "namespace"),
            2 => at_field(merge_text(&mut self.key, wire, bytes), "Kv", "key"),
            3 => at_field(merge_bytes(&mut self.value, wire, bytes), "Kv", "value"),
            _ => merge_unknown(wire, tag, bytes, depth),
        };
        assert(1 <= tag <= 3 ==> self.record() =~= before.update(
            tag - 1,
            self.record()[tag - 1],
        ));
        r
    }

    fn field_count() -> (r: usize) {
        proof {
            reveal(fields);
        }
        3
    }

    fn put_field(&self, index: usize, out: &mut Vec<u8>) {
        proof {
            reveal(fields);
        }
        match index {
            0 => put_text(1, &self.namespace, out),
            1 => put_text(2, &self.key, out),
            _ => put_bytes(3, &self.value, out),
        }
    }
}

/// A change of a key's value.
#[derive(Debug, Clone, PartialEq, Eq)]
pub struct KeyModification {
    pub tx_id: String,
    pub value: Vec<u8>,
    pub timestamp: Option<Timestamp>,
    pub is_delete: bool,
}

impl Message for KeyModification {
    open spec fn layout() -> Layout {
        Layout::KeyModification
    }

    open spec fn record(&self) -> Seq<Datum> {
        seq![
            Datum::Text(self.tx_id@),
            Datum::Bytes(self.value@),
            optional_record(self.timestamp),
            Datum::Int(bool_number(self.is_delete)),
        ]
    }

    open spec fn well_formed(&self) -> bool {
        true
    }

    proof fn record_has_every_field(&self) {
        reveal(fields);
    }

    proof fn record_is_shaped(&self) {
        reveal(fields);
        if let Some(inner) = self.timestamp {
            inner.record_is_shaped();
        }
    }

    fn blank() -> (r: KeyModification) {
        proof {
            reveal(fields);
        }
        let r = KeyModification {
            tx_id: String::new(),
            value: Vec::new(),
            timestamp: None,
            is_delete: false,
        };
        assert(r.record() =~= blank_record(Layout::KeyModification));
        r
    }

    fn merge_field<'a>(&mut self, tag: u32, wire: WireType, bytes: &'a [u8], depth: u32) -> (r:
        Result<&'a [u8], DecodeError>) {
        proof {
            reveal(fields);
        }
        let ghost before = self.record();
        let r = match tag {
            1 => at_field(merge_text(&mut self.tx_id, wire, bytes), "KeyModification", "tx_id"),
            2 => at_field(merge_bytes(&mut self.value, wire, bytes), "KeyModification", "value"),
            3 => at_field(
                merge_message(&mut self.timestamp, wire, bytes, depth),
                "KeyModification",
                "timestamp",
            ),
            4 => at_field(
                merge_bool(&mut self.is_delete, wire, bytes),
                "KeyModification",
                "is_delete",
            ),
            _ => merge_unknown(wire, tag, bytes, depth),
        };
        assert(1 <= tag <= 4 ==> self.record() =~= before.update(
            tag - 1,
            self.record()[tag - 1],
        ));
        r
    }

    fn field_count() -> (r: usize) {
        proof {
            reveal(fields);
        }
        4
    }

    fn put_field(&self, index: usize, out: &mut Vec<u8>) {
        proof {
            reveal(fields);
        }
        match index {
            0 => put_text(1, &self.tx_id, out),
            1 => put_bytes(2, &self.value, out),
            2 => put_message(3, &self.timestamp, out),
            _ => put_number(4, if self.is_delete { 1 } else { 0 }, out),
        }
    }
}

} // verus!

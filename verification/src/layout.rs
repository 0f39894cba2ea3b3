//! The layouts of the messages that chaincode and peer exchange: which fields a
//! message has, under which tags, and how each is written.

use vstd::prelude::*;

verus! {

/// A message of the protocol.
#[derive(Debug, Clone, Copy, PartialEq, Eq, Structural)]
pub enum Layout {
    Entry,
    Timestamp,
    ChaincodeMessage,
    SignedProposal,
    Proposal,
    ChaincodeProposalPayload,
    Header,
    ChannelHeader,
    SignatureHeader,
    SerializedIdentity,
    ChaincodeId,
    ChaincodeInput,
    ChaincodeSpec,
    ChaincodeEvent,
    Response,
    GetState,
    PutState,
    DelState,
    PurgePrivateState,
    GetStateByRange,
    GetQueryResult,
    QueryMetadata,
    GetHistoryForKey,
    QueryStateNext,
    QueryStateClose,
    QueryResultBytes,
    QueryResponse,
    QueryResponseMetadata,
    Kv,
    KeyModification,
}

/// How the values of a field are written.
#[derive(Debug, Clone, Copy, PartialEq, Eq, Structural)]
pub enum FieldKind {
    /// A signed number of 32 bits, or the number of an enumeration's variant.
    Int32,
    /// A signed number of 64 bits.
    Int64,
    /// An unsigned number of 64 bits.
    Uint64,
    /// A truth value.
    Bool,
    /// Text in UTF-8.
    Text,
    /// A run of bytes.
    Bytes,
    /// Any number of runs of bytes.
    ManyBytes,
    /// A map from text to bytes.
    Entries,
    /// A message that may be absent.
    Message(Layout),
    /// Any number of messages.
    Messages(Layout),
}

/// A field of a message.
pub struct Field {
    pub tag: u32,
    pub name: &'static str,
    pub kind: FieldKind,
}

pub open spec fn field(tag: u32, name: &'static str, kind: FieldKind) -> Field {
    Field { tag, name, kind }
}

/// The name of a message, in reports of faults. The entries of a map have none.
pub open spec fn title(layout: Layout) -> Option<Seq<char>> {
    match layout {
        Layout::Entry => None,
        Layout::Timestamp => Some("Timestamp"@),
        Layout::ChaincodeMessage => Some("ChaincodeMessage"@),
        Layout::SignedProposal => Some("SignedProposal"@),
        Layout::Proposal => Some("Proposal"@),
        Layout::ChaincodeProposalPayload => Some("ChaincodeProposalPayload"@),
        Layout::Header => Some("Header"@),
        Layout::ChannelHeader => Some("ChannelHeader"@),
        Layout::SignatureHeader => Some("SignatureHeader"@),
        Layout::SerializedIdentity => Some("SerializedIdentity"@),
        Layout::ChaincodeId => Some("ChaincodeId"@),
        Layout::ChaincodeInput => Some("ChaincodeInput"@),
        Layout::ChaincodeSpec => Some("ChaincodeSpec"@),
        Layout::ChaincodeEvent => Some("ChaincodeEvent"@),
        Layout::Response => Some("Response"@),
        Layout::GetState => Some("GetState"@),
        Layout::PutState => Some("PutState"@),
        Layout::DelState => Some("DelState"@),
        Layout::PurgePrivateState => Some("PurgePrivateState"@),
        Layout::GetStateByRange => Some("GetStateByRange"@),
        Layout::GetQueryResult => Some("GetQueryResult"@),
        Layout::QueryMetadata => Some("QueryMetadata"@),
        Layout::GetHistoryForKey => Some("GetHistoryForKey"@),
        Layout::QueryStateNext => Some("QueryStateNext"@),
        Layout::QueryStateClose => Some("QueryStateClose"@),
        Layout::QueryResultBytes => Some("QueryResultBytes"@),
        Layout::QueryResponse => Some("QueryResponse"@),
        Layout::QueryResponseMetadata => Some("QueryResponseMetadata"@),
        Layout::Kv => Some("Kv"@),
        Layout::KeyModification => Some("KeyModification"@),
    }
}

/// The fields of a message, in the order of their tags.
#[verifier::opaque]
pub open spec fn fields(layout: Layout) -> Seq<Field> {
    match layout {
        Layout::Entry => seq![
            field(1, "key", FieldKind::Text),
            field(2, "value", FieldKind::Bytes),
        ],
        Layout::Timestamp => seq![
            field(1, "seconds", FieldKind::Int64),
            field(2, "nanos", FieldKind::Int32),
        ],
        Layout::ChaincodeMessage => seq![
            field(1, "r#type", FieldKind::Int32),
            field(2, "timestamp", FieldKind::Message(Layout::Timestamp)),
            field(3, "payload", FieldKind::Bytes),
            field(4, "txid", FieldKind::Text),
            field(5, "proposal", FieldKind::Message(Layout::SignedProposal)),
            field(6, "chaincode_event", FieldKind::Message(Layout::ChaincodeEvent)),
            field(7, "channel_id", FieldKind::Text),
        ],
        Layout::SignedProposal => seq![
            field(1, "proposal_bytes", FieldKind::Bytes),
            field(2, "signature", FieldKind::Bytes),
        ],
        Layout::Proposal => seq![
            field(1, "header", FieldKind::Bytes),
            field(2, "payload", FieldKind::Bytes),
            field(3, "extension", FieldKind::Bytes),
        ],
        Layout::ChaincodeProposalPayload => seq![
            field(1, "input", FieldKind::Bytes),
            field(2, "transient_map", FieldKind::Entries),
        ],
        Layout::Header => seq![
            field(1, "channel_header", FieldKind::Bytes),
            field(2, "signature_header", FieldKind::Bytes),
        ],
        Layout::ChannelHeader => seq![
            field(1, "r#type", FieldKind::Int32),
            field(2, "version", FieldKind::Int32),
            field(3, "timestamp", FieldKind::Message(Layout::Timestamp)),
            field(4, "channel_id", FieldKind::Text),
            field(5, "tx_id", FieldKind::Text),
            field(6, "epoch", FieldKind::Uint64),
            field(7, "extension", FieldKind::Bytes),
            field(8, "tls_cert_hash", FieldKind::Bytes),
        ],
        Layout::SignatureHeader => seq![
            field(1, "creator", FieldKind::Bytes),
            field(2, "nonce", FieldKind::Bytes),
        ],
        Layout::SerializedIdentity => seq![
            field(1, "mspid", FieldKind::Text),
            field(2, "id_bytes", FieldKind::Bytes),
        ],
        Layout::ChaincodeId => seq![
            field(1, "path", FieldKind::Text),
            field(2, "name", FieldKind::Text),
            field(3, "version", FieldKind::Text),
        ],
        Layout::ChaincodeInput => seq![
            field(1, "args", FieldKind::ManyBytes),
            field(2, "decorations", FieldKind::Entries),
            field(3, "is_init", FieldKind::Bool),
        ],
        Layout::ChaincodeSpec => seq![
            field(1, "r#type", FieldKind::Int32),
            field(2, "chaincode_id", FieldKind::Message(Layout::ChaincodeId)),
            field(3, "input", FieldKind::Message(Layout::ChaincodeInput)),
            field(4, "timeout", FieldKind::Int32),
        ],
        Layout::ChaincodeEvent => seq![
            field(1, "chaincode_id", FieldKind::Text),
            field(2, "tx_id", FieldKind::Text),
            field(3, "event_name", FieldKind::Text),
            field(4, "payload", FieldKind::Bytes),
        ],
        Layout::Response => seq![
            field(1, "status", FieldKind::Int32),
            field(2, "message", FieldKind::Text),
            field(3, "payload", FieldKind::Bytes),
        ],
        Layout::GetState => seq![
            field(1, "key", FieldKind::Text),
            field(2, "collection", FieldKind::Text),
        ],
        Layout::PutState => seq![
            field(1, "key", FieldKind::Text),
            field(2, "value", FieldKind::Bytes),
            field(3, "collection", FieldKind::Text),
        ],
        Layout::DelState => seq![
            field(1, "key", FieldKind::Text),
            field(2, "collection", FieldKind::Text),
        ],
        Layout::PurgePrivateState => seq![
            field(1, "key", FieldKind::Text),
            field(2, "collection", FieldKind::Text),
        ],
        Layout::GetStateByRange => seq![
            field(1, "start_key", FieldKind::Text),
            field(2, "end_key", FieldKind::Text),
            field(3, "collection", FieldKind::Text),
            field(4, "metadata", FieldKind::Bytes),
        ],
        Layout::GetQueryResult => seq![
            field(1, "query", FieldKind::Text),
            field(2, "collection", FieldKind::Text),
            field(3, "metadata", FieldKind::Bytes),
        ],
        Layout::QueryMetadata => seq![
            field(1, "page_size", FieldKind::Int32),
            field(2, "bookmark", FieldKind::Text),
        ],
        Layout::GetHistoryForKey => seq![field(1, "key", FieldKind::Text)],
        Layout::QueryStateNext => seq![field(1, "id", FieldKind::Text)],
        Layout::QueryStateClose => seq![field(1, "id", FieldKind::Text)],
        Layout::QueryResultBytes => seq![field(1, "result_bytes", FieldKind::Bytes)],
        Layout::QueryResponse => seq![
            field(1, "results", FieldKind::Messages(Layout::QueryResultBytes)),
            field(2, "has_more", FieldKind::Bool),
            field(3, "id", FieldKind::Text),
            field(4, "metadata", FieldKind::Bytes),
        ],
        Layout::QueryResponseMetadata => seq![
            field(1, "fetched_records_count", FieldKind::Int32),
            field(2, "bookmark", FieldKind::Text),
        ],
        Layout::Kv => seq![
            field(1, "namespace", FieldKind::Text),
            field(2, "key", FieldKind::Text),
            field(3, "value", FieldKind::Bytes),
        ],
        Layout::KeyModification => seq![
            field(1, "tx_id", FieldKind::Text),
            field(2, "value", FieldKind::Bytes),
            field(3, "timestamp", FieldKind::Message(Layout::Timestamp)),
            field(4, "is_delete", FieldKind::Bool),
        ],
    }
}

/// The place of the field with the given tag.
pub open spec fn slot(layout: Layout, tag: u32) -> Option<int> {
    if 1 <= tag <= fields(layout).len() {
        Some(tag - 1)
    } else {
        None
    }
}

/// The fields of every message are numbered from one, without gaps.
pub proof fn tags_count_up(layout: Layout, i: int)
    requires
        0 <= i < fields(layout).len(),
    ensures
        fields(layout)[i].tag == i + 1,
        slot(layout, fields(layout)[i].tag) == Some(i),
        fields(layout).len() <= 8,
{
    reveal(fields);
}

} // verus!

//! Hyperledger Fabric chaincode shim — chaincode as a service, for Fabric 3.x
//! peers.
//!
//! The chaincode runs as a server; the peer dials in and drives the protocol over
//! a stream of `ChaincodeMessage`s in both directions. This library is the
//! protocol without the sockets: it decodes and encodes the messages, runs the
//! handshake, routes replies to the transactions that wait for them, says what the
//! ledger requests of a transaction are and what the replies mean, and dispatches
//! calls to the transactions of a contract. Whoever owns the stream hands it the
//! messages that come in and sends those that it gives back.

pub mod bench;
pub mod byte_order;
pub mod bytes_map;
pub mod case;
pub mod codec;
pub mod codec_laws;
pub mod composite_key;
pub mod composite_key_laws;
pub mod contract;
pub mod contract_laws;
pub mod data_laws;
pub mod data_table;
pub mod data_type;
pub mod declaration;
pub mod declaration_laws;
pub mod dispatch;
pub mod error;
pub mod error_laws;
pub mod fields;
pub mod handler;
pub mod handler_laws;
pub mod iterator_laws;
pub mod iterators;
pub mod json;
pub mod layout;
pub mod ledger;
pub mod ledger_laws;
pub mod message_laws;
pub mod message_type;
pub mod metadata;
pub mod numbers;
pub mod pending;
pub mod plan;
pub mod proto;
pub mod request_laws;
pub mod response;
pub mod server;
pub mod server_laws;
pub mod stub;
pub mod stub_laws;
pub mod text;
pub mod text_map;
pub mod varint;
pub mod wire;
pub mod wire_form;
pub mod wire_laws;

pub use crate::composite_key::{create_composite_key, split_composite_key};
pub use crate::error::{DecodeError, Error, Result};
pub use crate::iterators::{HistoryQueryIterator, LedgerRequest, StateQueryIterator, Step};
pub use crate::message_type::MsgType;
pub use crate::response::{Response, ERROR, ERROR_THRESHOLD, OK};
pub use crate::server::{Server, DEFAULT_MAX_MESSAGE_SIZE};
pub use crate::stub::ChaincodeStub;

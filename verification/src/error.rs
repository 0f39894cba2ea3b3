//! The failures that the library reports.

use vstd::prelude::*;

use crate::text;
use crate::wire::{DecodeErrorKind, WireType};

verus! {

/// The place of a decoding failure: a field of a message.
#[derive(Debug, Clone)]
pub struct Place {
    pub message: &'static str,
    pub field: &'static str,
}

/// A protobuf payload that could not be decoded, with the fields that enclose
/// the fault, the innermost first.
#[derive(Debug, Clone)]
pub struct DecodeError {
    pub kind: DecodeErrorKind,
    pub path: Vec<Place>,
}

/// What a [`DecodeError`] says.
#[verifier::ext_equal]
pub struct DecodeErrorView {
    pub kind: DecodeErrorKind,
    pub path: Seq<(Seq<char>, Seq<char>)>,
}

impl View for DecodeError {
    type V = DecodeErrorView;

    open spec fn view(&self) -> DecodeErrorView {
        DecodeErrorView {
            kind: self.kind,
            path: Seq::new(
                self.path@.len(),
                |i: int| (self.path@[i].message@, self.path@[i].field@),
            ),
        }
    }
}

impl DecodeErrorView {
    /// A failure at no particular field.
    pub open spec fn plain(kind: DecodeErrorKind) -> DecodeErrorView {
        DecodeErrorView { kind, path: seq![] }
    }

    /// The same failure inside a field of an enclosing message.
    pub open spec fn within(self, message: Seq<char>, field: Seq<char>) -> DecodeErrorView {
        DecodeErrorView { kind: self.kind, path: self.path.push((message, field)) }
    }

    /// The failure in words.
    pub open spec fn text(self) -> Seq<char> {
        "failed to decode Protobuf message: "@ + path_text(self.path) + kind_text(self.kind)
    }
}

/// `message.field: ` for each place of the path.
pub open spec fn path_text(path: Seq<(Seq<char>, Seq<char>)>) -> Seq<char>
    decreases path.len(),
{
    if path.len() == 0 {
        seq![]
    } else {
        let (message, field) = path.last();
        path_text(path.drop_last()) + (message + "."@ + field + ": "@)
    }
}

/// The name of a wire type.
pub open spec fn wire_type_name(wire: WireType) -> Seq<char> {
    match wire {
        WireType::Varint => "Varint"@,
        WireType::SixtyFourBit => "SixtyFourBit"@,
        WireType::LengthDelimited => "LengthDelimited"@,
        WireType::StartGroup => "StartGroup"@,
        WireType::EndGroup => "EndGroup"@,
        WireType::ThirtyTwoBit => "ThirtyTwoBit"@,
    }
}

/// The reason of a decoding failure in words.
pub open spec fn kind_text(kind: DecodeErrorKind) -> Seq<char> {
    match kind {
        DecodeErrorKind::InvalidVarint => "invalid varint"@,
        DecodeErrorKind::RecursionLimitReached => "recursion limit reached"@,
        DecodeErrorKind::InvalidWireType { value } => "invalid wire type value: "@
            + text::decimal(value as nat),
        DecodeErrorKind::InvalidKey { key } => "invalid key value: "@ + text::decimal(key as nat),
        DecodeErrorKind::InvalidTag => "invalid tag value: 0"@,
        DecodeErrorKind::UnexpectedWireType { actual, expected } => "invalid wire type: "@
            + wire_type_name(actual) + " (expected "@ + wire_type_name(expected) + ")"@,
        DecodeErrorKind::BufferUnderflow => "buffer underflow"@,
        DecodeErrorKind::DelimitedLengthExceeded => "delimited length exceeded"@,
        DecodeErrorKind::UnexpectedEndGroupTag => "unexpected end group tag"@,
        DecodeErrorKind::InvalidString => "invalid string value: data is not UTF-8 encoded"@,
    }
}

fn wire_name(wire: WireType) -> (r: &'static str)
    ensures
        r@ == wire_type_name(wire),
{
    match wire {
        WireType::Varint => "Varint",
        WireType::SixtyFourBit => "SixtyFourBit",
        WireType::LengthDelimited => "LengthDelimited",
        WireType::StartGroup => "StartGroup",
        WireType::EndGroup => "EndGroup",
        WireType::ThirtyTwoBit => "ThirtyTwoBit",
    }
}

fn describe(kind: DecodeErrorKind) -> (r: String)
    ensures
        r@ == kind_text(kind),
{
    match kind {
        DecodeErrorKind::InvalidVarint => "invalid varint".to_owned(),
        DecodeErrorKind::RecursionLimitReached => "recursion limit reached".to_owned(),
        DecodeErrorKind::InvalidWireType { value } => {
            text::pair("invalid wire type value: ", text::decimal_text(value).as_str())
        },
        DecodeErrorKind::InvalidKey { key } => {
            text::pair("invalid key value: ", text::decimal_text(key).as_str())
        },
        DecodeErrorKind::InvalidTag => "invalid tag value: 0".to_owned(),
        DecodeErrorKind::UnexpectedWireType { actual, expected } => {
            let mut out = text::triple("invalid wire type: ", wire_name(actual), " (expected ");
            out.append(wire_name(expected));
            out.append(")");
            out
        },
        DecodeErrorKind::BufferUnderflow => "buffer underflow".to_owned(),
        DecodeErrorKind::DelimitedLengthExceeded => "delimited length exceeded".to_owned(),
        DecodeErrorKind::UnexpectedEndGroupTag => "unexpected end group tag".to_owned(),
        DecodeErrorKind::InvalidString => {
            "invalid string value: data is not UTF-8 encoded".to_owned()
        },
    }
}

impl DecodeError {
    /// A failure at no particular field.
    pub(crate) fn plain(kind: DecodeErrorKind) -> (r: DecodeError)
        ensures
            r@ == DecodeErrorView::plain(kind),
    {
        DecodeError { kind, path: Vec::new() }
    }

    /// Notes the field of the enclosing message.
    pub(crate) fn push(&mut self, message: &'static str, field: &'static str)
        ensures
            final(self)@ == old(self)@.within(message@, field@),
    {
        self.path.push(Place { message, field });
        assert(self@ =~= old(self)@.within(message@, field@));
    }

    /// The failure in words.
    pub fn message(&self) -> (r: String)
        ensures
            r@ == self@.text(),
    {
        let mut out = "failed to decode Protobuf message: ".to_owned();
        let ghost start = out@;
        let mut i: usize = 0;
        while i < self.path.len()
            invariant
                0 <= i <= self.path@.len(),
                out@ == start + path_text(self@.path.take(i as int)),
            decreases self.path@.len() - i,
        {
            let place = &self.path[i];
            let mut step = text::triple(place.message, ".", place.field);
            step.append(": ");
            out.append(step.as_str());
            i = i + 1;
            assert(self@.path.take(i as int).drop_last() =~= self@.path.take(i - 1));
            assert(out@ =~= start + path_text(self@.path.take(i as int)));
        }
        assert(self@.path.take(i as int) =~= self@.path);
        out.append(describe(self.kind).as_str());
        out
    }
}

/// Errors surfaced by the library to chaincode and to callers of the server.
#[derive(Debug, Clone)]
pub enum Error {
    /// The peer answered a ledger request with an ERROR message.
    Peer(String),
    /// The protocol was violated (unexpected message type or state).
    Protocol(String),
    /// A protobuf payload could not be decoded.
    Decode(DecodeError),
    /// The peer stream ended while a request was in flight.
    ConnectionClosed,
    /// Invalid server configuration.
    Config(String),
    /// Invalid argument passed to a stub method.
    InvalidArgument(String),
    /// Transport-level failure while serving.
    Transport(String),
}

/// What an [`Error`] says.
pub enum ErrorView {
    Peer(Seq<char>),
    Protocol(Seq<char>),
    Decode(DecodeErrorView),
    ConnectionClosed,
    Config(Seq<char>),
    InvalidArgument(Seq<char>),
    Transport(Seq<char>),
}

impl View for Error {
    type V = ErrorView;

    open spec fn view(&self) -> ErrorView {
        match *self {
            Error::Peer(detail) => ErrorView::Peer(detail@),
            Error::Protocol(detail) => ErrorView::Protocol(detail@),
            Error::Decode(error) => ErrorView::Decode(error@),
            Error::ConnectionClosed => ErrorView::ConnectionClosed,
            Error::Config(detail) => ErrorView::Config(detail@),
            Error::InvalidArgument(detail) => ErrorView::InvalidArgument(detail@),
            Error::Transport(detail) => ErrorView::Transport(detail@),
        }
    }
}

impl ErrorView {
    /// The error in words.
    pub open spec fn text(self) -> Seq<char> {
        match self {
            ErrorView::Peer(detail) => "peer error: "@ + detail,
            ErrorView::Protocol(detail) => "protocol error: "@ + detail,
            ErrorView::Decode(error) => "decode error: "@ + error.text(),
            ErrorView::ConnectionClosed => "connection to peer closed"@,
            ErrorView::Config(detail) => "configuration error: "@ + detail,
            ErrorView::InvalidArgument(detail) => "invalid argument: "@ + detail,
            ErrorView::Transport(detail) => "transport error: "@ + detail,
        }
    }
}

impl Error {
    /// The error in words.
    pub fn message(&self) -> (r: String)
        ensures
            r@ == self@.text(),
    {
        match self {
            Error::Peer(detail) => text::pair("peer error: ", detail.as_str()),
            Error::Protocol(detail) => text::pair("protocol error: ", detail.as_str()),
            Error::Decode(error) => text::pair("decode error: ", error.message().as_str()),
            Error::ConnectionClosed => "connection to peer closed".to_owned(),
            Error::Config(detail) => text::pair("configuration error: ", detail.as_str()),
            Error::InvalidArgument(detail) => text::pair("invalid argument: ", detail.as_str()),
            Error::Transport(detail) => text::pair("transport error: ", detail.as_str()),
        }
    }
}

/// The result of a fallible operation of the library.
pub type Result<T> = std::result::Result<T, Error>;

} // verus!

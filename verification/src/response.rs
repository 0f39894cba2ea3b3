//! The outcome of a transaction.

use vstd::prelude::*;

use crate::proto;

verus! {

/// Status code for a successful transaction.
pub const OK: i32 = 200;

/// Status codes from here on are treated as errors by the peer.
pub const ERROR_THRESHOLD: i32 = 400;

/// Status code for a failed transaction.
pub const ERROR: i32 = 500;

/// The result of a chaincode transaction, sent to the peer with the COMPLETED
/// message.
#[derive(Debug, Clone, PartialEq, Eq)]
pub struct Response {
    pub status: i32,
    pub message: String,
    pub payload: Vec<u8>,
}

/// What a [`Response`] says.
#[verifier::ext_equal]
pub struct ResponseView {
    pub status: i32,
    pub message: Seq<char>,
    pub payload: Seq<u8>,
}

impl View for Response {
    type V = ResponseView;

    open spec fn view(&self) -> ResponseView {
        ResponseView { status: self.status, message: self.message@, payload: self.payload@ }
    }
}

impl ResponseView {
    /// A success that carries `payload`.
    pub open spec fn success(payload: Seq<u8>) -> ResponseView {
        ResponseView { status: OK, message: seq![], payload }
    }

    /// A failure that says `message`.
    pub open spec fn error(message: Seq<char>) -> ResponseView {
        ResponseView { status: ERROR, message, payload: seq![] }
    }

    /// Whether the peer treats the response as a failure.
    pub open spec fn is_error(self) -> bool {
        self.status >= ERROR_THRESHOLD
    }
}

impl Default for Response {
    fn default() -> (r: Response)
        ensures
            r@ == (ResponseView { status: 0, message: seq![], payload: seq![] }),
    {
        let r = Response { status: 0, message: String::new(), payload: Vec::new() };
        assert(r@ =~= ResponseView { status: 0, message: seq![], payload: seq![] });
        r
    }
}

impl Response {
    /// A 200 response carrying a payload.
    pub fn success(payload: Vec<u8>) -> (r: Response)
        ensures
            r@ == ResponseView::success(payload@),
    {
        let r = Response { status: OK, message: String::new(), payload };
        assert(r@ =~= ResponseView::success(payload@));
        r
    }

    /// A 200 response with no payload.
    pub fn success_empty() -> (r: Response)
        ensures
            r@ == ResponseView::success(seq![]),
    {
        Response::success(Vec::new())
    }

    /// A 500 response with an error message.
    pub fn error(message: String) -> (r: Response)
        ensures
            r@ == ResponseView::error(message@),
    {
        let r = Response { status: ERROR, message, payload: Vec::new() };
        assert(r@ =~= ResponseView::error(message@));
        r
    }

    /// The response as it goes over the wire.
    pub fn into_proto(self) -> (r: proto::Response)
        ensures
            r.status == self@.status,
            r.message@ == self@.message,
            r.payload@ == self@.payload,
    {
        proto::Response { status: self.status, message: self.message, payload: self.payload }
    }

    /// The response that came over the wire.
    pub fn from_proto(p: proto::Response) -> (r: Response)
        ensures
            r@ == (ResponseView { status: p.status, message: p.message@, payload: p.payload@ }),
    {
        Response { status: p.status, message: p.message, payload: p.payload }
    }

    /// Whether the peer will treat this response as an error.
    pub fn is_error(&self) -> (r: bool)
        ensures
            r == self@.is_error(),
    {
        self.status >= ERROR_THRESHOLD
    }
}

/// The response of a function that may fail: a failure is reported in words.
impl From<std::result::Result<Response, String>> for Response {
    fn from(r: std::result::Result<Response, String>) -> (response: Response)
        ensures
            match r {
                Ok(given) => response == given,
                Err(message) => response@ == ResponseView::error(message@),
            },
    {
        match r {
            Ok(given) => given,
            Err(message) => Response::error(message),
        }
    }
}

impl vstd::std_specs::convert::FromSpecImpl<std::result::Result<Response, String>> for Response {
    open spec fn obeys_from_spec() -> bool {
        false
    }

    open spec fn from_spec(r: std::result::Result<Response, String>) -> Response {
        arbitrary()
    }
}

/// A success is no error and a failure is one, whatever they carry.
pub proof fn success_and_error_are_told_apart(payload: Seq<u8>, message: Seq<char>)
    ensures
        !ResponseView::success(payload).is_error(),
        ResponseView::error(message).is_error(),
{
}

} // verus!

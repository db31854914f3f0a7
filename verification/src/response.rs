//! The responses the proxy writes itself.

use vstd::prelude::*;
use vstd::string::*;
use crate::auth::Challenge;

verus! {

/// A header of a response: a name and its value.
#[derive(Clone, Debug)]
pub struct ResponseHeader {
    pub name: String,
    pub value: String,
}

/// A response with a body of text.
#[derive(Clone, Debug)]
pub struct Response {
    pub status: u16,
    pub headers: Vec<ResponseHeader>,
    pub body: String,
}

/// A response as plain values.
pub struct ResponseView {
    pub status: u16,
    pub headers: Seq<(Seq<char>, Seq<char>)>,
    pub body: Seq<char>,
}

impl View for Response {
    type V = ResponseView;

    open spec fn view(&self) -> ResponseView {
        ResponseView {
            status: self.status,
            headers: Seq::new(
                self.headers.len() as nat,
                |i: int| (self.headers[i].name@, self.headers[i].value@),
            ),
            body: self.body@,
        }
    }
}

/// The answer to a health check.
pub open spec fn health_view() -> ResponseView {
    ResponseView { status: 200, headers: seq![], body: "OK"@ }
}

/// The denial under the token scheme.
pub open spec fn forbidden_view() -> ResponseView {
    ResponseView { status: 403, headers: seq![], body: "Invalid or missing token"@ }
}

/// The denial under the basic scheme, with its challenge.
pub open spec fn unauthorized_view() -> ResponseView {
    ResponseView {
        status: 407,
        headers: seq![("Proxy-Authenticate"@, "Basic realm=\"Secure Proxy\""@)],
        body: "Proxy authentication required"@,
    }
}

/// The answer that opens a tunnel.
pub open spec fn established_view() -> ResponseView {
    ResponseView { status: 200, headers: seq![], body: Seq::empty() }
}

/// The answer to a request that could not be forwarded.
pub open spec fn failure_view(message: Seq<char>) -> ResponseView {
    ResponseView { status: 500, headers: seq![], body: "Proxy error: "@ + message }
}

/// The denial that goes with `challenge`.
pub open spec fn denial_view(challenge: Challenge) -> ResponseView {
    match challenge {
        Challenge::Absent => forbidden_view(),
        Challenge::BasicRealm => unauthorized_view(),
    }
}

/// `200` with the body `OK`.
pub fn health_response() -> (r: Response)
    ensures
        r@ == health_view(),
{
    let r = Response { status: 200, headers: Vec::new(), body: String::from_str("OK") };
    assert(r@.headers =~= seq![]);
    r
}

/// `403` with a plain body and no challenge.
pub fn forbidden_response() -> (r: Response)
    ensures
        r@ == forbidden_view(),
{
    let r = Response {
        status: 403,
        headers: Vec::new(),
        body: String::from_str("Invalid or missing token"),
    };
    assert(r@.headers =~= seq![]);
    r
}

/// `407` with the challenge to authenticate to the realm `Secure Proxy`.
pub fn unauthorized_response() -> (r: Response)
    ensures
        r@ == unauthorized_view(),
{
    let mut headers: Vec<ResponseHeader> = Vec::new();
    headers.push(
        ResponseHeader {
            name: String::from_str("Proxy-Authenticate"),
            value: String::from_str("Basic realm=\"Secure Proxy\""),
        },
    );
    let r = Response {
        status: 407,
        headers,
        body: String::from_str("Proxy authentication required"),
    };
    assert(r@.headers =~= seq![("Proxy-Authenticate"@, "Basic realm=\"Secure Proxy\""@)]);
    r
}

/// `200` with an empty body: the client may start to send raw bytes.
pub fn established_response() -> (r: Response)
    ensures
        r@ == established_view(),
{
    let r = Response { status: 200, headers: Vec::new(), body: String::new() };
    assert(r@.headers =~= seq![]);
    r
}

/// `500` with a body that describes the failure.
pub fn failure_response(message: &str) -> (r: Response)
    ensures
        r@ == failure_view(message@),
{
    let r = Response {
        status: 500,
        headers: Vec::new(),
        body: String::from_str("Proxy error: ").concat(message),
    };
    assert(r@.headers =~= seq![]);
    r
}

/// The denial that goes with `challenge`.
pub fn denial_response(challenge: Challenge) -> (r: Response)
    ensures
        r@ == denial_view(challenge),
{
    match challenge {
        Challenge::Absent => forbidden_response(),
        Challenge::BasicRealm => unauthorized_response(),
    }
}

} // verus!

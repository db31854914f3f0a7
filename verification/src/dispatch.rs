//! What to do with a request.
//!
//! A health check is answered at once. Any other request has to be
//! admitted; a denied request is answered with the denial and goes no
//! further. An admitted `CONNECT` opens a tunnel, any other admitted request
//! is forwarded.

use vstd::prelude::*;
use vstd::string::*;
use vstd::utf8::*;
use crate::auth::{admitted, authenticate, denial_goes_with_the_scheme, Decision, DenyReason};
use crate::config::{Config, ConfigView};
use crate::credentials::{credential_header, AuthScheme};
use crate::request::{header_value, Request, RequestView};
use crate::response::{
    denial_response, denial_view, established_response, established_view, health_response,
    health_view, Response, ResponseView,
};
use crate::target::{resolve, resolved, uri_authority, Resolution, ResolutionView};
use crate::text::str_eq;

verus! {

/// What the proxy does with a request.
#[derive(Debug)]
pub enum Action {
    /// Answer a health check.
    Respond(Response),
    /// Answer with the denial, for the reason given, and open no connection.
    Deny(DenyReason, Response),
    /// Answer with `reply`, then tunnel to `target`.
    Tunnel { reply: Response, target: Resolution },
    /// Hand the request on to its destination.
    Forward,
}

/// An action as plain values.
pub enum ActionView {
    Respond(ResponseView),
    Deny(DenyReason, ResponseView),
    Tunnel { reply: ResponseView, target: ResolutionView },
    Forward,
}

impl View for Action {
    type V = ActionView;

    open spec fn view(&self) -> ActionView {
        match self {
            Action::Respond(response) => ActionView::Respond(response@),
            Action::Deny(reason, response) => ActionView::Deny(*reason, response@),
            Action::Tunnel { reply, target } => ActionView::Tunnel {
                reply: reply@,
                target: target@,
            },
            Action::Forward => ActionView::Forward,
        }
    }
}

/// The request is a health check: `GET /health`.
pub open spec fn is_health_check(request: RequestView) -> bool {
    request.method == "GET"@ && request.path == "/health"@
}

/// The verdict on the credential that `request` carries.
pub open spec fn admission(config: ConfigView, request: RequestView) -> Decision {
    admitted(config.scheme, config.credentials, request.headers)
}

/// The tunnel that a `CONNECT` to `uri` opens.
pub open spec fn tunnel_to(uri: Seq<char>) -> ActionView {
    ActionView::Tunnel { reply: established_view(), target: resolved(uri, uri_authority(uri)) }
}

/// What the proxy does with `request`.
pub open spec fn planned(config: ConfigView, request: RequestView) -> ActionView {
    if is_health_check(request) {
        ActionView::Respond(health_view())
    } else {
        match admission(config, request) {
            Decision::Deny(reason, challenge) => ActionView::Deny(reason, denial_view(challenge)),
            Decision::Allow => if request.method == "CONNECT"@ {
                tunnel_to(request.uri)
            } else {
                ActionView::Forward
            },
        }
    }
}

/// Opens a tunnel to the target that `uri` names: the reply that tells the
/// client to go ahead, and the address to dial once it is sent.
pub fn handle_connect(uri: &str) -> (action: Action)
    ensures
        action@ == tunnel_to(uri@),
{
    Action::Tunnel { reply: established_response(), target: resolve(uri) }
}

/// Decides what to do with `request`.
pub fn handle_request(config: &Config, request: &Request) -> (action: Action)
    ensures
        action@ == planned(config@, request@),
{
    if str_eq(request.method.as_str(), "GET") && str_eq(request.path.as_str(), "/health") {
        return Action::Respond(health_response());
    }
    match authenticate(config.credentials(), request.headers.as_slice()) {
        Decision::Deny(reason, challenge) => Action::Deny(reason, denial_response(challenge)),
        Decision::Allow => {
            if str_eq(request.method.as_str(), "CONNECT") {
                handle_connect(request.uri.as_str())
            } else {
                Action::Forward
            }
        },
    }
}

/// A health check is answered `200` with the body `OK`, whatever the
/// request carries for credentials and whomever the proxy admits.
pub proof fn health_check_is_always_answered(config: ConfigView, request: RequestView)
    requires
        is_health_check(request),
    ensures
        planned(config, request) == ActionView::Respond(health_view()),
        health_view().status == 200,
        health_view().body == "OK"@,
{
}

/// A request that is no health check and is not admitted is answered, and
/// nothing else: no tunnel is opened and nothing is forwarded. The answer
/// is `403` under the token scheme and `407` under the basic scheme.
pub proof fn denied_requests_go_no_further(config: ConfigView, request: RequestView)
    requires
        !is_health_check(request),
        admission(config, request) != Decision::Allow,
    ensures
        planned(config, request) matches ActionView::Deny(_, response) && response.status
            == (match config.scheme {
            AuthScheme::Token => 403u16,
            AuthScheme::Basic => 407u16,
        }),
{
    denial_goes_with_the_scheme(
        config.scheme,
        config.credentials,
        header_value(request.headers, encode_utf8(credential_header(config.scheme))),
    );
}

/// A tunnel is opened or a request forwarded only for a request that is
/// admitted.
pub proof fn connections_need_admission(config: ConfigView, request: RequestView)
    requires
        planned(config, request) is Tunnel || planned(config, request) is Forward,
    ensures
        admission(config, request) == Decision::Allow,
        !is_health_check(request),
{
}

} // verus!

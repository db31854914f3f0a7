//! An authenticating forward proxy, reduced to the decisions it takes.
//!
//! Every request is admitted or denied from its headers and the configured
//! credentials, a `CONNECT` target is resolved to the address to dial, and a
//! tunnel moves through its states as its connections open, relay and close.
//! The functions here take and return plain values; sockets and the HTTP
//! stack stay with the caller.

pub mod ascii;
pub mod auth;
pub mod config;
pub mod credentials;
pub mod dispatch;
pub mod forward;
pub mod request;
pub mod response;
pub mod target;
pub mod text;
pub mod tunnel;

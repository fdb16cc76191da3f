//! Core of a dual-mode forwarding proxy: a stateless, time-windowed
//! authenticator shared by both ingress paths, an incremental TLS ClientHello
//! sniffer that extracts the SNI host name from raw bytes, the per-connection
//! decision logic of the TLS passthrough relay, and the request-rewriting
//! logic of the cleartext HTTP forward proxy. All I/O stays outside; every
//! function here works on plain byte values.

use vstd::prelude::*;

pub mod auth;
pub mod http;
pub mod session;
pub mod sniff;

verus! {

/// Everything that can go wrong while handling one connection or request.
/// A failure never outlives the connection it arose on.
#[derive(Clone, Copy, PartialEq, Eq, Structural, Debug)]
pub enum ProxyError {
    /// The peer closed before the expected bytes arrived.
    ShortRead,
    /// The fixed-length auth token was not valid UTF-8.
    InvalidToken,
    /// The buffered bytes can no longer be a well-formed TLS record.
    MalformedHandshake,
    /// The peer closed while the record was still a valid prefix.
    HandshakeIncomplete,
    /// The record parsed, but its first message is not a ClientHello
    /// carrying an extensions block.
    NotAClientHello,
    /// No host-name entry was found in any server-name extension.
    NoSni,
    /// The extracted server name is not valid UTF-8.
    InvalidServerName,
    /// The presented token matches none of the three accepted time buckets.
    AuthRejected,
    /// The outbound connection to the destination could not be opened.
    UpstreamUnreachable,
    /// Missing or unusable destination header, or failed auth, on the HTTP path.
    BadRequest,
    /// The destination URI cannot be used as an outgoing Host header value.
    NonAsciiUri,
}

pub open spec fn err_text(e: ProxyError) -> Seq<char> {
    match e {
        ProxyError::ShortRead => "ShortRead"@,
        ProxyError::InvalidToken => "InvalidToken"@,
        ProxyError::MalformedHandshake => "MalformedHandshake"@,
        ProxyError::HandshakeIncomplete => "HandshakeIncomplete"@,
        ProxyError::NotAClientHello => "NotAClientHello"@,
        ProxyError::NoSni => "NoSni"@,
        ProxyError::InvalidServerName => "InvalidServerName"@,
        ProxyError::AuthRejected => "AuthRejected"@,
        ProxyError::UpstreamUnreachable => "UpstreamUnreachable"@,
        ProxyError::BadRequest => "BadRequest"@,
        ProxyError::NonAsciiUri => "NonAsciiUri"@,
    }
}

/// Renders an error kind for a per-connection log line.
pub fn dbg_err(e: ProxyError) -> (r: &'static str)
    ensures
        r@ == err_text(e),
{
    match e {
        ProxyError::ShortRead => "ShortRead",
        ProxyError::InvalidToken => "InvalidToken",
        ProxyError::MalformedHandshake => "MalformedHandshake",
        ProxyError::HandshakeIncomplete => "HandshakeIncomplete",
        ProxyError::NotAClientHello => "NotAClientHello",
        ProxyError::NoSni => "NoSni",
        ProxyError::InvalidServerName => "InvalidServerName",
        ProxyError::AuthRejected => "AuthRejected",
        ProxyError::UpstreamUnreachable => "UpstreamUnreachable",
        ProxyError::BadRequest => "BadRequest",
        ProxyError::NonAsciiUri => "NonAsciiUri",
    }
}

} // verus!

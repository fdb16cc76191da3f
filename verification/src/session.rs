//! Per-connection decision logic of the TLS passthrough relay. The caller
//! owns the sockets and performs every read, connect, and write; a
//! [`TlsSession`] decides, from bytes alone, what to do next: first the
//! fixed-length token, then sniffing until the ClientHello is complete, then
//! authentication of the SNI-derived destination. On success the caller
//! dials the destination, replays the buffered head verbatim, and relays
//! bytes both ways; on failure it drops the connection silently.

use vstd::prelude::*;

use crate::ProxyError;
use crate::auth::HASH_LENGTH;
use crate::auth::spec_verify;
use crate::auth::verify_auth;
use crate::sniff::Sniffer;
use crate::sniff::SpecSniff;
use crate::sniff::TryParse;
use crate::sniff::spec_sniff;

verus! {

/// Whether a byte string is valid UTF-8. Named from the standard library;
/// not modelled further.
pub uninterp spec fn utf8_ok(b: Seq<u8>) -> bool;

/// Relies on `core::str::from_utf8`: it returns `Ok` exactly on valid
/// UTF-8, a function of the bytes alone.
#[verifier::external_body]
fn check_utf8(b: &Vec<u8>) -> (r: bool)
    ensures
        r == utf8_ok(b@),
{
    core::str::from_utf8(b.as_slice()).is_ok()
}

/// The destination identifier derived from a server name: `<name>:443`.
pub open spec fn tls_dest(name: Seq<u8>) -> Seq<u8> {
    name + seq![58u8, 52u8, 52u8, 51u8]
}

/// Where a session stands.
#[derive(Clone, Copy, PartialEq, Eq, Structural, Debug)]
pub enum Phase {
    /// Waiting for the fixed-length auth token.
    AwaitToken,
    /// Accumulating TLS bytes until a record completes.
    Sniffing,
    /// Authenticated: the destination may be dialed.
    Ready,
    /// Dropped; no further step is taken.
    Failed,
}

/// What the caller must do after a step.
pub enum SessionStep {
    /// Read more bytes from the client.
    Continue,
    /// Dial the session's destination, replay the head, then relay.
    Dial,
    /// Drop the connection without sending anything back.
    Fail(ProxyError),
}

pub struct TlsSession {
    phase: Phase,
    token: Vec<u8>,
    sniffer: Sniffer,
    dest: Vec<u8>,
}

impl TlsSession {
    pub closed spec fn spec_phase(&self) -> Phase {
        self.phase
    }

    /// The token read at the start of the connection.
    pub closed spec fn spec_token(&self) -> Seq<u8> {
        self.token@
    }

    /// Every byte read after the token, kept verbatim for replay.
    pub closed spec fn spec_buffered(&self) -> Seq<u8> {
        self.sniffer@
    }

    /// The authorized destination, once the session is ready.
    pub closed spec fn spec_dest(&self) -> Seq<u8> {
        self.dest@
    }

    pub fn new() -> (s: TlsSession)
        ensures
            s.spec_phase() == Phase::AwaitToken,
            s.spec_buffered() == Seq::<u8>::empty(),
    {
        TlsSession { phase: Phase::AwaitToken, token: Vec::new(), sniffer: Sniffer::new(), dest: Vec::new() }
    }

    /// Step one: exactly [`HASH_LENGTH`] bytes of token, which must be
    /// UTF-8. A short read or a non-UTF-8 token fails the connection.
    pub fn on_token(&mut self, tok: Vec<u8>) -> (r: Result<(), ProxyError>)
        requires
            old(self).spec_phase() == Phase::AwaitToken,
        ensures
            final(self).spec_buffered() == old(self).spec_buffered(),
            r == (if tok@.len() != HASH_LENGTH {
                Result::<(), ProxyError>::Err(ProxyError::ShortRead)
            } else if !utf8_ok(tok@) {
                Result::<(), ProxyError>::Err(ProxyError::InvalidToken)
            } else {
                Result::<(), ProxyError>::Ok(())
            }),
            final(self).spec_phase() == (if r is Ok {
                Phase::Sniffing
            } else {
                Phase::Failed
            }),
            r is Ok ==> final(self).spec_token() == tok@,
    {
        if tok.len() != HASH_LENGTH {
            self.phase = Phase::Failed;
            return Result::Err(ProxyError::ShortRead);
        }
        if !check_utf8(&tok) {
            self.phase = Phase::Failed;
            return Result::Err(ProxyError::InvalidToken);
        }
        self.token = tok;
        self.phase = Phase::Sniffing;
        Result::Ok(())
    }

    /// One read's worth of TLS bytes; an empty chunk means the peer closed.
    /// The outcome is decided by the accumulated bytes: keep reading while
    /// the record is a valid prefix, reject a stream that can never be an
    /// acceptable ClientHello, and on a complete ClientHello check the name,
    /// bind it to port 443, and verify the token against it at the current
    /// wall-clock hour.
    pub fn on_bytes(&mut self, chunk: &Vec<u8>, secret: &Vec<u8>) -> (r: SessionStep)
        requires
            old(self).spec_phase() == Phase::Sniffing,
        ensures
            final(self).spec_token() == old(self).spec_token(),
            ({
                let b = old(self).spec_buffered() + chunk@;
                match spec_sniff(b) {
                    SpecSniff::Incomplete => final(self).spec_buffered() == b && (if chunk@.len()
                        == 0 {
                        r == SessionStep::Fail(ProxyError::HandshakeIncomplete)
                            && final(self).spec_phase() == Phase::Failed
                    } else {
                        r == SessionStep::Continue && final(self).spec_phase() == Phase::Sniffing
                    }),
                    SpecSniff::Reject(e) => r == SessionStep::Fail(e) && final(self).spec_phase()
                        == Phase::Failed,
                    SpecSniff::Found(name) => if !utf8_ok(name) {
                        r == SessionStep::Fail(ProxyError::InvalidServerName)
                            && final(self).spec_phase() == Phase::Failed
                    } else {
                        final(self).spec_buffered() == b && exists|h: u16|
                            h < 24 && (if spec_verify(
                                old(self).spec_token(),
                                tls_dest(name),
                                secret@,
                                h,
                            ) {
                                r == SessionStep::Dial && final(self).spec_phase() == Phase::Ready
                                    && final(self).spec_dest() == tls_dest(name)
                            } else {
                                r == SessionStep::Fail(ProxyError::AuthRejected)
                                    && final(self).spec_phase() == Phase::Failed
                            })
                    },
                }
            }),
    {
        let step = self.sniffer.feed(chunk);
        match step {
            TryParse::NeedMore => {
                if chunk.len() == 0 {
                    self.phase = Phase::Failed;
                    SessionStep::Fail(ProxyError::HandshakeIncomplete)
                } else {
                    SessionStep::Continue
                }
            },
            TryParse::Reject(e) => {
                self.phase = Phase::Failed;
                SessionStep::Fail(e)
            },
            TryParse::Found(name) => {
                let ghost n0 = name@;
                if !check_utf8(&name) {
                    self.phase = Phase::Failed;
                    return SessionStep::Fail(ProxyError::InvalidServerName);
                }
                let mut dest = name;
                dest.push(58);
                dest.push(52);
                dest.push(52);
                dest.push(51);
                proof {
                    assert(dest@ =~= tls_dest(n0));
                }
                let ok = verify_auth(&self.token, &dest, secret);
                proof {
                    let h = choose|h: u16|
                        h < 24 && ok == spec_verify(self.token@, dest@, secret@, h);
                    assert(h < 24 && ok == spec_verify(self.token@, tls_dest(n0), secret@, h));
                }
                if ok {
                    self.dest = dest;
                    self.phase = Phase::Ready;
                    SessionStep::Dial
                } else {
                    self.phase = Phase::Failed;
                    SessionStep::Fail(ProxyError::AuthRejected)
                }
            },
        }
    }

    /// The exact bytes read since the token, to be replayed verbatim to the
    /// destination before relaying starts.
    pub fn head(&self) -> (r: &Vec<u8>)
        ensures
            r@ == self.spec_buffered(),
    {
        self.sniffer.buffered()
    }

    /// The authorized destination, as `host:443` bytes.
    pub fn dest(&self) -> (r: &Vec<u8>)
        requires
            self.spec_phase() == Phase::Ready,
        ensures
            r@ == self.spec_dest(),
    {
        &self.dest
    }
}

} // verus!

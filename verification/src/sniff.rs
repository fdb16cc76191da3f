//! The incremental TLS ClientHello sniffer. A connection's bytes accumulate
//! in a [`Sniffer`]; after each chunk the whole buffer is re-parsed as a TLS
//! plaintext record. The parse either needs more bytes, rejects the stream
//! for good, or yields the server name from the ClientHello's server-name
//! extension. The grammar is stated by spec functions over the byte sequence
//! and the executable parser is proved against them.
//!
//! Policy notes: only the first handshake message of the first record is
//! examined; where several host-name entries occur, the last one found wins.

use vstd::prelude::*;

use crate::ProxyError;

verus! {

/// Spec-level outcome of parsing a buffer as the start of a TLS stream.
pub enum SpecSniff {
    /// The buffer is a prefix of a well-formed record: more bytes may help.
    Incomplete,
    /// The buffer can never become an acceptable ClientHello.
    Reject(ProxyError),
    /// A complete record parsed and yielded this server name.
    Found(Seq<u8>),
}

/// Executable outcome of one parse attempt.
pub enum TryParse {
    NeedMore,
    Reject(ProxyError),
    Found(Vec<u8>),
}

impl TryParse {
    /// The executable outcome stands for the given spec-level outcome.
    pub open spec fn reflects(self, s: SpecSniff) -> bool {
        match (self, s) {
            (TryParse::NeedMore, SpecSniff::Incomplete) => true,
            (TryParse::Reject(e1), SpecSniff::Reject(e2)) => e1 == e2,
            (TryParse::Found(v), SpecSniff::Found(n)) => v@ == n,
            _ => false,
        }
    }
}

/// A big-endian 16-bit length.
pub open spec fn be16(hi: u8, lo: u8) -> int {
    hi * 256 + lo
}

/// A big-endian 24-bit length.
pub open spec fn be24(b2: u8, b1: u8, b0: u8) -> int {
    b2 * 65536 + b1 * 256 + b0
}

/// The TLS plaintext record types: change_cipher_spec, alert, handshake,
/// application_data. Anything else cannot open a TLS stream.
pub open spec fn valid_record_type(t: u8) -> bool {
    20 <= t <= 23
}

pub open spec fn opt_view(o: Option<Vec<u8>>) -> Option<Seq<u8>> {
    match o {
        Option::Some(v) => Option::Some(v@),
        Option::None => Option::None,
    }
}

/// Record layer: type (1), version (2), length (2), then `length` bytes of
/// payload. A handshake record hands its payload on; any other valid record
/// type is complete but is no ClientHello.
pub open spec fn spec_sniff(b: Seq<u8>) -> SpecSniff {
    if b.len() < 5 {
        SpecSniff::Incomplete
    } else if !valid_record_type(b[0]) {
        SpecSniff::Reject(ProxyError::MalformedHandshake)
    } else if b.len() < 5 + be16(b[3], b[4]) {
        SpecSniff::Incomplete
    } else if b[0] != 22 {
        SpecSniff::Reject(ProxyError::NotAClientHello)
    } else {
        spec_handshake(b.subrange(5, 5 + be16(b[3], b[4])))
    }
}

/// Handshake message framing: type (1), length (3), body. Only the first
/// message of the record is examined; it must be a ClientHello (type 1).
pub open spec fn spec_handshake(m: Seq<u8>) -> SpecSniff {
    if m.len() < 4 {
        SpecSniff::Reject(ProxyError::MalformedHandshake)
    } else if m.len() < 4 + be24(m[1], m[2], m[3]) {
        SpecSniff::Reject(ProxyError::MalformedHandshake)
    } else if m[0] != 1 {
        SpecSniff::Reject(ProxyError::NotAClientHello)
    } else {
        spec_client_hello(m.subrange(4, 4 + be24(m[1], m[2], m[3])))
    }
}

/// ClientHello body: version (2), random (32), session id (1 + n),
/// cipher suites (2 + n), compression methods (1 + n), then an optional
/// extensions block (2 + n) that must fill the rest exactly. A ClientHello
/// without an extensions block carries no SNI and is not accepted.
pub open spec fn spec_client_hello(c: Seq<u8>) -> SpecSniff {
    if c.len() < 35 {
        SpecSniff::Reject(ProxyError::MalformedHandshake)
    } else {
        let sid = c[34] as int;
        if c.len() < 37 + sid {
            SpecSniff::Reject(ProxyError::MalformedHandshake)
        } else {
            let cs = be16(c[35 + sid], c[36 + sid]);
            if c.len() < 38 + sid + cs {
                SpecSniff::Reject(ProxyError::MalformedHandshake)
            } else {
                let comp = c[37 + sid + cs] as int;
                let after = 38 + sid + cs + comp;
                if c.len() < after {
                    SpecSniff::Reject(ProxyError::MalformedHandshake)
                } else if c.len() == after {
                    SpecSniff::Reject(ProxyError::NotAClientHello)
                } else if c.len() < after + 2 {
                    SpecSniff::Reject(ProxyError::MalformedHandshake)
                } else if c.len() != after + 2 + be16(c[after], c[after + 1]) {
                    SpecSniff::Reject(ProxyError::MalformedHandshake)
                } else {
                    spec_extensions(c.subrange(after + 2, c.len() as int), 0, Option::None)
                }
            }
        }
    }
}

/// The extensions block: a run of (type (2), length (2), data) entries that
/// fills the block exactly. Each server-name extension (type 0) is parsed;
/// the last host-name entry found anywhere replaces earlier ones.
pub open spec fn spec_extensions(e: Seq<u8>, i: int, best: Option<Seq<u8>>) -> SpecSniff
    recommends
        0 <= i <= e.len(),
    decreases e.len() - i,
{
    if i >= e.len() {
        match best {
            Option::Some(name) => SpecSniff::Found(name),
            Option::None => SpecSniff::Reject(ProxyError::NoSni),
        }
    } else if i + 4 > e.len() {
        SpecSniff::Reject(ProxyError::MalformedHandshake)
    } else {
        let t = be16(e[i], e[i + 1]);
        let l = be16(e[i + 2], e[i + 3]);
        if i + 4 + l > e.len() {
            SpecSniff::Reject(ProxyError::MalformedHandshake)
        } else if t == 0 {
            match spec_sni_list(e.subrange(i + 4, i + 4 + l)) {
                Result::Err(_) => SpecSniff::Reject(ProxyError::MalformedHandshake),
                Result::Ok(found) => spec_extensions(
                    e,
                    i + 4 + l,
                    if found is Some {
                        found
                    } else {
                        best
                    },
                ),
            }
        } else {
            spec_extensions(e, i + 4 + l, best)
        }
    }
}

/// A server-name extension body: a list length (2) that must fill the body
/// exactly, then entries scanned by [`spec_sni_entries`].
pub open spec fn spec_sni_list(d: Seq<u8>) -> Result<Option<Seq<u8>>, ()> {
    if d.len() < 2 {
        Result::Err(())
    } else if 2 + be16(d[0], d[1]) != d.len() {
        Result::Err(())
    } else {
        spec_sni_entries(d, 2, Option::None)
    }
}

/// Server-name list entries: name type (1), name length (2), name. The last
/// entry of type host_name (0) wins.
pub open spec fn spec_sni_entries(d: Seq<u8>, i: int, best: Option<Seq<u8>>) -> Result<
    Option<Seq<u8>>,
    (),
>
    recommends
        0 <= i <= d.len(),
    decreases d.len() - i,
{
    if i >= d.len() {
        Result::Ok(best)
    } else if i + 3 > d.len() {
        Result::Err(())
    } else {
        let nt = d[i];
        let nl = be16(d[i + 1], d[i + 2]);
        if i + 3 + nl > d.len() {
            Result::Err(())
        } else {
            spec_sni_entries(
                d,
                i + 3 + nl,
                if nt == 0 {
                    Option::Some(d.subrange(i + 3, i + 3 + nl))
                } else {
                    best
                },
            )
        }
    }
}

/// Law: a buffer whose first byte is no TLS record type is rejected for
/// good the moment five bytes are there — the sniffer never keeps waiting
/// on a stream that is not TLS.
pub proof fn lemma_non_tls_rejected(b: Seq<u8>)
    requires
        b.len() >= 5,
        !valid_record_type(b[0]),
    ensures
        spec_sniff(b) == SpecSniff::Reject(ProxyError::MalformedHandshake),
{
}

/// Copies `v[a..b]` out into a fresh vector.
fn subvec(v: &Vec<u8>, a: usize, b: usize) -> (r: Vec<u8>)
    requires
        a <= b <= v@.len(),
    ensures
        r@ == v@.subrange(a as int, b as int),
{
    let mut r: Vec<u8> = Vec::new();
    let mut i: usize = a;
    while i < b
        invariant
            a <= i <= b <= v@.len(),
            r@ == v@.subrange(a as int, i as int),
        decreases b - i,
    {
        r.push(v[i]);
        i = i + 1;
        proof {
            assert(r@ =~= v@.subrange(a as int, i as int));
        }
    }
    r
}

/// One parse attempt over the whole buffered prefix of the stream.
pub fn try_parse(buf: &Vec<u8>) -> (r: TryParse)
    ensures
        r.reflects(spec_sniff(buf@)),
{
    if buf.len() < 5 {
        return TryParse::NeedMore;
    }
    let rt = buf[0];
    if !(20 <= rt && rt <= 23) {
        return TryParse::Reject(ProxyError::MalformedHandshake);
    }
    let rlen: usize = (buf[3] as usize) * 256 + (buf[4] as usize);
    if buf.len() - 5 < rlen {
        return TryParse::NeedMore;
    }
    if rt != 22 {
        return TryParse::Reject(ProxyError::NotAClientHello);
    }
    let m = subvec(buf, 5, 5 + rlen);
    parse_handshake(&m)
}

/// Parses the first handshake message of a complete handshake record.
fn parse_handshake(m: &Vec<u8>) -> (r: TryParse)
    ensures
        r.reflects(spec_handshake(m@)),
{
    if m.len() < 4 {
        return TryParse::Reject(ProxyError::MalformedHandshake);
    }
    let mlen: usize = (m[1] as usize) * 65536 + (m[2] as usize) * 256 + (m[3] as usize);
    if m.len() - 4 < mlen {
        return TryParse::Reject(ProxyError::MalformedHandshake);
    }
    if m[0] != 1 {
        return TryParse::Reject(ProxyError::NotAClientHello);
    }
    let c = subvec(m, 4, 4 + mlen);
    parse_client_hello(&c)
}

/// Parses a complete ClientHello body and scans its extensions block.
fn parse_client_hello(c: &Vec<u8>) -> (r: TryParse)
    ensures
        r.reflects(spec_client_hello(c@)),
{
    if c.len() < 35 {
        return TryParse::Reject(ProxyError::MalformedHandshake);
    }
    let sid = c[34] as usize;
    if c.len() < 37 + sid {
        return TryParse::Reject(ProxyError::MalformedHandshake);
    }
    let cs: usize = (c[35 + sid] as usize) * 256 + (c[36 + sid] as usize);
    if c.len() < 38 + sid + cs {
        return TryParse::Reject(ProxyError::MalformedHandshake);
    }
    let comp = c[37 + sid + cs] as usize;
    let after: usize = 38 + sid + cs + comp;
    if c.len() < after {
        return TryParse::Reject(ProxyError::MalformedHandshake);
    }
    if c.len() == after {
        return TryParse::Reject(ProxyError::NotAClientHello);
    }
    if c.len() < after + 2 {
        return TryParse::Reject(ProxyError::MalformedHandshake);
    }
    let el: usize = (c[after] as usize) * 256 + (c[after + 1] as usize);
    if c.len() - after - 2 != el {
        return TryParse::Reject(ProxyError::MalformedHandshake);
    }
    let e = subvec(c, after + 2, c.len());
    scan_extensions(&e)
}

/// Walks the extensions block, keeping the last host name found.
fn scan_extensions(e: &Vec<u8>) -> (r: TryParse)
    ensures
        r.reflects(spec_extensions(e@, 0, Option::None)),
{
    let mut i: usize = 0;
    let mut best: Option<Vec<u8>> = Option::None;
    loop
        invariant
            i <= e@.len(),
            spec_extensions(e@, 0, Option::None) == spec_extensions(
                e@,
                i as int,
                opt_view(best),
            ),
        decreases e@.len() - i,
    {
        if i == e.len() {
            return match best {
                Option::Some(n) => TryParse::Found(n),
                Option::None => TryParse::Reject(ProxyError::NoSni),
            };
        }
        if e.len() - i < 4 {
            return TryParse::Reject(ProxyError::MalformedHandshake);
        }
        let t: usize = (e[i] as usize) * 256 + (e[i + 1] as usize);
        let l: usize = (e[i + 2] as usize) * 256 + (e[i + 3] as usize);
        if e.len() - i - 4 < l {
            return TryParse::Reject(ProxyError::MalformedHandshake);
        }
        let ni = i + 4 + l;
        if t == 0 {
            let d = subvec(e, i + 4, ni);
            match scan_sni_list(&d) {
                Result::Err(_) => {
                    return TryParse::Reject(ProxyError::MalformedHandshake);
                },
                Result::Ok(found) => {
                    if found.is_some() {
                        best = found;
                    }
                },
            }
        }
        i = ni;
    }
}

/// Parses one server-name extension body.
fn scan_sni_list(d: &Vec<u8>) -> (r: Result<Option<Vec<u8>>, ()>)
    ensures
        match r {
            Result::Ok(found) => spec_sni_list(d@) == Result::<Option<Seq<u8>>, ()>::Ok(
                opt_view(found),
            ),
            Result::Err(_) => spec_sni_list(d@) is Err,
        },
{
    if d.len() < 2 {
        return Result::Err(());
    }
    let ll: usize = (d[0] as usize) * 256 + (d[1] as usize);
    if d.len() - 2 != ll {
        return Result::Err(());
    }
    let mut i: usize = 2;
    let mut best: Option<Vec<u8>> = Option::None;
    loop
        invariant
            2 <= i <= d@.len(),
            2 + be16(d@[0], d@[1]) == d@.len(),
            spec_sni_entries(d@, 2, Option::None) == spec_sni_entries(
                d@,
                i as int,
                opt_view(best),
            ),
        decreases d@.len() - i,
    {
        if i == d.len() {
            proof {
                assert(spec_sni_entries(d@, i as int, opt_view(best))
                    == Result::<Option<Seq<u8>>, ()>::Ok(opt_view(best)));
                assert(spec_sni_list(d@) == spec_sni_entries(d@, 2, Option::None));
            }
            return Result::Ok(best);
        }
        if d.len() - i < 3 {
            return Result::Err(());
        }
        let nt = d[i];
        let nl: usize = (d[i + 1] as usize) * 256 + (d[i + 2] as usize);
        if d.len() - i - 3 < nl {
            return Result::Err(());
        }
        let ni = i + 3 + nl;
        if nt == 0 {
            let name = subvec(d, i + 3, ni);
            best = Option::Some(name);
        }
        i = ni;
    }
}

/// The accumulating half of the sniffer: raw bytes are appended as they
/// arrive, and the whole prefix is re-parsed after each chunk. The buffered
/// bytes are kept verbatim so that the relay can replay them.
pub struct Sniffer {
    buf: Vec<u8>,
}

impl View for Sniffer {
    type V = Seq<u8>;

    closed spec fn view(&self) -> Seq<u8> {
        self.buf@
    }
}

impl Sniffer {
    pub fn new() -> (s: Sniffer)
        ensures
            s@ == Seq::<u8>::empty(),
    {
        Sniffer { buf: Vec::new() }
    }

    /// Appends one chunk read from the socket and re-parses. The outcome
    /// depends only on the bytes accumulated so far, so it makes no
    /// difference how the stream was cut into chunks.
    pub fn feed(&mut self, chunk: &Vec<u8>) -> (r: TryParse)
        ensures
            final(self)@ == old(self)@ + chunk@,
            r.reflects(spec_sniff(old(self)@ + chunk@)),
    {
        self.buf.extend_from_slice(chunk.as_slice());
        let r = try_parse(&self.buf);
        proof {
            assert(self.buf@ == old(self)@ + chunk@);
        }
        r
    }

    /// Everything read so far, to be replayed verbatim to the destination.
    pub fn buffered(&self) -> (r: &Vec<u8>)
        ensures
            r@ == self@,
    {
        &self.buf
    }
}

} // verus!

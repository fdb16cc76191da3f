//! Request-rewriting logic of the cleartext HTTP forward proxy. The caller
//! hands in the request's headers as plain bytes; the plan says either to
//! answer 400 with an empty body, or exactly which target to forward to and
//! with which headers. The destination is the value of the proxy-destination
//! header in its canonical URI form; the token from the proxy-auth header is
//! verified against that exact string; the two proxy headers and the
//! optional real-host override are stripped, and an outgoing `Host` is
//! appended: the override's value if present, else the canonical URI itself.

use vstd::prelude::*;

use crate::ProxyError;
use crate::auth::spec_verify;

verus! {

/// One HTTP header: a name and a raw value.
pub struct Header {
    pub name: Vec<u8>,
    pub value: Vec<u8>,
}

/// The parts of an inbound request that the proxy reads or rewrites.
pub struct HttpRequest {
    pub headers: Vec<Header>,
}

/// The rewritten request to forward.
pub struct ForwardPlan {
    /// The destination URI in canonical form: the outgoing request's target.
    pub target: Vec<u8>,
    /// The headers to send.
    pub headers: Vec<Header>,
}

/// What parsing a byte string as a URI and printing it back yields, if it
/// parses at all. Named from hyper; not modelled further.
pub uninterp spec fn uri_canon(s: Seq<u8>) -> Option<Seq<u8>>;

/// Relies on hyper's `Uri`: `TryFrom<&[u8]>` and `Display`. Whether the
/// bytes parse as a URI, and the canonical form printed back, are functions
/// of the bytes alone.
#[verifier::external_body]
fn canon_uri(s: &Vec<u8>) -> (r: Option<Vec<u8>>)
    ensures
        match r {
            Option::Some(c) => uri_canon(s@) == Option::Some(c@),
            Option::None => uri_canon(s@) is None,
        },
{
    match hyper::Uri::try_from(s.as_slice()) {
        Ok(u) => Some(u.to_string().into_bytes()),
        Err(_) => None,
    }
}

/// ASCII lower-casing of one byte.
pub open spec fn lower(b: u8) -> u8 {
    if 65 <= b && b <= 90 {
        (b + 32) as u8
    } else {
        b
    }
}

/// Case-insensitive equality of header names.
pub open spec fn name_eq(a: Seq<u8>, b: Seq<u8>) -> bool {
    a.len() == b.len() && (forall|i: int| 0 <= i < a.len() ==> lower(a[i]) == lower(b[i]))
}

pub open spec fn dest_name() -> Seq<u8> {
    seq![120u8, 45, 112, 114, 111, 120, 121, 101, 114, 45, 112, 114, 111, 120, 121, 45, 100, 101, 115, 116]
}

pub open spec fn auth_name() -> Seq<u8> {
    seq![120u8, 45, 112, 114, 111, 120, 121, 101, 114, 45, 112, 114, 111, 120, 121, 45, 97, 117, 116, 104]
}

pub open spec fn real_host_name() -> Seq<u8> {
    seq![120u8, 45, 112, 114, 111, 120, 121, 101, 114, 45, 114, 101, 97, 108, 45, 104, 111, 115, 116]
}

pub open spec fn host_name() -> Seq<u8> {
    seq![104u8, 111, 115, 116]
}

/// The first header whose name matches, scanning from `i`.
pub open spec fn find_from(hs: Seq<Header>, name: Seq<u8>, i: int) -> Option<Seq<u8>>
    recommends
        0 <= i <= hs.len(),
    decreases hs.len() - i,
{
    if i >= hs.len() {
        Option::None
    } else if name_eq(hs[i].name@, name) {
        Option::Some(hs[i].value@)
    } else {
        find_from(hs, name, i + 1)
    }
}

/// The value of the first header with the given name, if any.
pub open spec fn find_header(hs: Seq<Header>, name: Seq<u8>) -> Option<Seq<u8>> {
    find_from(hs, name, 0)
}

/// Header names the rewrite consumes: the two proxy headers, the real-host
/// override, and any incoming `Host`, which the outgoing one replaces.
pub open spec fn stripped(name: Seq<u8>) -> bool {
    name_eq(name, dest_name()) || name_eq(name, auth_name()) || name_eq(name, real_host_name())
        || name_eq(name, host_name())
}

/// The (name, value) views of the first `i` headers that survive the strip,
/// in order.
pub open spec fn strip_upto(hs: Seq<Header>, i: int) -> Seq<(Seq<u8>, Seq<u8>)>
    recommends
        0 <= i <= hs.len(),
    decreases i,
{
    if i <= 0 {
        Seq::empty()
    } else if stripped(hs[i - 1].name@) {
        strip_upto(hs, i - 1)
    } else {
        strip_upto(hs, i - 1) + seq![(hs[i - 1].name@, hs[i - 1].value@)]
    }
}

/// The (name, value) views of a header list, in order.
pub open spec fn pairs(hs: Seq<Header>) -> Seq<(Seq<u8>, Seq<u8>)>
    decreases hs.len(),
{
    if hs.len() == 0 {
        Seq::empty()
    } else {
        pairs(hs.drop_last()) + seq![(hs.last().name@, hs.last().value@)]
    }
}

/// A byte hyper accepts inside a header value: visible ASCII, horizontal
/// tab, or any byte above 127.
pub open spec fn header_value_byte(b: u8) -> bool {
    b == 9 || (b >= 32 && b != 127)
}

/// Whether a byte string can be sent as a header value.
pub open spec fn header_value_ok(s: Seq<u8>) -> bool {
    forall|i: int| 0 <= i < s.len() ==> header_value_byte(s[i])
}

fn lower_byte(b: u8) -> (r: u8)
    ensures
        r == lower(b),
{
    if 65 <= b && b <= 90 {
        b + 32
    } else {
        b
    }
}

fn eq_name(a: &Vec<u8>, b: &Vec<u8>) -> (r: bool)
    ensures
        r == name_eq(a@, b@),
{
    if a.len() != b.len() {
        return false;
    }
    let mut i: usize = 0;
    while i < a.len()
        invariant
            a@.len() == b@.len(),
            i <= a@.len(),
            forall|j: int| 0 <= j < i ==> lower(a@[j]) == lower(b@[j]),
        decreases a@.len() - i,
    {
        if lower_byte(a[i]) != lower_byte(b[i]) {
            return false;
        }
        i = i + 1;
    }
    true
}

fn check_header_value(s: &Vec<u8>) -> (r: bool)
    ensures
        r == header_value_ok(s@),
{
    let mut i: usize = 0;
    while i < s.len()
        invariant
            i <= s@.len(),
            forall|j: int| 0 <= j < i ==> header_value_byte(s@[j]),
        decreases s@.len() - i,
    {
        let b = s[i];
        if !(b == 9 || (b >= 32 && b != 127)) {
            return false;
        }
        i = i + 1;
    }
    true
}

/// Index of the first header with the given name.
fn find_header_idx(hs: &Vec<Header>, name: &Vec<u8>) -> (r: Option<usize>)
    ensures
        match r {
            Option::Some(j) => j < hs@.len() && name_eq(hs@[j as int].name@, name@) && find_header(
                hs@,
                name@,
            ) == Option::Some(hs@[j as int].value@),
            Option::None => find_header(hs@, name@) is None,
        },
{
    let mut i: usize = 0;
    while i < hs.len()
        invariant
            i <= hs@.len(),
            find_from(hs@, name@, 0) == find_from(hs@, name@, i as int),
        decreases hs@.len() - i,
    {
        if eq_name(&hs[i].name, name) {
            return Option::Some(i);
        }
        i = i + 1;
    }
    Option::None
}

fn clone_bytes(v: &Vec<u8>) -> (r: Vec<u8>)
    ensures
        r@ == v@,
{
    let mut r: Vec<u8> = Vec::new();
    let mut i: usize = 0;
    while i < v.len()
        invariant
            i <= v@.len(),
            r@ == v@.subrange(0, i as int),
        decreases v@.len() - i,
    {
        r.push(v[i]);
        i = i + 1;
        proof {
            assert(r@ =~= v@.subrange(0, i as int));
        }
    }
    proof {
        assert(r@ =~= v@);
    }
    r
}

fn dest_name_bytes() -> (r: Vec<u8>)
    ensures
        r@ == dest_name(),
{
    let r: Vec<u8> = vec![120u8, 45, 112, 114, 111, 120, 121, 101, 114, 45, 112, 114, 111, 120, 121, 45, 100, 101, 115, 116];
    proof {
        assert(r@ =~= dest_name());
    }
    r
}

fn auth_name_bytes() -> (r: Vec<u8>)
    ensures
        r@ == auth_name(),
{
    let r: Vec<u8> = vec![120u8, 45, 112, 114, 111, 120, 121, 101, 114, 45, 112, 114, 111, 120, 121, 45, 97, 117, 116, 104];
    proof {
        assert(r@ =~= auth_name());
    }
    r
}

fn real_host_name_bytes() -> (r: Vec<u8>)
    ensures
        r@ == real_host_name(),
{
    let r: Vec<u8> = vec![120u8, 45, 112, 114, 111, 120, 121, 101, 114, 45, 114, 101, 97, 108, 45, 104, 111, 115, 116];
    proof {
        assert(r@ =~= real_host_name());
    }
    r
}

fn host_name_bytes() -> (r: Vec<u8>)
    ensures
        r@ == host_name(),
{
    let r: Vec<u8> = vec![104u8, 111, 115, 116];
    proof {
        assert(r@ =~= host_name());
    }
    r
}

/// Whether the proxy-auth header carries a token for `uri` valid at hour
/// `h`. A missing header never verifies.
pub open spec fn spec_do_auth(hs: Seq<Header>, uri: Seq<u8>, secret: Seq<u8>, h: u16) -> bool {
    match find_header(hs, auth_name()) {
        Option::None => false,
        Option::Some(tok) => spec_verify(tok, uri, secret, h),
    }
}

/// Reads the proxy-auth header and verifies its token against the
/// destination string exactly as given, with the wall clock reading `now`.
pub fn do_auth_with_hour(req: &HttpRequest, uri: &Vec<u8>, secret: &Vec<u8>, now: u16) -> (r:
    bool)
    requires
        now < 24,
    ensures
        r == spec_do_auth(req.headers@, uri@, secret@, now),
{
    let an = auth_name_bytes();
    match find_header_idx(&req.headers, &an) {
        Option::Some(j) => crate::auth::verify_auth_with_hour(
            &req.headers[j].value,
            uri,
            secret,
            now,
        ),
        Option::None => false,
    }
}

/// Reads the proxy-auth header and verifies its token against the
/// destination string exactly as given, at the current wall-clock hour.
/// A missing header never verifies.
pub fn do_auth(req: &HttpRequest, uri: &Vec<u8>, secret: &Vec<u8>) -> (r: bool)
    ensures
        exists|h: u16| h < 24 && r == spec_do_auth(req.headers@, uri@, secret@, h),
{
    let now = crate::auth::current_hour();
    let r = do_auth_with_hour(req, uri, secret, now);
    proof {
        assert(now < 24 && r == spec_do_auth(req.headers@, uri@, secret@, now));
    }
    r
}

/// What the proxy decides for a request whose headers are `hs`, at hour `h`:
/// refuse it, refuse the destination as a `Host` value, or forward to the
/// canonical destination with the stripped headers plus the outgoing `Host`.
pub enum SpecPlan {
    Bad,
    NonAscii,
    Forward(Seq<u8>, Seq<(Seq<u8>, Seq<u8>)>),
}

pub open spec fn spec_plan(hs: Seq<Header>, secret: Seq<u8>, h: u16) -> SpecPlan {
    match find_header(hs, dest_name()) {
        Option::None => SpecPlan::Bad,
        Option::Some(dv) => match uri_canon(dv) {
            Option::None => SpecPlan::Bad,
            Option::Some(c) => if !spec_do_auth(hs, c, secret, h) {
                SpecPlan::Bad
            } else {
                match find_header(hs, real_host_name()) {
                    Option::Some(rh) => SpecPlan::Forward(
                        c,
                        strip_upto(hs, hs.len() as int) + seq![(host_name(), rh)],
                    ),
                    Option::None => if header_value_ok(c) {
                        SpecPlan::Forward(
                            c,
                            strip_upto(hs, hs.len() as int) + seq![(host_name(), c)],
                        )
                    } else {
                        SpecPlan::NonAscii
                    },
                }
            },
        },
    }
}

/// The executable outcome stands for the given spec-level plan. `Err` means:
/// answer 400 with an empty body (for [`ProxyError::NonAsciiUri`], the
/// destination cannot be used as a `Host` value).
pub open spec fn plan_reflects(r: Result<ForwardPlan, ProxyError>, s: SpecPlan) -> bool {
    match (r, s) {
        (Result::Err(e), SpecPlan::Bad) => e == ProxyError::BadRequest,
        (Result::Err(e), SpecPlan::NonAscii) => e == ProxyError::NonAsciiUri,
        (Result::Ok(p), SpecPlan::Forward(t, hs)) => p.target@ == t && pairs(p.headers@) == hs,
        _ => false,
    }
}

/// Decides one inbound request with the wall clock reading `now`.
pub fn plan_proxy_at(req: &HttpRequest, secret: &Vec<u8>, now: u16) -> (r: Result<
    ForwardPlan,
    ProxyError,
>)
    requires
        now < 24,
    ensures
        plan_reflects(r, spec_plan(req.headers@, secret@, now)),
{
    let dn = dest_name_bytes();
    let dv_idx = match find_header_idx(&req.headers, &dn) {
        Option::Some(j) => j,
        Option::None => {
            return Result::Err(ProxyError::BadRequest);
        },
    };
    let c = match canon_uri(&req.headers[dv_idx].value) {
        Option::Some(c) => c,
        Option::None => {
            return Result::Err(ProxyError::BadRequest);
        },
    };
    let authed = do_auth_with_hour(req, &c, secret, now);
    if !authed {
        return Result::Err(ProxyError::BadRequest);
    }
    let an = auth_name_bytes();
    let rhn = real_host_name_bytes();
    let hn = host_name_bytes();
    let host_val: Vec<u8> = match find_header_idx(&req.headers, &rhn) {
        Option::Some(j) => clone_bytes(&req.headers[j].value),
        Option::None => {
            if !check_header_value(&c) {
                return Result::Err(ProxyError::NonAsciiUri);
            }
            clone_bytes(&c)
        },
    };
    let mut out: Vec<Header> = Vec::new();
    let mut i: usize = 0;
    while i < req.headers.len()
        invariant
            i <= req.headers@.len(),
            pairs(out@) == strip_upto(req.headers@, i as int),
            dn@ == dest_name(),
            an@ == auth_name(),
            rhn@ == real_host_name(),
            hn@ == host_name(),
        decreases req.headers@.len() - i,
    {
        let keep = !(eq_name(&req.headers[i].name, &dn) || eq_name(&req.headers[i].name, &an)
            || eq_name(&req.headers[i].name, &rhn) || eq_name(&req.headers[i].name, &hn));
        if keep {
            let h = Header {
                name: clone_bytes(&req.headers[i].name),
                value: clone_bytes(&req.headers[i].value),
            };
            let ghost out0 = out@;
            out.push(h);
            proof {
                assert(out@.drop_last() =~= out0);
                assert(pairs(out@) == pairs(out0) + seq![(out@.last().name@, out@.last().value@)]);
            }
        }
        i = i + 1;
        proof {
            assert(pairs(out@) =~= strip_upto(req.headers@, i as int));
        }
    }
    let ghost out1 = out@;
    let ghost hv = host_val@;
    let host_header = Header { name: hn, value: host_val };
    out.push(host_header);
    proof {
        assert(out@.drop_last() =~= out1);
        assert(pairs(out@) == pairs(out1) + seq![(host_name(), hv)]);
    }
    Result::Ok(ForwardPlan { target: c, headers: out })
}

/// Decides one inbound request at the current wall-clock hour. The clock is
/// read once; the outcome is that of [`plan_proxy_at`] at whatever hour it
/// read.
pub fn plan_proxy(req: &HttpRequest, secret: &Vec<u8>) -> (r: Result<ForwardPlan, ProxyError>)
    ensures
        exists|h: u16| h < 24 && plan_reflects(r, spec_plan(req.headers@, secret@, h)),
{
    let now = crate::auth::current_hour();
    let r = plan_proxy_at(req, secret, now);
    proof {
        assert(now < 24 && plan_reflects(r, spec_plan(req.headers@, secret@, now)));
    }
    r
}

} // verus!

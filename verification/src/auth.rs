//! The time-windowed authenticator. A token is a one-way digest binding a
//! destination identifier to an hour-of-day bucket under a shared secret;
//! verification accepts the previous, current, and next bucket (mod 24).

use vstd::prelude::*;

verus! {

/// Length of every auth token, in bytes.
pub const HASH_LENGTH: usize = 64;

/// What `sha256::digest` returns on a given byte string: 64 hex characters,
/// as bytes. The digest itself is not modelled; only that it is a function
/// of the input alone.
pub uninterp spec fn sha256_hex_of(data: Seq<u8>) -> Seq<u8>;

/// Relies on `sha256::digest`, which hex-encodes the SHA-256 hash of the
/// input: the result has 64 characters and depends on the input bytes alone.
#[verifier::external_body]
fn sha256_hex(data: &Vec<u8>) -> (r: Vec<u8>)
    ensures
        r@ == sha256_hex_of(data@),
        r@.len() == 64,
{
    sha256::digest(data).into_bytes()
}

/// Relies on chrono: `Timelike::hour` on `Utc::now()` "Returns the hour
/// number from 0 to 23". Nothing else is promised of the clock.
#[verifier::external_body]
pub(crate) fn current_hour() -> (h: u16)
    ensures
        h < 24,
{
    chrono::Timelike::hour(&chrono::offset::Utc::now()) as u16
}

/// The decimal digits of an hour bucket, as ASCII bytes.
pub open spec fn hour_ascii(h: u16) -> Seq<u8>
    recommends
        h < 24,
{
    if h < 10 {
        seq![(48 + h) as u8]
    } else {
        seq![(48 + h / 10) as u8, (48 + h % 10) as u8]
    }
}

/// The exact byte string that is digested: the bucket, the secret, and the
/// destination, separated by `#`.
pub open spec fn token_input(dest: Seq<u8>, hour: u16, secret: Seq<u8>) -> Seq<u8> {
    hour_ascii(hour) + seq![35u8] + secret + seq![35u8] + dest
}

/// The token for a destination at a given hour bucket under a secret.
pub open spec fn spec_token(dest: Seq<u8>, hour: u16, secret: Seq<u8>) -> Seq<u8> {
    sha256_hex_of(token_input(dest, hour, secret))
}

/// Computes the auth token binding `uri` to the hour bucket `hour`.
pub fn make_auth_with_hour(uri: &Vec<u8>, hour: u16, secret: &Vec<u8>) -> (r: Vec<u8>)
    requires
        hour < 24,
    ensures
        r@ == spec_token(uri@, hour, secret@),
        r@.len() == 64,
{
    let mut input: Vec<u8> = Vec::new();
    if hour < 10 {
        input.push(48 + hour as u8);
    } else {
        input.push(48 + (hour / 10) as u8);
        input.push(48 + (hour % 10) as u8);
    }
    input.push(35);
    input.extend_from_slice(secret.as_slice());
    input.push(35);
    input.extend_from_slice(uri.as_slice());
    proof {
        assert(input@ =~= token_input(uri@, hour, secret@));
    }
    sha256_hex(&input)
}

/// Compares two byte strings in time independent of where they first differ,
/// as a comparison of a secret-derived value against attacker input must.
pub fn ct_eq(a: &Vec<u8>, b: &Vec<u8>) -> (r: bool)
    ensures
        r == (a@ == b@),
{
    if a.len() != b.len() {
        proof {
            assert(a@ != b@);
        }
        return false;
    }
    let mut acc: u8 = 0;
    let mut i: usize = 0;
    while i < a.len()
        invariant
            a@.len() == b@.len(),
            i <= a@.len(),
            (acc == 0) <==> (forall|j: int| 0 <= j < i ==> a@[j] == b@[j]),
        decreases a@.len() - i,
    {
        let x = a[i];
        let y = b[i];
        let d = x ^ y;
        proof {
            assert((x ^ y == 0) == (x == y)) by (bit_vector);
            assert(((acc | d) == 0) == (acc == 0 && d == 0)) by (bit_vector);
        }
        acc = acc | d;
        i = i + 1;
    }
    if acc == 0 {
        proof {
            assert(a@ =~= b@);
        }
        true
    } else {
        false
    }
}

/// The hour bucket just before `now`, mod 24.
pub open spec fn prev_hour(now: u16) -> u16 {
    (((now + 23) as int) % 24) as u16
}

/// The hour bucket just after `now`, mod 24.
pub open spec fn next_hour(now: u16) -> u16 {
    (((now + 1) as int) % 24) as u16
}

/// The three consecutive buckets accepted when the wall clock reads `now`.
pub open spec fn hour_in_window(h: u16, now: u16) -> bool {
    h == prev_hour(now) || h == now || h == next_hour(now)
}

/// A token verifies at hour `now` exactly when it equals the token of one of
/// the three buckets in the window around `now`.
pub open spec fn spec_verify(token: Seq<u8>, dest: Seq<u8>, secret: Seq<u8>, now: u16) -> bool {
    token == spec_token(dest, prev_hour(now), secret) || token == spec_token(dest, now, secret)
        || token == spec_token(dest, next_hour(now), secret)
}

/// Verifies a presented token against a destination with the wall clock
/// reading `now`: the previous, current, and next hour bucket are accepted.
pub fn verify_auth_with_hour(auth: &Vec<u8>, uri: &Vec<u8>, secret: &Vec<u8>, now: u16) -> (r:
    bool)
    requires
        now < 24,
    ensures
        r == spec_verify(auth@, uri@, secret@, now),
{
    let prev: u16 = (now + 23) % 24;
    let next: u16 = (now + 1) % 24;
    let c1 = make_auth_with_hour(uri, prev, secret);
    if ct_eq(auth, &c1) {
        return true;
    }
    let c2 = make_auth_with_hour(uri, now, secret);
    if ct_eq(auth, &c2) {
        return true;
    }
    let c3 = make_auth_with_hour(uri, next, secret);
    ct_eq(auth, &c3)
}

/// Verifies a presented token against a destination at the current wall-clock
/// hour. The clock is read once; the outcome is that of
/// [`verify_auth_with_hour`] at whatever hour it read.
pub fn verify_auth(auth: &Vec<u8>, uri: &Vec<u8>, secret: &Vec<u8>) -> (r: bool)
    ensures
        exists|h: u16| h < 24 && r == spec_verify(auth@, uri@, secret@, h),
{
    let h = current_hour();
    let r = verify_auth_with_hour(auth, uri, secret, h);
    proof {
        assert(h < 24 && r == spec_verify(auth@, uri@, secret@, h));
    }
    r
}

/// Distinct hour buckets or distinct destinations always digest distinct
/// byte strings: the `#`-separated input is injective in the pair, for a
/// fixed secret. Only a digest collision can identify two tokens.
pub proof fn lemma_token_input_injective(
    secret: Seq<u8>,
    h1: u16,
    h2: u16,
    d1: Seq<u8>,
    d2: Seq<u8>,
)
    requires
        h1 < 24,
        h2 < 24,
        h1 != h2 || d1 != d2,
    ensures
        token_input(d1, h1, secret) != token_input(d2, h2, secret),
{
    let a = token_input(d1, h1, secret);
    let b = token_input(d2, h2, secret);
    let ha1 = hour_ascii(h1);
    let ha2 = hour_ascii(h2);
    if h1 != h2 {
        if h1 < 10 && h2 < 10 {
            assert(a[0] == 48 + h1);
            assert(b[0] == 48 + h2);
            assert(a != b);
        } else if h1 < 10 && h2 >= 10 {
            assert(a[1] == 35u8);
            assert(b[1] == 48 + h2 % 10);
            assert(h2 % 10 < 10);
            assert(a != b);
        } else if h1 >= 10 && h2 < 10 {
            assert(a[1] == 48 + h1 % 10);
            assert(b[1] == 35u8);
            assert(h1 % 10 < 10);
            assert(a != b);
        } else {
            assert(a[0] == 48 + h1 / 10);
            assert(a[1] == 48 + h1 % 10);
            assert(b[0] == 48 + h2 / 10);
            assert(b[1] == 48 + h2 % 10);
            assert(h1 / 10 != h2 / 10 || h1 % 10 != h2 % 10);
            assert(a != b);
        }
    } else {
        let p = ha1.len() + 2 + secret.len();
        assert(a.len() == p + d1.len());
        assert(b.len() == p + d2.len());
        if a == b {
            assert(d1.len() == d2.len());
            assert forall|i: int| 0 <= i < d1.len() implies d1[i] == d2[i] by {
                assert(a[p + i] == d1[i]);
                assert(b[p + i] == d2[i]);
            }
            assert(d1 =~= d2);
        }
    }
}

/// Law: a token computed for hour bucket `h` verifies at every wall-clock
/// hour whose three-bucket window contains `h`.
pub proof fn lemma_token_verifies_in_window(dest: Seq<u8>, secret: Seq<u8>, h: u16, now: u16)
    requires
        h < 24,
        now < 24,
        hour_in_window(h, now),
    ensures
        spec_verify(spec_token(dest, h, secret), dest, secret, now),
{
}

/// Law: a token computed for an hour bucket outside the window around `now`
/// does not verify at `now`. The hypothesis is the idealization under which
/// a one-way digest is used at all: distinct inputs digest to distinct
/// values. Without it, a digest collision between two bucket inputs would
/// let a stale token pass.
pub proof fn lemma_stale_token_rejected(dest: Seq<u8>, secret: Seq<u8>, h: u16, now: u16)
    requires
        h < 24,
        now < 24,
        !hour_in_window(h, now),
        forall|x: Seq<u8>, y: Seq<u8>| x != y ==> #[trigger] sha256_hex_of(x) != #[trigger] sha256_hex_of(y),
    ensures
        !spec_verify(spec_token(dest, h, secret), dest, secret, now),
{
    lemma_token_input_injective(secret, h, prev_hour(now), dest, dest);
    lemma_token_input_injective(secret, h, now, dest, dest);
    lemma_token_input_injective(secret, h, next_hour(now), dest, dest);
}

/// Law: a token computed for one destination does not verify against a
/// different destination, at any hour, under the same collision-freeness
/// idealization as [`lemma_stale_token_rejected`].
pub proof fn lemma_token_bound_to_destination(
    d1: Seq<u8>,
    d2: Seq<u8>,
    secret: Seq<u8>,
    h: u16,
    now: u16,
)
    requires
        h < 24,
        now < 24,
        d1 != d2,
        forall|x: Seq<u8>, y: Seq<u8>| x != y ==> #[trigger] sha256_hex_of(x) != #[trigger] sha256_hex_of(y),
    ensures
        !spec_verify(spec_token(d1, h, secret), d2, secret, now),
{
    lemma_token_input_injective(secret, h, prev_hour(now), d1, d2);
    lemma_token_input_injective(secret, h, now, d1, d2);
    lemma_token_input_injective(secret, h, next_hour(now), d1, d2);
}

} // verus!

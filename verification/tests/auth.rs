use proxyer::ProxyError;
use proxyer::auth::HASH_LENGTH;
use proxyer::auth::ct_eq;
use proxyer::auth::make_auth_with_hour;
use proxyer::auth::verify_auth;
use proxyer::auth::verify_auth_with_hour;
use proxyer::dbg_err;

fn bytes_of(s: &str) -> Vec<u8> {
    s.as_bytes().to_vec()
}

#[test]
fn token_is_64_chars_and_stable() {
    let secret = bytes_of("s3cret");
    let dest = bytes_of("example.com:443");
    let t1 = make_auth_with_hour(&dest, 7, &secret);
    let t2 = make_auth_with_hour(&dest, 7, &secret);
    assert_eq!(t1.len(), HASH_LENGTH);
    assert_eq!(t1, t2);
    let t3 = make_auth_with_hour(&dest, 8, &secret);
    assert_eq!(t3.len(), HASH_LENGTH);
    assert_ne!(t1, t3);
    let empty = bytes_of("");
    assert_eq!(make_auth_with_hour(&empty, 0, &empty).len(), HASH_LENGTH);
}

#[test]
fn token_verifies_in_three_bucket_window() {
    let secret = bytes_of("s3cret");
    let dest = bytes_of("example.com:443");
    let t = make_auth_with_hour(&dest, 5, &secret);
    for now in 0u16..24 {
        let ok = verify_auth_with_hour(&t, &dest, &secret, now);
        let expected = now == 4 || now == 5 || now == 6;
        assert_eq!(ok, expected, "hour {now}");
    }
}

#[test]
fn window_wraps_at_midnight() {
    let secret = bytes_of("s3cret");
    let dest = bytes_of("example.com:443");
    let t0 = make_auth_with_hour(&dest, 0, &secret);
    for now in 0u16..24 {
        let expected = now == 23 || now == 0 || now == 1;
        assert_eq!(verify_auth_with_hour(&t0, &dest, &secret, now), expected, "hour {now}");
    }
    let t23 = make_auth_with_hour(&dest, 23, &secret);
    for now in 0u16..24 {
        let expected = now == 22 || now == 23 || now == 0;
        assert_eq!(verify_auth_with_hour(&t23, &dest, &secret, now), expected, "hour {now}");
    }
}

#[test]
fn token_is_bound_to_destination() {
    let secret = bytes_of("s3cret");
    let t = make_auth_with_hour(&bytes_of("a.com:443"), 9, &secret);
    for now in 0u16..24 {
        assert!(!verify_auth_with_hour(&t, &bytes_of("b.com:443"), &secret, now));
        assert!(!verify_auth_with_hour(&t, &bytes_of("a.com:443 "), &secret, now));
        assert!(!verify_auth_with_hour(&t, &bytes_of("a.com:4430"), &secret, now));
        assert!(!verify_auth_with_hour(&t, &bytes_of("A.com:443"), &secret, now));
    }
}

#[test]
fn token_depends_on_secret() {
    let dest = bytes_of("example.com:443");
    let t = make_auth_with_hour(&dest, 12, &bytes_of("one"));
    assert_ne!(t, make_auth_with_hour(&dest, 12, &bytes_of("two")));
    for now in 0u16..24 {
        assert!(!verify_auth_with_hour(&t, &dest, &bytes_of("two"), now));
    }
}

#[test]
fn verify_auth_accepts_a_fresh_token() {
    let secret = bytes_of("s3cret");
    let dest = bytes_of("example.com:443");
    let mut accepted = 0;
    for h in 0u16..24 {
        let t = make_auth_with_hour(&dest, h, &secret);
        if verify_auth(&t, &dest, &secret) {
            accepted += 1;
        }
    }
    assert!(accepted == 3 || accepted == 4, "accepted {accepted}");
    let garbage = vec![b'x'; HASH_LENGTH];
    assert!(!verify_auth(&garbage, &dest, &secret));
}

#[test]
fn error_kinds_have_log_names() {
    assert_eq!(dbg_err(ProxyError::AuthRejected), "AuthRejected");
    assert_eq!(dbg_err(ProxyError::MalformedHandshake), "MalformedHandshake");
    assert_eq!(dbg_err(ProxyError::BadRequest), "BadRequest");
    assert_eq!(dbg_err(ProxyError::HandshakeIncomplete), "HandshakeIncomplete");
    assert_eq!(dbg_err(ProxyError::UpstreamUnreachable), "UpstreamUnreachable");
}

#[test]
fn ct_eq_compares_exactly() {
    assert!(ct_eq(&bytes_of("abc"), &bytes_of("abc")));
    assert!(ct_eq(&bytes_of(""), &bytes_of("")));
    assert!(!ct_eq(&bytes_of("abc"), &bytes_of("abd")));
    assert!(!ct_eq(&bytes_of("abc"), &bytes_of("ab")));
    assert!(!ct_eq(&bytes_of("abc"), &bytes_of("Abc")));
}

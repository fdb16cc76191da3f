use proxyer::ProxyError;
use proxyer::auth::HASH_LENGTH;
use proxyer::auth::make_auth_with_hour;
use proxyer::session::SessionStep;
use proxyer::session::TlsSession;
use proxyer::sniff::Sniffer;
use proxyer::sniff::TryParse;

/// A server-name list entry of the given type.
fn sni_entry(name_type: u8, host: &[u8]) -> Vec<u8> {
    let mut e = vec![name_type];
    e.extend_from_slice(&(host.len() as u16).to_be_bytes());
    e.extend_from_slice(host);
    e
}

/// A server_name extension (type 0) holding the given entries.
fn sni_extension(entries: &[Vec<u8>]) -> Vec<u8> {
    let mut list = Vec::new();
    for e in entries {
        list.extend_from_slice(e);
    }
    let mut data = (list.len() as u16).to_be_bytes().to_vec();
    data.extend_from_slice(&list);
    let mut ext = vec![0u8, 0];
    ext.extend_from_slice(&(data.len() as u16).to_be_bytes());
    ext.extend_from_slice(&data);
    ext
}

/// A full ClientHello record with the given extensions block (absent if None).
fn client_hello_record(extensions: Option<&[u8]>) -> Vec<u8> {
    let mut body = vec![3u8, 3];
    body.extend_from_slice(&[0u8; 32]);
    body.push(0); // empty session id
    body.extend_from_slice(&[0, 2, 0x13, 0x01]); // one cipher suite
    body.extend_from_slice(&[1, 0]); // null compression
    if let Some(exts) = extensions {
        body.extend_from_slice(&(exts.len() as u16).to_be_bytes());
        body.extend_from_slice(exts);
    }
    let mut msg = vec![1u8];
    msg.extend_from_slice(&(body.len() as u32).to_be_bytes()[1..]);
    msg.extend_from_slice(&body);
    let mut rec = vec![22u8, 3, 1];
    rec.extend_from_slice(&(msg.len() as u16).to_be_bytes());
    rec.extend_from_slice(&msg);
    rec
}

fn hello_with_sni(host: &[u8]) -> Vec<u8> {
    client_hello_record(Some(&sni_extension(&[sni_entry(0, host)])))
}

#[test]
fn sni_extracted_from_complete_hello() {
    let rec = hello_with_sni(b"example.com");
    let mut s = Sniffer::new();
    match s.feed(&rec) {
        TryParse::Found(name) => assert_eq!(name, b"example.com".to_vec()),
        _ => panic!("expected the server name"),
    }
    assert_eq!(s.buffered(), &rec);
}

#[test]
fn sni_extracted_across_split_writes() {
    let rec = hello_with_sni(b"example.com");
    let (a, b) = rec.split_at(20);
    let mut s = Sniffer::new();
    match s.feed(&a.to_vec()) {
        TryParse::NeedMore => {},
        _ => panic!("first write alone must not complete"),
    }
    match s.feed(&b.to_vec()) {
        TryParse::Found(name) => assert_eq!(name, b"example.com".to_vec()),
        _ => panic!("expected the server name after the second write"),
    }
    assert_eq!(s.buffered(), &rec);
}

#[test]
fn sni_extracted_byte_by_byte() {
    let rec = hello_with_sni(b"example.com");
    let mut s = Sniffer::new();
    for (i, byte) in rec.iter().enumerate() {
        match s.feed(&vec![*byte]) {
            TryParse::NeedMore => assert!(i + 1 < rec.len()),
            TryParse::Found(name) => {
                assert_eq!(i + 1, rec.len());
                assert_eq!(name, b"example.com".to_vec());
            },
            TryParse::Reject(e) => panic!("rejected at byte {i}: {e:?}"),
        }
    }
}

#[test]
fn non_tls_stream_rejected_at_once() {
    let mut s = Sniffer::new();
    let req = b"GET / HTTP/1.1\r\nHost: example.com\r\n\r\n".to_vec();
    match s.feed(&req) {
        TryParse::Reject(e) => assert_eq!(e, ProxyError::MalformedHandshake),
        _ => panic!("raw HTTP must be rejected, not buffered"),
    }
}

#[test]
fn alert_record_is_not_a_client_hello() {
    let rec = vec![21u8, 3, 3, 0, 2, 2, 40];
    let mut s = Sniffer::new();
    match s.feed(&rec) {
        TryParse::Reject(e) => assert_eq!(e, ProxyError::NotAClientHello),
        _ => panic!("an alert record is no ClientHello"),
    }
}

#[test]
fn hello_without_extensions_rejected() {
    let rec = client_hello_record(None);
    let mut s = Sniffer::new();
    match s.feed(&rec) {
        TryParse::Reject(e) => assert_eq!(e, ProxyError::NotAClientHello),
        _ => panic!("a ClientHello without extensions is not accepted"),
    }
}

#[test]
fn hello_without_sni_rejected() {
    // one extension of another type (supported_groups), no server_name
    let mut other = vec![0u8, 10, 0, 4, 0, 2, 0, 23];
    let rec = client_hello_record(Some(&other));
    let mut s = Sniffer::new();
    match s.feed(&rec) {
        TryParse::Reject(e) => assert_eq!(e, ProxyError::NoSni),
        _ => panic!("expected NoSni"),
    }
    // a server_name extension whose only entry is not a host name
    other = sni_extension(&[sni_entry(1, b"not-a-host")]);
    let rec2 = client_hello_record(Some(&other));
    let mut s2 = Sniffer::new();
    match s2.feed(&rec2) {
        TryParse::Reject(e) => assert_eq!(e, ProxyError::NoSni),
        _ => panic!("expected NoSni"),
    }
}

#[test]
fn last_host_name_entry_wins() {
    let ext = sni_extension(&[sni_entry(0, b"first.example"), sni_entry(0, b"second.example")]);
    let rec = client_hello_record(Some(&ext));
    let mut s = Sniffer::new();
    match s.feed(&rec) {
        TryParse::Found(name) => assert_eq!(name, b"second.example".to_vec()),
        _ => panic!("expected the last host name"),
    }
}

#[test]
fn relay_session_dials_authorized_destination() {
    let secret = b"s3cret".to_vec();
    let dest = b"example.com:443".to_vec();
    let rec = hello_with_sni(b"example.com");
    let mut dialed = false;
    for h in 0u16..24 {
        let token = make_auth_with_hour(&dest, h, &secret);
        let mut session = TlsSession::new();
        assert!(session.on_token(token).is_ok());
        let (a, b) = rec.split_at(7);
        match session.on_bytes(&a.to_vec(), &secret) {
            SessionStep::Continue => {},
            _ => panic!("partial record must ask for more"),
        }
        match session.on_bytes(&b.to_vec(), &secret) {
            SessionStep::Dial => {
                assert_eq!(session.dest(), &dest);
                assert_eq!(session.head(), &rec);
                dialed = true;
            },
            SessionStep::Fail(e) => assert_eq!(e, ProxyError::AuthRejected),
            SessionStep::Continue => panic!("the record is complete"),
        }
    }
    assert!(dialed, "a token for some hour must be accepted");
}

#[test]
fn short_token_fails_connection() {
    let mut session = TlsSession::new();
    assert_eq!(session.on_token(vec![b'a'; 10]), Err(ProxyError::ShortRead));
}

#[test]
fn non_utf8_token_fails_connection() {
    let mut session = TlsSession::new();
    assert_eq!(session.on_token(vec![0xff; HASH_LENGTH]), Err(ProxyError::InvalidToken));
}

#[test]
fn eof_mid_handshake_fails_connection() {
    let secret = b"s3cret".to_vec();
    let rec = hello_with_sni(b"example.com");
    let mut session = TlsSession::new();
    assert!(session.on_token(vec![b'a'; HASH_LENGTH]).is_ok());
    match session.on_bytes(&rec[..10].to_vec(), &secret) {
        SessionStep::Continue => {},
        _ => panic!("partial record must ask for more"),
    }
    match session.on_bytes(&Vec::new(), &secret) {
        SessionStep::Fail(e) => assert_eq!(e, ProxyError::HandshakeIncomplete),
        _ => panic!("EOF mid-handshake must fail"),
    }
}

#[test]
fn wrong_token_rejected_silently() {
    let secret = b"s3cret".to_vec();
    let rec = hello_with_sni(b"example.com");
    let mut session = TlsSession::new();
    assert!(session.on_token(vec![b'a'; HASH_LENGTH]).is_ok());
    match session.on_bytes(&rec, &secret) {
        SessionStep::Fail(e) => assert_eq!(e, ProxyError::AuthRejected),
        _ => panic!("a garbage token must be rejected"),
    }
}

#[test]
fn non_utf8_server_name_fails_connection() {
    let secret = b"s3cret".to_vec();
    let rec = hello_with_sni(&[0xff, 0xfe, 0xfd]);
    let mut session = TlsSession::new();
    assert!(session.on_token(vec![b'a'; HASH_LENGTH]).is_ok());
    match session.on_bytes(&rec, &secret) {
        SessionStep::Fail(e) => assert_eq!(e, ProxyError::InvalidServerName),
        _ => panic!("a non-UTF-8 server name must fail"),
    }
}

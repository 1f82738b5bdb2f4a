use tk_http::{
    bytes_trim, get_handshake, token_list, HandshakeError, Head, HeaderField, TokenHeader,
};

fn field(name: &str, value: &[u8]) -> HeaderField {
    HeaderField { name: name.as_bytes().to_vec(), value: value.to_vec() }
}

fn head(connection: Option<&str>, headers: Vec<HeaderField>, has_body: bool) -> Head {
    Head {
        connection: connection.map(|c| c.to_string()),
        path: Some("/chat".to_string()),
        headers,
        has_body,
    }
}

fn valid_headers() -> Vec<HeaderField> {
    vec![
        field("Connection", b"keep-alive, Upgrade"),
        field("Upgrade", b"websocket"),
        field("Sec-WebSocket-Version", b"13"),
        field("Sec-WebSocket-Key", b"dGhlIHNhbXBsZSBub25jZQ=="),
    ]
}

fn valid_head() -> Head {
    head(Some("keep-alive, Upgrade"), valid_headers(), false)
}

#[test]
fn valid_request_gives_handshake() {
    let hs = get_handshake(&valid_head()).unwrap().unwrap();
    assert_eq!(hs.accept.key, b"dGhlIHNhbXBsZSBub25jZQ==".to_vec());
    assert!(hs.protocols.is_empty());
    assert!(hs.extensions.is_empty());
}

#[test]
fn key_is_trimmed() {
    let mut h = valid_head();
    h.headers[3] = field("sec-websocket-key", b" \tabc==\r\n");
    let hs = get_handshake(&h).unwrap().unwrap();
    assert_eq!(hs.accept.key, b"abc==".to_vec());
}

#[test]
fn no_connection_header_is_plain_http() {
    let h = head(None, valid_headers(), false);
    assert!(matches!(get_handshake(&h), Ok(None)));
}

#[test]
fn connection_without_upgrade_is_plain_http() {
    let h = head(Some("keep-alive, upgrades"), valid_headers(), true);
    assert!(matches!(get_handshake(&h), Ok(None)));
}

#[test]
fn connection_token_case_and_space() {
    let h = head(Some("close ,  UPGRADE  "), valid_headers(), false);
    assert!(matches!(get_handshake(&h), Ok(Some(_))));
}

#[test]
fn other_upgrade_protocol_is_plain_http() {
    let mut h = valid_head();
    h.headers[1] = field("Upgrade", b"h2c");
    assert!(matches!(get_handshake(&h), Ok(None)));
}

#[test]
fn upgrade_value_any_case() {
    let mut h = valid_head();
    h.headers[1] = field("UPGRADE", b"WebSocket");
    assert!(matches!(get_handshake(&h), Ok(Some(_))));
}

#[test]
fn missing_target_is_rejected() {
    let mut h = valid_head();
    h.path = None;
    assert!(matches!(get_handshake(&h), Err(HandshakeError::InvalidTarget)));
}

#[test]
fn duplicate_key_is_rejected() {
    let mut h = valid_head();
    h.headers.push(field("Sec-WebSocket-Key", b"dGhlIHNhbXBsZSBub25jZQ=="));
    assert!(matches!(get_handshake(&h), Err(HandshakeError::DuplicateKey)));
}

#[test]
fn version_8_is_rejected_with_value() {
    let mut h = valid_head();
    h.headers[2] = field("Sec-WebSocket-Version", b"8");
    match get_handshake(&h) {
        Err(HandshakeError::UnsupportedVersion(v)) => assert_eq!(v, b"8".to_vec()),
        other => panic!("unexpected {:?}", other.map(|o| o.is_some())),
    }
}

#[test]
fn version_with_spaces_is_accepted() {
    let mut h = valid_head();
    h.headers[2] = field("sec-websocket-version", b" 13\r\n");
    assert!(matches!(get_handshake(&h), Ok(Some(_))));
}

#[test]
fn protocols_accumulate_in_order() {
    let mut h = valid_head();
    h.headers.push(field("Sec-WebSocket-Protocol", b"chat, ,superchat"));
    h.headers.push(field("Sec-WebSocket-Protocol", b"binary"));
    h.headers.push(field("Sec-WebSocket-Extensions", b"permessage-deflate, x-ext,,"));
    let hs = get_handshake(&h).unwrap().unwrap();
    assert_eq!(hs.protocols, vec!["chat", "superchat", "binary"]);
    assert_eq!(hs.extensions, vec!["permessage-deflate", "x-ext"]);
}

#[test]
fn bad_utf8_protocol_is_rejected() {
    let mut h = valid_head();
    h.headers.push(field("Sec-WebSocket-Protocol", b"chat, \xff"));
    assert!(matches!(
        get_handshake(&h),
        Err(HandshakeError::InvalidEncoding(TokenHeader::Protocol))
    ));
}

#[test]
fn bad_utf8_extensions_is_rejected() {
    let mut h = valid_head();
    h.headers.push(field("Sec-WebSocket-Extensions", b"\xc3\x28"));
    assert!(matches!(
        get_handshake(&h),
        Err(HandshakeError::InvalidEncoding(TokenHeader::Extensions))
    ));
}

#[test]
fn body_is_rejected() {
    let h = head(Some("Upgrade"), valid_headers(), true);
    assert!(matches!(get_handshake(&h), Err(HandshakeError::UnexpectedBody)));
}

#[test]
fn missing_upgrade_is_rejected() {
    let mut h = valid_head();
    h.headers.remove(1);
    assert!(matches!(get_handshake(&h), Err(HandshakeError::MissingUpgrade)));
}

#[test]
fn missing_key_is_rejected() {
    let mut h = valid_head();
    h.headers.remove(3);
    assert!(matches!(get_handshake(&h), Err(HandshakeError::MissingRequiredHeaders)));
}

#[test]
fn missing_version_is_rejected() {
    let mut h = valid_head();
    h.headers.remove(2);
    assert!(matches!(get_handshake(&h), Err(HandshakeError::MissingRequiredHeaders)));
}

#[test]
fn trims_http_whitespace_only() {
    assert_eq!(bytes_trim(b"\r\n \tab c\t \r\n"), b"ab c".to_vec());
    assert_eq!(bytes_trim(b" \t "), Vec::<u8>::new());
    assert_eq!(bytes_trim(b""), Vec::<u8>::new());
    assert_eq!(bytes_trim(b"\x0bx\x0b"), b"\x0bx\x0b".to_vec());
}

#[test]
fn token_list_drops_empty_pieces() {
    assert_eq!(token_list("chat, ,superchat"), vec!["chat", "superchat"]);
    assert_eq!(token_list(""), Vec::<String>::new());
    assert_eq!(token_list(" , ,"), Vec::<String>::new());
    assert_eq!(token_list("a,a, a "), vec!["a", "a", "a"]);
    assert_eq!(token_list("\u{a0}x\u{3000},y"), vec!["x", "y"]);
}

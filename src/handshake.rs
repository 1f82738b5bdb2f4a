//! The WebSocket opening-handshake check on an HTTP request head.

use crate::text::{
    bytes_trim, decode_text, eq_ignore_case, has_upgrade_token, lists_upgrade, same_ignoring_case,
    texts, token_list, tokens_of, trim_bytes, upgrade_word,
};
use vstd::prelude::*;
use vstd::utf8::{decode_utf8, valid_utf8};

verus! {

/// One header of a request, name and value as raw bytes.
pub struct HeaderField {
    pub name: Vec<u8>,
    pub value: Vec<u8>,
}

/// What the handshake check reads of an HTTP request head.
pub struct Head {
    /// The value of the `Connection` header, if there is one.
    pub connection: Option<String>,
    /// The request target; `None` where the request line was invalid.
    pub path: Option<String>,
    /// Every header, in the order received.
    pub headers: Vec<HeaderField>,
    /// Whether a message body follows the head.
    pub has_body: bool,
}

/// The client's `Sec-WebSocket-Key`, trimmed: the input from which the
/// `Sec-WebSocket-Accept` value of the response is derived.
pub struct Accept {
    pub key: Vec<u8>,
}

/// Contains all the important parts of a websocket handshake.
pub struct WebsocketHandshake {
    /// The source of the `Sec-WebSocket-Accept` value.
    pub accept: Accept,
    /// List of `Sec-WebSocket-Protocol` tokens.
    pub protocols: Vec<String>,
    /// List of `Sec-WebSocket-Extensions` tokens.
    pub extensions: Vec<String>,
}

/// The headers whose values are comma-separated token lists.
#[derive(Clone, Copy, Debug, PartialEq, Eq, Structural)]
pub enum TokenHeader {
    Protocol,
    Extensions,
}

/// Why a request that asks for a WebSocket upgrade is refused.
#[derive(Debug)]
pub enum HandshakeError {
    /// The request target is missing or invalid.
    InvalidTarget,
    /// `Sec-WebSocket-Key` occurs more than once.
    DuplicateKey,
    /// `Sec-WebSocket-Version` is not `13`; holds the value received.
    UnsupportedVersion(Vec<u8>),
    /// A token-list header is not valid UTF-8.
    InvalidEncoding(TokenHeader),
    /// The request carries a body.
    UnexpectedBody,
    /// No `Upgrade: websocket` header.
    MissingUpgrade,
    /// No `Sec-WebSocket-Version` or no `Sec-WebSocket-Key`.
    MissingRequiredHeaders,
}

/// A refusal, with the value received as a sequence of bytes.
pub enum Rejection {
    InvalidTarget,
    DuplicateKey,
    UnsupportedVersion(Seq<u8>),
    InvalidEncoding(TokenHeader),
    UnexpectedBody,
    MissingUpgrade,
    MissingRequiredHeaders,
}

impl View for HandshakeError {
    type V = Rejection;

    open spec fn view(&self) -> Rejection {
        match self {
            HandshakeError::InvalidTarget => Rejection::InvalidTarget,
            HandshakeError::DuplicateKey => Rejection::DuplicateKey,
            HandshakeError::UnsupportedVersion(v) => Rejection::UnsupportedVersion(v@),
            HandshakeError::InvalidEncoding(h) => Rejection::InvalidEncoding(*h),
            HandshakeError::UnexpectedBody => Rejection::UnexpectedBody,
            HandshakeError::MissingUpgrade => Rejection::MissingUpgrade,
            HandshakeError::MissingRequiredHeaders => Rejection::MissingRequiredHeaders,
        }
    }
}

/// A handshake as values: the trimmed key and the two token lists.
pub struct HandshakeModel {
    pub key: Seq<u8>,
    pub protocols: Seq<Seq<char>>,
    pub extensions: Seq<Seq<char>>,
}

impl View for WebsocketHandshake {
    type V = HandshakeModel;

    open spec fn view(&self) -> HandshakeModel {
        HandshakeModel {
            key: self.accept.key@,
            protocols: texts(self.protocols@),
            extensions: texts(self.extensions@),
        }
    }
}

/// `sec-websocket-key`
pub open spec fn key_name() -> Seq<u8> {
    seq![115u8, 101u8, 99u8, 45u8, 119u8, 101u8, 98u8, 115u8, 111u8, 99u8, 107u8, 101u8, 116u8,
        45u8, 107u8, 101u8, 121u8]
}

/// `sec-websocket-version`
pub open spec fn version_name() -> Seq<u8> {
    seq![115u8, 101u8, 99u8, 45u8, 119u8, 101u8, 98u8, 115u8, 111u8, 99u8, 107u8, 101u8, 116u8,
        45u8, 118u8, 101u8, 114u8, 115u8, 105u8, 111u8, 110u8]
}

/// `sec-websocket-protocol`
pub open spec fn protocol_name() -> Seq<u8> {
    seq![115u8, 101u8, 99u8, 45u8, 119u8, 101u8, 98u8, 115u8, 111u8, 99u8, 107u8, 101u8, 116u8,
        45u8, 112u8, 114u8, 111u8, 116u8, 111u8, 99u8, 111u8, 108u8]
}

/// `sec-websocket-extensions`
pub open spec fn extensions_name() -> Seq<u8> {
    seq![115u8, 101u8, 99u8, 45u8, 119u8, 101u8, 98u8, 115u8, 111u8, 99u8, 107u8, 101u8, 116u8,
        45u8, 101u8, 120u8, 116u8, 101u8, 110u8, 115u8, 105u8, 111u8, 110u8, 115u8]
}

/// `websocket`
pub open spec fn websocket_word() -> Seq<u8> {
    seq![119u8, 101u8, 98u8, 115u8, 111u8, 99u8, 107u8, 101u8, 116u8]
}

/// `13`, the one protocol version supported.
pub open spec fn version_13() -> Seq<u8> {
    seq![49u8, 51u8]
}

/// The headers that the handshake check reads.
#[derive(Clone, Copy, Debug, PartialEq, Eq, Structural)]
pub enum HeaderKind {
    Key,
    Version,
    Protocol,
    Extensions,
    Upgrade,
    Other,
}

/// Which header `name` is, its letters compared without regard to case.
pub open spec fn kind_of(name: Seq<u8>) -> HeaderKind {
    if same_ignoring_case(name, key_name()) {
        HeaderKind::Key
    } else if same_ignoring_case(name, version_name()) {
        HeaderKind::Version
    } else if same_ignoring_case(name, protocol_name()) {
        HeaderKind::Protocol
    } else if same_ignoring_case(name, extensions_name()) {
        HeaderKind::Extensions
    } else if same_ignoring_case(name, upgrade_word()) {
        HeaderKind::Upgrade
    } else {
        HeaderKind::Other
    }
}

/// What has been gathered from the headers read so far.
pub struct Scan {
    pub key: Option<Seq<u8>>,
    pub version: bool,
    pub upgrade: bool,
    pub protocols: Seq<Seq<char>>,
    pub extensions: Seq<Seq<char>>,
}

/// Where reading the headers stands.
pub enum ScanStep {
    /// All headers so far are acceptable.
    Going(Scan),
    /// An `Upgrade` header names another protocol.
    NotWebsocket,
    /// A header makes the request unacceptable.
    Rejected(Rejection),
}

/// Nothing gathered yet.
pub open spec fn initial_scan() -> Scan {
    Scan {
        key: None,
        version: false,
        upgrade: false,
        protocols: Seq::empty(),
        extensions: Seq::empty(),
    }
}

/// The effect of one header on what has been gathered.
pub open spec fn scan_step(st: Scan, name: Seq<u8>, value: Seq<u8>) -> ScanStep {
    match kind_of(name) {
        HeaderKind::Key => if st.key is Some {
            ScanStep::Rejected(Rejection::DuplicateKey)
        } else {
            ScanStep::Going(Scan { key: Some(trim_bytes(value)), ..st })
        },
        HeaderKind::Version => if trim_bytes(value) != version_13() {
            ScanStep::Rejected(Rejection::UnsupportedVersion(value))
        } else {
            ScanStep::Going(Scan { version: true, ..st })
        },
        HeaderKind::Protocol => if !valid_utf8(value) {
            ScanStep::Rejected(Rejection::InvalidEncoding(TokenHeader::Protocol))
        } else {
            ScanStep::Going(
                Scan { protocols: st.protocols + tokens_of(decode_utf8(value)), ..st },
            )
        },
        HeaderKind::Extensions => if !valid_utf8(value) {
            ScanStep::Rejected(Rejection::InvalidEncoding(TokenHeader::Extensions))
        } else {
            ScanStep::Going(
                Scan { extensions: st.extensions + tokens_of(decode_utf8(value)), ..st },
            )
        },
        HeaderKind::Upgrade => if !same_ignoring_case(trim_bytes(value), websocket_word()) {
            ScanStep::NotWebsocket
        } else {
            ScanStep::Going(Scan { upgrade: true, ..st })
        },
        HeaderKind::Other => ScanStep::Going(st),
    }
}

/// Reading the headers `hs` in order, up to the first that decides.
pub open spec fn scan_headers(hs: Seq<(Seq<u8>, Seq<u8>)>) -> ScanStep
    decreases hs.len(),
{
    if hs.len() == 0 {
        ScanStep::Going(initial_scan())
    } else {
        match scan_headers(hs.drop_last()) {
            ScanStep::Going(st) => scan_step(st, hs.last().0, hs.last().1),
            other => other,
        }
    }
}

/// The headers of a request as name and value byte sequences.
pub open spec fn headers_view(hs: Seq<HeaderField>) -> Seq<(Seq<u8>, Seq<u8>)> {
    hs.map_values(|h: HeaderField| (h.name@, h.value@))
}

/// The `Connection` header lists the `upgrade` token.
pub open spec fn asks_upgrade(req: Head) -> bool {
    req.connection matches Some(c) && lists_upgrade(c@)
}

/// The outcome of the handshake check on `req`: `Ok(None)` where it is not a
/// WebSocket request, the handshake where it is an acceptable one, and the
/// reason of refusal otherwise.
pub open spec fn handshake_outcome(req: Head) -> Result<Option<HandshakeModel>, Rejection> {
    if !asks_upgrade(req) {
        Ok(None)
    } else if req.path is None {
        Err(Rejection::InvalidTarget)
    } else {
        match scan_headers(headers_view(req.headers@)) {
            ScanStep::NotWebsocket => Ok(None),
            ScanStep::Rejected(e) => Err(e),
            ScanStep::Going(st) => if req.has_body {
                Err(Rejection::UnexpectedBody)
            } else if !st.upgrade {
                Err(Rejection::MissingUpgrade)
            } else if !st.version || st.key is None {
                Err(Rejection::MissingRequiredHeaders)
            } else {
                Ok(
                    Some(
                        HandshakeModel {
                            key: st.key.unwrap(),
                            protocols: st.protocols,
                            extensions: st.extensions,
                        },
                    ),
                )
            },
        }
    }
}

/// The value of a result of [`get_handshake`].
pub open spec fn outcome_view(r: Result<Option<WebsocketHandshake>, HandshakeError>) -> Result<
    Option<HandshakeModel>,
    Rejection,
> {
    match r {
        Ok(Some(h)) => Ok(Some(h@)),
        Ok(None) => Ok(None),
        Err(e) => Err(e@),
    }
}

/// A request whose `Connection` header does not list `upgrade`, or that has
/// no `Connection` header, is plain HTTP, whatever other headers it has.
pub proof fn lemma_no_upgrade_token_is_plain_http(req: Head)
    requires
        !asks_upgrade(req),
    ensures
        handshake_outcome(req) == Ok::<Option<HandshakeModel>, Rejection>(None),
{
}

/// A request that would be an acceptable handshake without its body is
/// refused because of the body.
pub proof fn lemma_body_is_refused(req: Head)
    requires
        req.has_body,
        handshake_outcome(Head { has_body: false, ..req }) is Ok,
        handshake_outcome(Head { has_body: false, ..req }) != Ok::<
            Option<HandshakeModel>,
            Rejection,
        >(None),
    ensures
        handshake_outcome(req) == Err::<Option<HandshakeModel>, Rejection>(
            Rejection::UnexpectedBody,
        ),
{
}

proof fn lemma_scan_decided(hs: Seq<(Seq<u8>, Seq<u8>)>, j: int)
    requires
        0 <= j <= hs.len(),
        !(scan_headers(hs.take(j)) is Going),
    ensures
        scan_headers(hs) == scan_headers(hs.take(j)),
    decreases hs.len() - j,
{
    if j == hs.len() {
        assert(hs.take(j) =~= hs);
    } else {
        assert(hs.take(j + 1).drop_last() =~= hs.take(j));
        lemma_scan_decided(hs, j + 1);
    }
}

fn header_kind(name: &[u8]) -> (k: HeaderKind)
    ensures
        k == kind_of(name@),
{
    let key: [u8; 17] = [115u8, 101u8, 99u8, 45u8, 119u8, 101u8, 98u8, 115u8, 111u8, 99u8, 107u8,
        101u8, 116u8, 45u8, 107u8, 101u8, 121u8];
    let version: [u8; 21] = [115u8, 101u8, 99u8, 45u8, 119u8, 101u8, 98u8, 115u8, 111u8, 99u8,
        107u8, 101u8, 116u8, 45u8, 118u8, 101u8, 114u8, 115u8, 105u8, 111u8, 110u8];
    let protocol: [u8; 22] = [115u8, 101u8, 99u8, 45u8, 119u8, 101u8, 98u8, 115u8, 111u8, 99u8,
        107u8, 101u8, 116u8, 45u8, 112u8, 114u8, 111u8, 116u8, 111u8, 99u8, 111u8, 108u8];
    let extensions: [u8; 24] = [115u8, 101u8, 99u8, 45u8, 119u8, 101u8, 98u8, 115u8, 111u8, 99u8,
        107u8, 101u8, 116u8, 45u8, 101u8, 120u8, 116u8, 101u8, 110u8, 115u8, 105u8, 111u8, 110u8,
        115u8];
    let upgrade: [u8; 7] = [117u8, 112u8, 103u8, 114u8, 97u8, 100u8, 101u8];
    assert(key@ == key_name());
    assert(version@ == version_name());
    assert(protocol@ == protocol_name());
    assert(extensions@ == extensions_name());
    assert(upgrade@ == upgrade_word());
    if eq_ignore_case(name, &key) {
        HeaderKind::Key
    } else if eq_ignore_case(name, &version) {
        HeaderKind::Version
    } else if eq_ignore_case(name, &protocol) {
        HeaderKind::Protocol
    } else if eq_ignore_case(name, &extensions) {
        HeaderKind::Extensions
    } else if eq_ignore_case(name, &upgrade) {
        HeaderKind::Upgrade
    } else {
        HeaderKind::Other
    }
}

/// The key gathered so far, as bytes.
pub open spec fn key_view(k: Option<Vec<u8>>) -> Option<Seq<u8>> {
    match k {
        Some(v) => Some(v@),
        None => None,
    }
}

/// Checks whether `req` is a WebSocket upgrade request and, if so, whether it
/// is an acceptable one.
///
/// Returns `Ok(None)` where the `Connection` header does not list `upgrade`,
/// or an `Upgrade` header names another protocol: the request is plain HTTP.
/// Returns the handshake where the request is a complete and valid WebSocket
/// opening handshake, and the reason of refusal otherwise.
pub fn get_handshake(req: &Head) -> (r: Result<Option<WebsocketHandshake>, HandshakeError>)
    ensures
        outcome_view(r) == handshake_outcome(*req),
{
    let conn_upgrade = match &req.connection {
        Some(c) => has_upgrade_token(c.as_str()),
        None => false,
    };
    if !conn_upgrade {
        return Ok(None);
    }
    if req.path.is_none() {
        return Err(HandshakeError::InvalidTarget);
    }
    let websocket: [u8; 9] = [119u8, 101u8, 98u8, 115u8, 111u8, 99u8, 107u8, 101u8, 116u8];
    assert(websocket@ == websocket_word());
    let mut upgrade = false;
    let mut version = false;
    let mut accept: Option<Vec<u8>> = None;
    let mut protocols: Vec<String> = Vec::new();
    let mut extensions: Vec<String> = Vec::new();
    let ghost hs = headers_view(req.headers@);
    let n = req.headers.len();
    let mut i: usize = 0;
    assert(hs.take(0) =~= Seq::<(Seq<u8>, Seq<u8>)>::empty());
    assert(texts(Seq::<String>::empty()) =~= Seq::<Seq<char>>::empty());
    while i < n
        invariant
            n == req.headers@.len(),
            i <= n,
            hs == headers_view(req.headers@),
            asks_upgrade(*req),
            req.path is Some,
            websocket@ == websocket_word(),
            scan_headers(hs.take(i as int)) == ScanStep::Going(
                Scan {
                    key: key_view(accept),
                    version,
                    upgrade,
                    protocols: texts(protocols@),
                    extensions: texts(extensions@),
                },
            ),
        decreases n - i,
    {
        let h = &req.headers[i];
        assert(hs.take(i + 1).drop_last() =~= hs.take(i as int));
        assert(hs.take(i + 1).last() == (h.name@, h.value@));
        let ghost st = Scan {
            key: key_view(accept),
            version,
            upgrade,
            protocols: texts(protocols@),
            extensions: texts(extensions@),
        };
        assert(scan_headers(hs.take(i + 1)) == scan_step(st, h.name@, h.value@));
        match header_kind(h.name.as_slice()) {
            HeaderKind::Key => {
                if accept.is_some() {
                    proof {
                        lemma_scan_decided(hs, i + 1);
                    }
                    assert(scan_headers(hs.take(i + 1)) == ScanStep::Rejected(
                        Rejection::DuplicateKey,
                    ));
                    return Err(HandshakeError::DuplicateKey);
                }
                accept = Some(bytes_trim(h.value.as_slice()));
            },
            HeaderKind::Version => {
                let t = bytes_trim(h.value.as_slice());
                if !(t.len() == 2 && t[0] == 49u8 && t[1] == 51u8) {
                    assert(t@ != version_13());
                    let bad = h.value.clone();
                    assert(bad@ =~= h.value@);
                    assert(scan_headers(hs.take(i + 1)) == ScanStep::Rejected(
                        Rejection::UnsupportedVersion(h.value@),
                    ));
                    proof {
                        lemma_scan_decided(hs, i + 1);
                    }
                    return Err(HandshakeError::UnsupportedVersion(bad));
                }
                assert(t@ =~= version_13());
                version = true;
            },
            HeaderKind::Protocol => {
                match decode_text(h.value.as_slice()) {
                    None => {
                        proof {
                            lemma_scan_decided(hs, i + 1);
                        }
                        return Err(HandshakeError::InvalidEncoding(TokenHeader::Protocol));
                    },
                    Some(text) => {
                        let mut toks = token_list(text);
                        let ghost before = protocols@;
                        protocols.append(&mut toks);
                        assert(texts(protocols@) =~= texts(before) + tokens_of(text@));
                    },
                }
            },
            HeaderKind::Extensions => {
                match decode_text(h.value.as_slice()) {
                    None => {
                        proof {
                            lemma_scan_decided(hs, i + 1);
                        }
                        return Err(HandshakeError::InvalidEncoding(TokenHeader::Extensions));
                    },
                    Some(text) => {
                        let mut toks = token_list(text);
                        let ghost before = extensions@;
                        extensions.append(&mut toks);
                        assert(texts(extensions@) =~= texts(before) + tokens_of(text@));
                    },
                }
            },
            HeaderKind::Upgrade => {
                let t = bytes_trim(h.value.as_slice());
                if !eq_ignore_case(t.as_slice(), &websocket) {
                    proof {
                        lemma_scan_decided(hs, i + 1);
                    }
                    return Ok(None);
                }
                upgrade = true;
            },
            HeaderKind::Other => {},
        }
        i = i + 1;
    }
    assert(hs.take(n as int) =~= hs);
    if req.has_body {
        return Err(HandshakeError::UnexpectedBody);
    }
    if !upgrade {
        return Err(HandshakeError::MissingUpgrade);
    }
    match accept {
        Some(key) => {
            if !version {
                return Err(HandshakeError::MissingRequiredHeaders);
            }
            Ok(Some(WebsocketHandshake { accept: Accept { key }, protocols, extensions }))
        },
        None => Err(HandshakeError::MissingRequiredHeaders),
    }
}

} // verus!

//! The Chrome native messaging host: message framing and the handling of
//! the messages the extension sends.
use vstd::prelude::*;

use crate::settings::{AppSettings, EXTENSION_ID};
use crate::text::{concat2, str_eq, to_owned};
use crate::urls::{build_player_url, origin, origin_for, player_url};

verus! {

broadcast use vstd::string::group_string_axioms;

// ---------------------------------------------------------------------------
// Framing: a 4-byte little-endian length, then the JSON payload
// ---------------------------------------------------------------------------

/// The little-endian number held by four bytes.
pub open spec fn le_u32(b0: u8, b1: u8, b2: u8, b3: u8) -> int {
    b0 + 256 * b1 + 65536 * b2 + 16777216 * b3
}

/// The payload length announced by a frame header (`u32::from_le_bytes`).
pub fn frame_length(header: [u8; 4]) -> (n: u32)
    ensures
        n == le_u32(header@[0], header@[1], header@[2], header@[3]),
{
    let b0: u32 = header[0] as u32;
    let b1: u32 = header[1] as u32;
    let b2: u32 = header[2] as u32;
    let b3: u32 = header[3] as u32;
    b0 + 256 * b1 + 65536 * b2 + 16777216 * b3
}

/// The four header bytes announcing `len` (taken modulo 2^32, as `as u32` does).
pub open spec fn header_bytes(len: nat) -> Seq<u8> {
    let n = len % 4294967296;
    seq![(n % 256) as u8, ((n / 256) % 256) as u8, ((n / 65536) % 256) as u8, (n / 16777216) as u8]
}

/// A framed response: the length header followed by the payload.
pub fn encode_frame(payload: &Vec<u8>) -> (r: Vec<u8>)
    ensures
        r@ == header_bytes(payload@.len()) + payload@,
{
    let len64: u64 = payload.len() as u64;
    let n: u64 = len64 % 4294967296;
    let mut r: Vec<u8> = Vec::new();
    r.push((n % 256) as u8);
    r.push(((n / 256) % 256) as u8);
    r.push(((n / 65536) % 256) as u8);
    r.push((n / 16777216) as u8);
    let ghost head = r@;
    assert(head =~= header_bytes(payload@.len()));
    let m = payload.len();
    let mut i: usize = 0;
    while i < m
        invariant
            m == payload.len(),
            i <= m,
            r@ == head + payload@.take(i as int),
        decreases m - i,
    {
        r.push(payload[i]);
        assert(payload@.take(i + 1) =~= payload@.take(i as int).push(payload@[i as int]));
        i = i + 1;
    }
    assert(payload@.take(m as int) =~= payload@);
    r
}

/// The number of payload bytes to read after a frame header: `None` for an
/// empty frame, which the host skips.
pub fn payload_to_read(header: [u8; 4]) -> (r: Option<u32>)
    ensures
        r == if le_u32(header@[0], header@[1], header@[2], header@[3]) == 0 {
            None::<u32>
        } else {
            Some(le_u32(header@[0], header@[1], header@[2], header@[3]) as u32)
        },
{
    let n = frame_length(header);
    if n == 0 {
        None
    } else {
        Some(n)
    }
}

/// `String::from_utf8`: succeeds exactly on valid UTF-8, and the string
/// holds the characters the bytes encode.
#[verifier::external_body]
fn utf8_string(bytes: Vec<u8>) -> (r: Result<String, std::string::FromUtf8Error>)
    ensures
        r is Ok <==> vstd::utf8::valid_utf8(bytes@),
        r matches Ok(s) ==> s@ == vstd::utf8::decode_utf8(bytes@),
{
    String::from_utf8(bytes)
}

#[verifier::external_type_specification]
#[verifier::external_body]
pub struct ExFromUtf8Error(std::string::FromUtf8Error);

/// The text of a frame's payload: `None` when it is not UTF-8, in which
/// case the host skips the frame without replying.
pub fn payload_text(payload: Vec<u8>) -> (r: Option<String>)
    ensures
        r is Some <==> vstd::utf8::valid_utf8(payload@),
        r matches Some(s) ==> s@ == vstd::utf8::decode_utf8(payload@),
{
    match utf8_string(payload) {
        Ok(s) => Some(s),
        Err(_) => None,
    }
}

/// Law: reading the header of a framed payload gives back the payload's
/// length (for payloads shorter than 4 GiB), and the payload follows it.
pub proof fn law_frame_roundtrip(payload: Seq<u8>)
    requires
        payload.len() < 4294967296,
    ensures
        ({
            let f = header_bytes(payload.len()) + payload;
            &&& le_u32(f[0], f[1], f[2], f[3]) == payload.len()
            &&& f.subrange(4, f.len() as int) == payload
        }),
{
    let n = payload.len() as int;
    let f = header_bytes(payload.len()) + payload;
    assert(f[0] == (n % 256) as u8);
    assert(f[1] == ((n / 256) % 256) as u8);
    assert(f[2] == ((n / 65536) % 256) as u8);
    assert(f[3] == (n / 16777216) as u8);
    assert(n == n % 256 + 256 * ((n / 256) % 256) + 65536 * ((n / 65536) % 256) + 16777216 * (n
        / 16777216)) by (nonlinear_arith)
        requires
            0 <= n < 4294967296,
    ;
    assert(f.subrange(4, f.len() as int) =~= payload);
}

// ---------------------------------------------------------------------------
// Messages
// ---------------------------------------------------------------------------

/// The string fields of an incoming message that the host reads.
pub struct NativeMessage {
    /// `type`
    pub kind: Option<String>,
    pub uri: Option<String>,
    pub title: Option<String>,
    pub method: Option<String>,
}

/// What an incoming message asks for.
pub enum NativeRequest {
    /// Open an lbry:// address in the extension player.
    OpenUri { uri: String, title: Option<String> },
    /// `open-lbry-uri` without an address.
    MissingUri,
    /// Hand out the RPC credentials.
    Credentials,
    /// Forward a JSON-RPC call to lbrynet.
    Proxy { method: String },
    Ping,
    Unknown,
}

/// The view of an optional string.
pub open spec fn opt_view(o: Option<String>) -> Option<Seq<char>> {
    match o {
        Some(s) => Some(s@),
        None => None,
    }
}

/// The message type as written by the extension.
pub open spec fn kind_is(m: NativeMessage, k: Seq<char>) -> bool {
    m.kind matches Some(s) && s@ == k
}

fn opt_clone(o: &Option<String>) -> (r: Option<String>)
    ensures
        r == *o,
{
    match o {
        Some(s) => Some(s.clone()),
        None => None,
    }
}

/// Reads what a message asks for from its `type` field.
pub fn classify_message(msg: &NativeMessage) -> (r: NativeRequest)
    ensures
        kind_is(*msg, "open-lbry-uri"@) ==> match msg.uri {
            Some(u) => r matches NativeRequest::OpenUri { uri, title } && uri@ == u@ && title
                == msg.title,
            None => r is MissingUri,
        },
        kind_is(*msg, "get-rpc-credentials"@) ==> r is Credentials,
        kind_is(*msg, "rpc_call"@) ==> (r matches NativeRequest::Proxy { method } && method@ == (
        match msg.method {
            Some(m) => m@,
            None => Seq::<char>::empty(),
        })),
        kind_is(*msg, "ping"@) ==> r is Ping,
        !kind_is(*msg, "open-lbry-uri"@) && !kind_is(*msg, "get-rpc-credentials"@) && !kind_is(
            *msg,
            "rpc_call"@,
        ) && !kind_is(*msg, "ping"@) ==> r is Unknown,
{
    proof {
        reveal_strlit("open-lbry-uri");
        reveal_strlit("get-rpc-credentials");
        reveal_strlit("rpc_call");
        reveal_strlit("ping");
        assert("open-lbry-uri"@.len() == 13);
        assert("get-rpc-credentials"@.len() == 19);
        assert("rpc_call"@.len() == 8);
        assert("ping"@.len() == 4);
    }
    match &msg.kind {
        Some(k) => {
            let k = k.as_str();
            if str_eq(k, "open-lbry-uri") {
                match &msg.uri {
                    Some(u) => NativeRequest::OpenUri { uri: u.clone(), title: opt_clone(&msg.title) },
                    None => NativeRequest::MissingUri,
                }
            } else if str_eq(k, "get-rpc-credentials") {
                NativeRequest::Credentials
            } else if str_eq(k, "rpc_call") {
                let method = match &msg.method {
                    Some(m) => m.clone(),
                    None => String::new(),
                };
                NativeRequest::Proxy { method }
            } else if str_eq(k, "ping") {
                NativeRequest::Ping
            } else {
                NativeRequest::Unknown
            }
        },
        None => NativeRequest::Unknown,
    }
}

/// Whether answering the request needs the stored settings.
pub fn needs_settings(r: &NativeRequest) -> (b: bool)
    ensures
        b == (r is OpenUri || r is Credentials || r is Proxy),
{
    match r {
        NativeRequest::OpenUri { .. } => true,
        NativeRequest::Credentials => true,
        NativeRequest::Proxy { .. } => true,
        _ => false,
    }
}

/// A reply sent back to the extension.
pub enum NativeReply {
    /// `{"success": true}`
    Success,
    /// `{"success": false, "error": ...}`
    Failure(String),
    /// `{"success": true, "user": ..., "pass": ...}`
    Credentials { user: String, pass: String },
    /// `{"success": true, "pong": true}`
    Pong,
    /// `{"error": ...}`
    Error(String),
}

/// Prefix of the reply to a payload that is not valid JSON.
pub const MSG_INVALID_JSON: &'static str = "invalid json: ";

/// Prefix of the reply when forwarding a call to lbrynet fails.
pub const MSG_PROXY_FAILED: &'static str = "proxy request failed: ";

/// Reply when lbrynet's answer to a forwarded call is not JSON.
pub const MSG_INVALID_PROXY_RESPONSE: &'static str = "invalid response from lbrynet";

/// The reply to a payload that is not valid JSON; `detail` is the parser's
/// message.
pub fn invalid_json_reply(detail: &str) -> (r: NativeReply)
    ensures
        r matches NativeReply::Error(m) && m@ == MSG_INVALID_JSON@ + detail@,
{
    NativeReply::Error(concat2(MSG_INVALID_JSON, detail))
}

/// The reply when forwarding a call fails; `detail` describes the failure.
pub fn proxy_failure_reply(detail: &str) -> (r: NativeReply)
    ensures
        r matches NativeReply::Error(m) && m@ == MSG_PROXY_FAILED@ + detail@,
{
    NativeReply::Error(concat2(MSG_PROXY_FAILED, detail))
}

/// The reply when lbrynet answers a forwarded call with something that is
/// not JSON.
pub fn invalid_proxy_response_reply() -> (r: NativeReply)
    ensures
        r matches NativeReply::Error(m) && m@ == MSG_INVALID_PROXY_RESPONSE@,
{
    NativeReply::Error(to_owned(MSG_INVALID_PROXY_RESPONSE))
}

/// A JSON-RPC call to forward to lbrynet with the companion's credentials.
pub struct ProxyRequest {
    /// The `Origin` header.
    pub origin: String,
    pub user: String,
    pub pass: String,
    pub method: String,
}

/// What the host does for a request.
pub enum NativeAction {
    /// Open this URL in the browser, then reply `Success`.
    Open { url: String },
    /// Reply at once.
    Reply(NativeReply),
    /// Forward the call and reply with lbrynet's answer.
    Proxy(ProxyRequest),
}

/// Failure text when the request lacks an address.
pub const MSG_MISSING_URI: &'static str = "missing uri";

/// Failure text when no credentials are stored.
pub const MSG_NO_CREDENTIALS: &'static str = "credentials not available";

/// Failure text when a call cannot be forwarded for lack of credentials.
pub const MSG_NO_PROXY_CREDENTIALS: &'static str = "credentials not available for proxy";

/// Failure text for an unrecognised message.
pub const MSG_UNKNOWN: &'static str = "unknown message type";

/// Stored credentials are usable when both parts are non-empty.
pub open spec fn has_credentials(s: Option<AppSettings>) -> bool {
    s matches Some(st) && st.rpcuser@.len() > 0 && st.rpcpass@.len() > 0
}

/// Decides how to answer `request`, given the stored settings (or `None`
/// when they could not be read). The stored extension ID, as it is, names
/// the player page and the proxy's `Origin`; without settings the player
/// page is the published extension's.
pub fn plan_native(request: NativeRequest, settings: Option<&AppSettings>) -> (a: NativeAction)
    ensures
        request matches NativeRequest::OpenUri { uri, title } ==> a matches NativeAction::Open {
            url,
        } && url@ == player_url(
            match settings {
                Some(s) => s.revivel_extension_id@,
                None => EXTENSION_ID@,
            },
            uri@,
            opt_view(title),
        ),
        request is MissingUri ==> (a matches NativeAction::Reply(NativeReply::Failure(m)) && m@
            == MSG_MISSING_URI@),
        request is Credentials ==> if has_credentials(
            match settings {
                Some(s) => Some(*s),
                None => None,
            },
        ) {
            a matches NativeAction::Reply(NativeReply::Credentials { user, pass }) && user@
                == settings.unwrap().rpcuser@ && pass@ == settings.unwrap().rpcpass@
        } else {
            a matches NativeAction::Reply(NativeReply::Failure(m)) && m@ == MSG_NO_CREDENTIALS@
        },
        request matches NativeRequest::Proxy { method } ==> if has_credentials(
            match settings {
                Some(s) => Some(*s),
                None => None,
            },
        ) {
            a matches NativeAction::Proxy(p) && p.origin@ == origin(
                settings.unwrap().revivel_extension_id@,
            ) && p.user@ == settings.unwrap().rpcuser@ && p.pass@ == settings.unwrap().rpcpass@
                && p.method@ == method@
        } else {
            a matches NativeAction::Reply(NativeReply::Failure(m)) && m@
                == MSG_NO_PROXY_CREDENTIALS@
        },
        request is Ping ==> a matches NativeAction::Reply(NativeReply::Pong),
        request is Unknown ==> (a matches NativeAction::Reply(NativeReply::Failure(m)) && m@
            == MSG_UNKNOWN@),
{
    match request {
        NativeRequest::OpenUri { uri, title } => {
            let url = match settings {
                Some(s) => {
                    let t = match &title {
                        Some(t) => Some(t.as_str()),
                        None => None,
                    };
                    build_player_url(s.revivel_extension_id.as_str(), uri.as_str(), t)
                },
                None => {
                    let t = match &title {
                        Some(t) => Some(t.as_str()),
                        None => None,
                    };
                    build_player_url(EXTENSION_ID, uri.as_str(), t)
                },
            };
            NativeAction::Open { url }
        },
        NativeRequest::MissingUri => NativeAction::Reply(
            NativeReply::Failure(to_owned(MSG_MISSING_URI)),
        ),
        NativeRequest::Credentials => {
            match settings {
                Some(s) => {
                    if !s.rpcuser.as_str().is_empty() && !s.rpcpass.as_str().is_empty() {
                        return NativeAction::Reply(
                            NativeReply::Credentials { user: s.rpcuser.clone(), pass: s.rpcpass.clone() },
                        );
                    }
                },
                None => {},
            }
            NativeAction::Reply(NativeReply::Failure(to_owned(MSG_NO_CREDENTIALS)))
        },
        NativeRequest::Proxy { method } => {
            match settings {
                Some(s) => {
                    if !s.rpcuser.as_str().is_empty() && !s.rpcpass.as_str().is_empty() {
                        return NativeAction::Proxy(
                            ProxyRequest {
                                origin: origin_for(s.revivel_extension_id.as_str()),
                                user: s.rpcuser.clone(),
                                pass: s.rpcpass.clone(),
                                method,
                            },
                        );
                    }
                },
                None => {},
            }
            NativeAction::Reply(NativeReply::Failure(to_owned(MSG_NO_PROXY_CREDENTIALS)))
        },
        NativeRequest::Ping => NativeAction::Reply(NativeReply::Pong),
        NativeRequest::Unknown => NativeAction::Reply(NativeReply::Failure(to_owned(MSG_UNKNOWN))),
    }
}

} // verus!

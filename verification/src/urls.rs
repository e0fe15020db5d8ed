//! URLs and origins: the extension player URL for lbry:// addresses, the
//! lbrynet download location, and the origins the native messaging host admits.
use vstd::prelude::*;
use vstd::utf8::encode_utf8;

use crate::settings::EXTENSION_ID;
use crate::text::{has_prefix, push_str, str_chars, starts_with_chars, to_owned, views};

verus! {

broadcast use vstd::string::group_string_axioms;

/// The pinned lbrynet release.
pub const LBRYNET_VERSION: &'static str = "0.113.0";

/// Development token that the native messaging host always admits.
pub const DEV_EXTENSION_ID: &'static str = "revivel-companion";

/// Upper-case hexadecimal digits.
pub const HEX_UPPER: [char; 16] = [
    '0', '1', '2', '3', '4', '5', '6', '7', '8', '9', 'A', 'B', 'C', 'D', 'E', 'F',
];

/// Operating systems the companion distinguishes.
#[derive(PartialEq, Eq, Structural, Clone, Copy)]
pub enum Platform {
    Windows,
    MacOs,
    Linux,
}

// ---------------------------------------------------------------------------
// Percent-encoding (urlencoding::encode)
// ---------------------------------------------------------------------------

/// Bytes that `urlencoding::encode` leaves as they are: ASCII alphanumerics
/// and `-`, `.`, `_`, `~`.
pub open spec fn url_safe_byte(b: u8) -> bool {
    (48 <= b && b <= 57) || (65 <= b && b <= 90) || (97 <= b && b <= 122) || b == 45 || b == 46
        || b == 95 || b == 126
}

/// How one byte is written: as itself when safe, else `%` and two upper-case hex digits.
pub open spec fn percent_byte(b: u8) -> Seq<char> {
    if url_safe_byte(b) {
        seq![b as char]
    } else {
        seq!['%', HEX_UPPER@[(b / 16) as int], HEX_UPPER@[(b % 16) as int]]
    }
}

/// Percent-encoding of a byte sequence, byte by byte.
pub open spec fn percent_bytes(bs: Seq<u8>) -> Seq<char>
    decreases bs.len(),
{
    if bs.len() == 0 {
        seq![]
    } else {
        percent_byte(bs[0]) + percent_bytes(bs.drop_first())
    }
}

/// Percent-encoding of the UTF-8 bytes of `s` (`urlencoding::encode`).
pub open spec fn url_encoded(s: Seq<char>) -> Seq<char> {
    percent_bytes(encode_utf8(s))
}

/// `urlencoding::encode`: per its documentation and source, every UTF-8 byte
/// of the input except ASCII alphanumerics and `-_.~` becomes `%XX` with
/// upper-case hex digits; the others are kept.
#[verifier::external_body]
fn percent_encode(s: &str) -> (r: String)
    ensures
        r@ == url_encoded(s@),
{
    urlencoding::encode(s).into_owned()
}

/// Characters that can appear in percent-encoded output.
pub open spec fn encoded_char(c: char) -> bool {
    c == '%' || ('0' <= c && c <= '9') || ('A' <= c && c <= 'Z') || ('a' <= c && c <= 'z') || c
        == '-' || c == '.' || c == '_' || c == '~'
}

proof fn lemma_percent_byte_chars(b: u8)
    ensures
        forall|i: int| 0 <= i < percent_byte(b).len() ==> encoded_char(#[trigger] percent_byte(b)[i]),
{
    if url_safe_byte(b) {
        let c = b as char;
        assert(c as u32 == b as u32);
        assert(encoded_char(c));
        assert(percent_byte(b)[0] == c);
    } else {
        assert(b / 16 < 16 && b % 16 < 16);
        assert forall|k: int| 0 <= k < 16 implies encoded_char(#[trigger] HEX_UPPER@[k]) by {}
    }
}

proof fn lemma_percent_bytes_chars(bs: Seq<u8>)
    ensures
        forall|i: int|
            0 <= i < percent_bytes(bs).len() ==> encoded_char(#[trigger] percent_bytes(bs)[i]),
    decreases bs.len(),
{
    if bs.len() > 0 {
        lemma_percent_byte_chars(bs[0]);
        lemma_percent_bytes_chars(bs.drop_first());
        let a = percent_byte(bs[0]);
        let r = percent_bytes(bs.drop_first());
        assert forall|i: int| 0 <= i < percent_bytes(bs).len() implies encoded_char(
            #[trigger] percent_bytes(bs)[i],
        ) by {
            if i < a.len() {
                assert(percent_bytes(bs)[i] == a[i]);
            } else {
                assert(percent_bytes(bs)[i] == r[i - a.len()]);
            }
        }
    }
}

/// Law: a percent-encoded value consists of unreserved characters and `%`
/// only, so it can never carry `&`, `=`, `?`, `#` or `/` into a query string.
pub proof fn law_encoded_is_query_safe(s: Seq<char>)
    ensures
        forall|i: int| 0 <= i < url_encoded(s).len() ==> encoded_char(#[trigger] url_encoded(s)[i]),
        !url_encoded(s).contains('&'),
        !url_encoded(s).contains('='),
{
    lemma_percent_bytes_chars(encode_utf8(s));
}

/// The value of a hexadecimal digit byte, of either case.
pub open spec fn hex_digit_value(b: u8) -> Option<int> {
    if 48 <= b && b <= 57 {
        Some(b - 48)
    } else if 65 <= b && b <= 70 {
        Some(b - 55)
    } else if 97 <= b && b <= 102 {
        Some(b - 87)
    } else {
        None
    }
}

/// Percent-decoding of bytes: `%` followed by two hex digits gives the byte
/// they spell; every other byte, a lone `%` included, is kept.
pub open spec fn percent_decoded(bs: Seq<u8>) -> Seq<u8>
    decreases bs.len(),
{
    if bs.len() == 0 {
        seq![]
    } else if bs[0] == 37 && bs.len() >= 3 && hex_digit_value(bs[1]) is Some && hex_digit_value(
        bs[2],
    ) is Some {
        seq![(hex_digit_value(bs[1])->Some_0 * 16 + hex_digit_value(bs[2])->Some_0) as u8]
            + percent_decoded(bs.skip(3))
    } else {
        seq![bs[0]] + percent_decoded(bs.drop_first())
    }
}

/// The bytes of a text of ASCII characters, one per character.
pub open spec fn ascii_bytes(cs: Seq<char>) -> Seq<u8> {
    cs.map_values(|c: char| c as u8)
}

proof fn lemma_hex_digit(k: int)
    requires
        0 <= k < 16,
    ensures
        hex_digit_value(HEX_UPPER@[k] as u8) == Some(k),
{
}

proof fn lemma_decode_percent_bytes(bs: Seq<u8>)
    ensures
        percent_decoded(ascii_bytes(percent_bytes(bs))) == bs,
    decreases bs.len(),
{
    if bs.len() > 0 {
        let b = bs[0];
        let p = percent_byte(b);
        let r = percent_bytes(bs.drop_first());
        let x = ascii_bytes(p + r);
        assert(x =~= ascii_bytes(p) + ascii_bytes(r));
        lemma_decode_percent_bytes(bs.drop_first());
        if url_safe_byte(b) {
            assert((b as char) as u8 == b);
            assert(x[0] == b);
            assert(x.drop_first() =~= ascii_bytes(r));
        } else {
            lemma_hex_digit((b / 16) as int);
            lemma_hex_digit((b % 16) as int);
            assert(x[0] == 37);
            assert(x[1] == HEX_UPPER@[(b / 16) as int] as u8);
            assert(x[2] == HEX_UPPER@[(b % 16) as int] as u8);
            assert(x.skip(3) =~= ascii_bytes(r));
            assert(((b / 16) * 16 + b % 16) as u8 == b);
        }
        assert(seq![b] + bs.drop_first() =~= bs);
    }
}

/// Law: percent-decoding the UTF-8 bytes of an encoded value, and reading
/// the result as UTF-8, gives back the value.
pub proof fn law_url_encoding_roundtrip(s: Seq<char>)
    ensures
        vstd::utf8::decode_utf8(percent_decoded(encode_utf8(url_encoded(s)))) == s,
{
    broadcast use vstd::utf8::encode_utf8_decode_utf8;

    let e = url_encoded(s);
    lemma_percent_bytes_chars(encode_utf8(s));
    assert(vstd::utf8::is_ascii_chars(e)) by {
        assert forall|i: int| 0 <= i < e.len() implies '\0' <= #[trigger] e[i] <= '\u{7f}' by {
            assert(encoded_char(e[i]));
        }
    }
    vstd::utf8::is_ascii_chars_encode_utf8(e);
    assert(encode_utf8(e) =~= ascii_bytes(e));
    lemma_decode_percent_bytes(encode_utf8(s));
}

// ---------------------------------------------------------------------------
// Origins and player URLs
// ---------------------------------------------------------------------------

/// The browser origin of an extension.
pub open spec fn origin(id: Seq<char>) -> Seq<char> {
    "chrome-extension://"@ + id + "/"@
}

/// `chrome-extension://{id}/`.
pub fn origin_for(id: &str) -> (r: String)
    ensures
        r@ == origin(id@),
{
    let mut r = to_owned("chrome-extension://");
    push_str(&mut r, id);
    push_str(&mut r, "/");
    r
}

/// The extension ID to use: the configured one, or the published one when
/// none is configured.
pub open spec fn effective_id(id: Seq<char>) -> Seq<char> {
    if id.len() == 0 {
        EXTENSION_ID@
    } else {
        id
    }
}

/// The configured extension ID, or the published one when it is empty.
pub fn effective_extension_id(id: &str) -> (r: String)
    ensures
        r@ == effective_id(id@),
{
    if id.is_empty() {
        to_owned(EXTENSION_ID)
    } else {
        to_owned(id)
    }
}

/// The player page URL for an lbry:// address.
pub open spec fn player_url(id: Seq<char>, uri: Seq<char>, title: Option<Seq<char>>) -> Seq<char> {
    let base = "chrome-extension://"@ + id + "/player.html?uri="@ + url_encoded(uri);
    match title {
        Some(t) => base + "&title="@ + url_encoded(t),
        None => base,
    }
}

/// Builds the extension player URL for `uri`, with the percent-encoded
/// title appended when one is given.
pub fn build_player_url(extension_id: &str, uri: &str, title: Option<&str>) -> (r: String)
    ensures
        r@ == player_url(
            extension_id@,
            uri@,
            match title {
                Some(t) => Some(t@),
                None => None,
            },
        ),
{
    let encoded_uri = percent_encode(uri);
    let mut url = to_owned("chrome-extension://");
    push_str(&mut url, extension_id);
    push_str(&mut url, "/player.html?uri=");
    push_str(&mut url, encoded_uri.as_str());
    match title {
        Some(t) => {
            let encoded_title = percent_encode(t);
            push_str(&mut url, "&title=");
            push_str(&mut url, encoded_title.as_str());
        },
        None => {},
    }
    url
}

/// Law: the player URL opens the extension's player page, and adding a title
/// only appends `&title=...` to the URL built without one.
pub proof fn law_player_url_shape(id: Seq<char>, uri: Seq<char>, t: Seq<char>)
    ensures
        has_prefix(player_url(id, uri, None), origin(id) + "player.html?uri="@),
        player_url(id, uri, Some(t)) == player_url(id, uri, None) + "&title="@ + url_encoded(t),
{
    let p = player_url(id, uri, None);
    let pre = origin(id) + "player.html?uri="@;
    assert(("chrome-extension://"@ + id + "/player.html?uri="@) =~= pre) by {
        reveal_strlit("/player.html?uri=");
        reveal_strlit("/");
        reveal_strlit("player.html?uri=");
    }
    assert(p.subrange(0, pre.len() as int) =~= pre);
}

/// Law: the `uri` parameter of a player URL is the encoded address, it runs
/// to the end of the URL or to the `&` that starts the title, and decoding
/// it gives back the address.
pub proof fn law_player_uri_decodes(id: Seq<char>, uri: Seq<char>, title: Option<Seq<char>>)
    ensures
        ({
            let head = origin(id) + "player.html?uri="@;
            let e = url_encoded(uri);
            let u = player_url(id, uri, title);
            &&& u.subrange(0, head.len() as int) == head
            &&& u.subrange(head.len() as int, (head.len() + e.len()) as int) == e
            &&& !e.contains('&')
            &&& (head.len() + e.len() == u.len() || u[(head.len() + e.len()) as int] == '&')
            &&& vstd::utf8::decode_utf8(percent_decoded(encode_utf8(e))) == uri
        }),
{
    let head = origin(id) + "player.html?uri="@;
    let e = url_encoded(uri);
    let u = player_url(id, uri, title);
    assert(("chrome-extension://"@ + id + "/player.html?uri="@) =~= head) by {
        reveal_strlit("/player.html?uri=");
        reveal_strlit("/");
        reveal_strlit("player.html?uri=");
    }
    law_encoded_is_query_safe(uri);
    law_url_encoding_roundtrip(uri);
    match title {
        Some(t) => {
            reveal_strlit("&title=");
            assert(u =~= head + e + ("&title="@ + url_encoded(t)));
        },
        None => {
            assert(u =~= head + e);
        },
    }
    assert(u.subrange(0, head.len() as int) =~= head);
    assert(u.subrange(head.len() as int, (head.len() + e.len()) as int) =~= e);
}

/// Index of the first argument that is an lbry: address, if any.
pub open spec fn first_lbry_arg(args: Seq<Seq<char>>) -> Option<int> {
    if exists|i: int| 0 <= i < args.len() && #[trigger] has_prefix(args[i], "lbry:"@) {
        Some(
            choose|i: int|
                0 <= i < args.len() && has_prefix(args[i], "lbry:"@) && forall|j: int|
                    0 <= j < i ==> !#[trigger] has_prefix(args[j], "lbry:"@),
        )
    } else {
        None
    }
}

/// Finds the first command-line argument that is an lbry: address.
pub fn find_lbry_arg(args: &Vec<String>) -> (r: Option<usize>)
    ensures
        match r {
            Some(i) => {
                &&& i < args.len()
                &&& has_prefix(args@[i as int]@, "lbry:"@)
                &&& forall|j: int| 0 <= j < i ==> !#[trigger] has_prefix(args@[j]@, "lbry:"@)
            },
            None => forall|j: int| 0 <= j < args.len() ==> !#[trigger] has_prefix(args@[j]@, "lbry:"@),
        },
{
    let prefix = str_chars("lbry:");
    let n = args.len();
    let mut i: usize = 0;
    while i < n
        invariant
            n == args.len(),
            i <= n,
            prefix@ == "lbry:"@,
            forall|j: int| 0 <= j < i ==> !#[trigger] has_prefix(args@[j]@, "lbry:"@),
        decreases n - i,
    {
        let a = str_chars(args[i].as_str());
        if starts_with_chars(&a, &prefix) {
            return Some(i);
        }
        i = i + 1;
    }
    None
}

/// The player URL to open for the command line of a launch (the first
/// lbry: argument wins), if the command line holds an lbry: address; the
/// player page is that of `extension_id`, as given.
pub fn lbry_launch_url(args: &Vec<String>, extension_id: &str) -> (r: Option<String>)
    ensures
        match r {
            Some(u) => exists|i: int|
                0 <= i < args.len() && has_prefix(args@[i]@, "lbry:"@) && (forall|j: int|
                    0 <= j < i ==> !#[trigger] has_prefix(args@[j]@, "lbry:"@)) && u@
                    == player_url(extension_id@, args@[i]@, None),
            None => forall|j: int| 0 <= j < args.len() ==> !#[trigger] has_prefix(args@[j]@, "lbry:"@),
        },
{
    match find_lbry_arg(args) {
        Some(i) => {
            let u = build_player_url(extension_id, args[i].as_str(), None);
            Some(u)
        },
        None => None,
    }
}

// ---------------------------------------------------------------------------
// lbrynet download
// ---------------------------------------------------------------------------

/// Executable name of lbrynet.
pub open spec fn binary_name_spec(p: Platform) -> Seq<char> {
    match p {
        Platform::Windows => "lbrynet.exe"@,
        _ => "lbrynet"@,
    }
}

/// Release asset that holds lbrynet.
pub open spec fn platform_asset_spec(p: Platform) -> Seq<char> {
    match p {
        Platform::Windows => "lbrynet-windows.zip"@,
        Platform::MacOs => "lbrynet-mac.zip"@,
        Platform::Linux => "lbrynet-linux.zip"@,
    }
}

/// File name of the lbrynet executable.
pub fn binary_name(p: Platform) -> (r: &'static str)
    ensures
        r@ == binary_name_spec(p),
{
    match p {
        Platform::Windows => "lbrynet.exe",
        _ => "lbrynet",
    }
}

/// Name of the release asset for `p`.
pub fn platform_asset(p: Platform) -> (r: &'static str)
    ensures
        r@ == platform_asset_spec(p),
{
    match p {
        Platform::Windows => "lbrynet-windows.zip",
        Platform::MacOs => "lbrynet-mac.zip",
        Platform::Linux => "lbrynet-linux.zip",
    }
}

/// Where the pinned lbrynet release for `p` is downloaded from.
pub fn download_url(p: Platform) -> (r: String)
    ensures
        r@ == "https://github.com/lbryio/lbry-sdk/releases/download/v"@ + LBRYNET_VERSION@ + "/"@
            + platform_asset_spec(p),
{
    let mut r = to_owned("https://github.com/lbryio/lbry-sdk/releases/download/v");
    push_str(&mut r, LBRYNET_VERSION);
    push_str(&mut r, "/");
    push_str(&mut r, platform_asset(p));
    r
}

// ---------------------------------------------------------------------------
// Native messaging host registration
// ---------------------------------------------------------------------------

/// Origins that are always admitted.
pub open spec fn known_origins() -> Seq<Seq<char>> {
    seq![origin(EXTENSION_ID@), origin(DEV_EXTENSION_ID@)]
}

/// Origins written into the native messaging manifest: the known ones, and
/// the configured extension's origin when one is configured and not known yet.
pub open spec fn host_origins(configured: Seq<char>) -> Seq<Seq<char>> {
    if configured.len() == 0 || known_origins().contains(origin(configured)) {
        known_origins()
    } else {
        known_origins().push(origin(configured))
    }
}

/// Computes the origins admitted by the native messaging manifest.
pub fn allowed_origins(configured_id: &str) -> (r: Vec<String>)
    ensures
        views(r@) == host_origins(configured_id@),
{
    let mut allowed: Vec<String> = Vec::new();
    allowed.push(origin_for(EXTENSION_ID));
    allowed.push(origin_for(DEV_EXTENSION_ID));
    assert(views(allowed@) =~= known_origins());
    if !configured_id.is_empty() {
        let configured = origin_for(configured_id);
        let known = configured == allowed[0] || configured == allowed[1];
        proof {
            if known_origins().contains(origin(configured_id@)) {
                let k = choose|k: int|
                    0 <= k < known_origins().len() && known_origins()[k] == origin(configured_id@);
                assert(k == 0 || k == 1);
            }
            if known {
                assert(known_origins().contains(origin(configured_id@))) by {
                    if configured@ == allowed@[0]@ {
                        assert(known_origins()[0] == origin(configured_id@));
                    } else {
                        assert(known_origins()[1] == origin(configured_id@));
                    }
                }
            }
        }
        if !known {
            allowed.push(configured);
            assert(views(allowed@) =~= known_origins().push(origin(configured_id@)));
        }
    }
    allowed
}

/// Law: the published extension and the development token are always
/// admitted, the configured extension is admitted whenever one is set, and no
/// origin is listed twice.
pub proof fn law_host_origins(configured: Seq<char>)
    ensures
        host_origins(configured).contains(origin(EXTENSION_ID@)),
        host_origins(configured).contains(origin(DEV_EXTENSION_ID@)),
        configured.len() > 0 ==> host_origins(configured).contains(origin(configured)),
        host_origins(configured).no_duplicates(),
{
    reveal_strlit("mphijnbejfkmcahhjlchcghmjegoefkf");
    reveal_strlit("revivel-companion");
    reveal_strlit("chrome-extension://");
    let k = known_origins();
    assert(k[0] != k[1]) by {
        assert(origin(EXTENSION_ID@)[19] != origin(DEV_EXTENSION_ID@)[19]);
    }
    assert(host_origins(configured)[0] == origin(EXTENSION_ID@));
    assert(host_origins(configured)[1] == origin(DEV_EXTENSION_ID@));
    if configured.len() > 0 && !k.contains(origin(configured)) {
        assert(host_origins(configured)[2] == origin(configured));
    }
}

/// Name under which the native messaging host registers.
pub const HOST_NAME: &'static str = "revivel_companion";

/// What the native messaging manifest declares.
pub struct HostManifest {
    pub name: String,
    pub description: String,
    pub path: String,
    pub kind: String,
    pub allowed_origins: Vec<String>,
}

/// The native messaging manifest for the executable at `exe_path`.
pub fn host_manifest(exe_path: &str, configured_id: &str) -> (m: HostManifest)
    ensures
        m.name@ == HOST_NAME@,
        m.description@ == "ReviveL Companion native messaging host"@,
        m.path@ == exe_path@,
        m.kind@ == "stdio"@,
        views(m.allowed_origins@) == host_origins(configured_id@),
{
    HostManifest {
        name: to_owned(HOST_NAME),
        description: to_owned("ReviveL Companion native messaging host"),
        path: to_owned(exe_path),
        kind: to_owned("stdio"),
        allowed_origins: allowed_origins(configured_id),
    }
}

/// Browser profile directories (relative to the platform base directory)
/// that receive the manifest.
pub open spec fn manifest_browsers_spec(p: Platform) -> Seq<Seq<char>> {
    match p {
        Platform::MacOs => seq!["Google/Chrome"@, "BraveSoftware/Brave-Browser"@],
        Platform::Linux => seq!["google-chrome"@, "BraveSoftware/Brave-Browser"@],
        Platform::Windows => seq!["Google\\Chrome"@, "BraveSoftware\\Brave-Browser"@],
    }
}

/// The browsers whose native messaging directories receive the manifest.
pub fn manifest_browsers(p: Platform) -> (r: Vec<String>)
    ensures
        views(r@) == manifest_browsers_spec(p),
{
    let mut r: Vec<String> = Vec::new();
    match p {
        Platform::MacOs => {
            r.push(to_owned("Google/Chrome"));
            r.push(to_owned("BraveSoftware/Brave-Browser"));
        },
        Platform::Linux => {
            r.push(to_owned("google-chrome"));
            r.push(to_owned("BraveSoftware/Brave-Browser"));
        },
        Platform::Windows => {
            r.push(to_owned("Google\\Chrome"));
            r.push(to_owned("BraveSoftware\\Brave-Browser"));
        },
    }
    assert(views(r@) =~= manifest_browsers_spec(p));
    r
}

/// `s` with every `\\` pair collapsed to one backslash, left to right
/// (`str::replace("\\\\", "\\")`).
pub open spec fn collapse_backslashes(s: Seq<char>) -> Seq<char>
    decreases s.len(),
{
    if s.len() >= 2 && s[0] == '\\' && s[1] == '\\' {
        seq!['\\'] + collapse_backslashes(s.skip(2))
    } else if s.len() >= 1 {
        seq![s[0]] + collapse_backslashes(s.skip(1))
    } else {
        seq![]
    }
}

/// Collapses doubled backslashes.
pub fn collapse_backslashes_exec(s: &str) -> (r: String)
    ensures
        r@ == collapse_backslashes(s@),
{
    let v = str_chars(s);
    let n = v.len();
    let mut out: Vec<char> = Vec::new();
    let mut i: usize = 0;
    assert(v@.skip(0) =~= v@);
    while i < n
        invariant
            n == v.len(),
            i <= n,
            collapse_backslashes(v@) == out@ + collapse_backslashes(v@.skip(i as int)),
        decreases n - i,
    {
        let ghost rest = v@.skip(i as int);
        if i + 1 < n && v[i] == '\\' && v[i + 1] == '\\' {
            out.push('\\');
            assert(rest.skip(2) =~= v@.skip(i + 2));
            i = i + 2;
        } else {
            out.push(v[i]);
            assert(rest.skip(1) =~= v@.skip(i + 1));
            i = i + 1;
        }
    }
    assert(v@.skip(n as int) =~= Seq::<char>::empty());
    let mut r = String::new();
    crate::text::push_chars(&mut r, &out);
    r
}

/// The registry key that points Windows browsers to the manifest.
pub fn registry_key(browser: &str) -> (r: String)
    ensures
        r@ == "Software\\"@ + collapse_backslashes(browser@) + "\\NativeMessagingHosts\\revivel_companion"@,
{
    let mut r = to_owned("Software\\");
    let b = collapse_backslashes_exec(browser);
    push_str(&mut r, b.as_str());
    push_str(&mut r, "\\NativeMessagingHosts\\revivel_companion");
    r
}

} // verus!

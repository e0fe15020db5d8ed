use revivel_companion::native::{
    classify_message, encode_frame, frame_length, invalid_json_reply, invalid_proxy_response_reply,
    needs_settings, payload_text, payload_to_read, plan_native, proxy_failure_reply, NativeAction,
    NativeMessage, NativeReply, NativeRequest,
};
use revivel_companion::settings::AppSettings;
use revivel_companion::urls::{
    allowed_origins, binary_name, build_player_url, download_url, effective_extension_id,
    host_manifest, lbry_launch_url, manifest_browsers, origin_for, platform_asset, registry_key,
    Platform,
};

fn strings(v: &[&str]) -> Vec<String> {
    v.iter().map(|s| s.to_string()).collect()
}

fn settings(ext: &str, user: &str, pass: &str) -> AppSettings {
    AppSettings {
        auto_start_daemon: true,
        auto_launch_os: false,
        allow_revivel_extension: true,
        revivel_extension_id: ext.to_string(),
        spv_servers: Vec::new(),
        rpcuser: user.to_string(),
        rpcpass: pass.to_string(),
    }
}

fn message(kind: Option<&str>, uri: Option<&str>, title: Option<&str>, method: Option<&str>) -> NativeMessage {
    NativeMessage {
        kind: kind.map(|s| s.to_string()),
        uri: uri.map(|s| s.to_string()),
        title: title.map(|s| s.to_string()),
        method: method.map(|s| s.to_string()),
    }
}

#[test]
fn player_url_percent_encodes_the_address() {
    let url = build_player_url("mphijnbejfkmcahhjlchcghmjegoefkf", "lbry://@Chronicles_of_Bod#7/One-old", None);
    assert_eq!(
        url,
        "chrome-extension://mphijnbejfkmcahhjlchcghmjegoefkf/player.html?uri=lbry%3A%2F%2F%40Chronicles_of_Bod%237%2FOne-old"
    );
}

#[test]
fn player_url_appends_encoded_title() {
    let without = build_player_url("id", "lbry://a", None);
    let with = build_player_url("id", "lbry://a", Some("A b&c=é~"));
    assert_eq!(with, format!("{}&title=A%20b%26c%3D%C3%A9~", without));
    assert_eq!(build_player_url("id", "", Some("")), "chrome-extension://id/player.html?uri=&title=");
}

#[test]
fn encoded_values_cannot_inject_query_parameters() {
    let url = build_player_url("id", "lbry://x&title=evil", None);
    assert_eq!(url.matches('&').count(), 0);
    assert_eq!(url.matches('=').count(), 1);
}

#[test]
fn first_lbry_argument_is_opened() {
    let args = strings(&["companion", "--flag", "lbry://@a/b", "lbry://@c/d"]);
    assert_eq!(
        lbry_launch_url(&args, "id"),
        Some("chrome-extension://id/player.html?uri=lbry%3A%2F%2F%40a%2Fb".to_string())
    );
    assert_eq!(lbry_launch_url(&strings(&["companion", "LBRY://x"]), "id"), None);
    assert_eq!(lbry_launch_url(&Vec::new(), "id"), None);
    assert_eq!(
        lbry_launch_url(&strings(&["lbry://z"]), ""),
        Some("chrome-extension:///player.html?uri=lbry%3A%2F%2Fz".to_string())
    );
}

#[test]
fn extension_id_falls_back_to_the_published_one() {
    assert_eq!(effective_extension_id(""), "mphijnbejfkmcahhjlchcghmjegoefkf");
    assert_eq!(effective_extension_id("mine"), "mine");
    assert_eq!(origin_for("abc"), "chrome-extension://abc/");
}

#[test]
fn download_locations_per_platform() {
    assert_eq!(
        download_url(Platform::Linux),
        "https://github.com/lbryio/lbry-sdk/releases/download/v0.113.0/lbrynet-linux.zip"
    );
    assert_eq!(
        download_url(Platform::Windows),
        "https://github.com/lbryio/lbry-sdk/releases/download/v0.113.0/lbrynet-windows.zip"
    );
    assert_eq!(platform_asset(Platform::MacOs), "lbrynet-mac.zip");
    assert_eq!(binary_name(Platform::Windows), "lbrynet.exe");
    assert_eq!(binary_name(Platform::MacOs), "lbrynet");
}

#[test]
fn manifest_admits_known_and_configured_origins() {
    let known = strings(&["chrome-extension://mphijnbejfkmcahhjlchcghmjegoefkf/", "chrome-extension://revivel-companion/"]);
    assert_eq!(allowed_origins(""), known);
    assert_eq!(allowed_origins("revivel-companion"), known);
    assert_eq!(allowed_origins("mphijnbejfkmcahhjlchcghmjegoefkf"), known);
    let mut with = known.clone();
    with.push("chrome-extension://bgehhgganagafhmkbpgiockhfpgbhebk/".to_string());
    assert_eq!(allowed_origins("bgehhgganagafhmkbpgiockhfpgbhebk"), with);

    let m = host_manifest("/usr/bin/companion", "");
    assert_eq!(m.name, "revivel_companion");
    assert_eq!(m.description, "ReviveL Companion native messaging host");
    assert_eq!(m.path, "/usr/bin/companion");
    assert_eq!(m.kind, "stdio");
    assert_eq!(m.allowed_origins, known);
}

#[test]
fn manifest_locations() {
    assert_eq!(manifest_browsers(Platform::Linux), strings(&["google-chrome", "BraveSoftware/Brave-Browser"]));
    assert_eq!(manifest_browsers(Platform::MacOs), strings(&["Google/Chrome", "BraveSoftware/Brave-Browser"]));
    assert_eq!(manifest_browsers(Platform::Windows), strings(&["Google\\Chrome", "BraveSoftware\\Brave-Browser"]));
    assert_eq!(registry_key("Google\\Chrome"), "Software\\Google\\Chrome\\NativeMessagingHosts\\revivel_companion");
    assert_eq!(registry_key("a\\\\b\\\\\\c"), "Software\\a\\b\\\\c\\NativeMessagingHosts\\revivel_companion");
}

#[test]
fn frames_round_trip() {
    let payload = b"{\"type\":\"ping\"}".to_vec();
    let frame = encode_frame(&payload);
    assert_eq!(&frame[..4], &(payload.len() as u32).to_le_bytes());
    assert_eq!(&frame[4..], &payload[..]);
    let header = [frame[0], frame[1], frame[2], frame[3]];
    assert_eq!(frame_length(header) as usize, payload.len());
    assert_eq!(frame_length([0x01, 0x02, 0x03, 0x04]), 0x0403_0201);
    assert_eq!(frame_length([0xff, 0xff, 0xff, 0xff]), u32::MAX);
    assert_eq!(encode_frame(&Vec::new()), vec![0, 0, 0, 0]);
}

#[test]
fn messages_are_classified_by_type() {
    assert!(matches!(classify_message(&message(Some("ping"), None, None, None)), NativeRequest::Ping));
    assert!(matches!(classify_message(&message(Some("open-lbry-uri"), None, None, None)), NativeRequest::MissingUri));
    match classify_message(&message(Some("open-lbry-uri"), Some("lbry://x"), Some("T"), None)) {
        NativeRequest::OpenUri { uri, title } => {
            assert_eq!(uri, "lbry://x");
            assert_eq!(title, Some("T".to_string()));
        }
        _ => panic!("expected OpenUri"),
    }
    match classify_message(&message(Some("rpc_call"), None, None, None)) {
        NativeRequest::Proxy { method } => assert_eq!(method, ""),
        _ => panic!("expected Proxy"),
    }
    assert!(matches!(classify_message(&message(Some("get-rpc-credentials"), None, None, None)), NativeRequest::Credentials));
    assert!(matches!(classify_message(&message(Some("PING"), None, None, None)), NativeRequest::Unknown));
    assert!(matches!(classify_message(&message(None, Some("lbry://x"), None, None)), NativeRequest::Unknown));
    assert!(needs_settings(&NativeRequest::Credentials));
    assert!(!needs_settings(&NativeRequest::Ping));
}

#[test]
fn ping_is_answered_without_settings() {
    assert!(matches!(plan_native(NativeRequest::Ping, None), NativeAction::Reply(NativeReply::Pong)));
    match plan_native(NativeRequest::Unknown, None) {
        NativeAction::Reply(NativeReply::Failure(m)) => assert_eq!(m, "unknown message type"),
        _ => panic!("expected failure"),
    }
    match plan_native(NativeRequest::MissingUri, None) {
        NativeAction::Reply(NativeReply::Failure(m)) => assert_eq!(m, "missing uri"),
        _ => panic!("expected failure"),
    }
}

#[test]
fn credentials_are_released_only_when_complete() {
    let full = settings("ext", "u", "p");
    match plan_native(NativeRequest::Credentials, Some(&full)) {
        NativeAction::Reply(NativeReply::Credentials { user, pass }) => {
            assert_eq!(user, "u");
            assert_eq!(pass, "p");
        }
        _ => panic!("expected credentials"),
    }
    let partial = settings("ext", "u", "");
    match plan_native(NativeRequest::Credentials, Some(&partial)) {
        NativeAction::Reply(NativeReply::Failure(m)) => assert_eq!(m, "credentials not available"),
        _ => panic!("expected failure"),
    }
    match plan_native(NativeRequest::Credentials, None) {
        NativeAction::Reply(NativeReply::Failure(m)) => assert_eq!(m, "credentials not available"),
        _ => panic!("expected failure"),
    }
}

#[test]
fn proxied_calls_carry_credentials_and_origin() {
    let full = settings("ext", "u", "p");
    match plan_native(NativeRequest::Proxy { method: "status".to_string() }, Some(&full)) {
        NativeAction::Proxy(p) => {
            assert_eq!(p.origin, "chrome-extension://ext/");
            assert_eq!(p.user, "u");
            assert_eq!(p.pass, "p");
            assert_eq!(p.method, "status");
        }
        _ => panic!("expected proxy"),
    }
    match plan_native(NativeRequest::Proxy { method: "x".to_string() }, Some(&settings("", "u", "p"))) {
        NativeAction::Proxy(p) => assert_eq!(p.origin, "chrome-extension:///"),
        _ => panic!("expected proxy"),
    }
    match plan_native(NativeRequest::Proxy { method: "status".to_string() }, None) {
        NativeAction::Reply(NativeReply::Failure(m)) => assert_eq!(m, "credentials not available for proxy"),
        _ => panic!("expected failure"),
    }
}

#[test]
fn open_uri_uses_the_configured_or_published_id() {
    let s = settings("", "u", "p");
    match plan_native(NativeRequest::OpenUri { uri: "lbry://a".to_string(), title: None }, Some(&s)) {
        NativeAction::Open { url } => assert_eq!(url, "chrome-extension:///player.html?uri=lbry%3A%2F%2Fa"),
        _ => panic!("expected open"),
    }
    let s = settings("mine", "u", "p");
    match plan_native(NativeRequest::OpenUri { uri: "lbry://a".to_string(), title: None }, Some(&s)) {
        NativeAction::Open { url } => assert_eq!(url, "chrome-extension://mine/player.html?uri=lbry%3A%2F%2Fa"),
        _ => panic!("expected open"),
    }
    match plan_native(NativeRequest::OpenUri { uri: "lbry://a".to_string(), title: Some("t".to_string()) }, None) {
        NativeAction::Open { url } => assert_eq!(
            url,
            "chrome-extension://mphijnbejfkmcahhjlchcghmjegoefkf/player.html?uri=lbry%3A%2F%2Fa&title=t"
        ),
        _ => panic!("expected open"),
    }
}

#[test]
fn frames_that_are_skipped() {
    assert_eq!(payload_to_read([0, 0, 0, 0]), None);
    assert_eq!(payload_to_read([5, 0, 0, 0]), Some(5));
    assert_eq!(payload_to_read([0, 1, 0, 1]), Some(16_777_472));
    assert_eq!(payload_text(b"{\"type\":\"ping\"}".to_vec()).as_deref(), Some("{\"type\":\"ping\"}"));
    assert_eq!(payload_text("h\u{e9}".as_bytes().to_vec()).as_deref(), Some("h\u{e9}"));
    assert_eq!(payload_text(vec![0x66, 0xff, 0x66]), None);
    assert_eq!(payload_text(vec![0xed, 0xa0, 0x80]), None);
    assert_eq!(payload_text(Vec::new()).as_deref(), Some(""));
}

#[test]
fn error_replies() {
    match invalid_json_reply("expected value at line 1 column 1") {
        NativeReply::Error(m) => assert_eq!(m, "invalid json: expected value at line 1 column 1"),
        _ => panic!("expected an error reply"),
    }
    match proxy_failure_reply("connection refused") {
        NativeReply::Error(m) => assert_eq!(m, "proxy request failed: connection refused"),
        _ => panic!("expected an error reply"),
    }
    match invalid_proxy_response_reply() {
        NativeReply::Error(m) => assert_eq!(m, "invalid response from lbrynet"),
        _ => panic!("expected an error reply"),
    }
}

#[test]
fn player_uri_parameter_decodes_to_the_address() {
    for uri in ["lbry://@Chronicles_of_Bod#7/One-old", "lbry://a b&c=d/\u{e9}t\u{e9}", ""] {
        let url = build_player_url("id", uri, Some("a&b"));
        let start = url.find("uri=").unwrap() + 4;
        let end = url[start..].find('&').map(|i| start + i).unwrap_or(url.len());
        assert_eq!(urlencoding::decode(&url[start..end]).unwrap(), uri);
        assert!(url[end..].starts_with("&title="));
    }
}

use revivel_companion::config::render_config;
use revivel_companion::settings::{
    default_extension_id, default_spv_servers, default_true, ensure_credentials, ensure_servers,
    credential_from_draws, generate_rpc_credentials, merge_saved_settings, prioritize_servers,
    prioritize_settings_servers, rotate_servers, AppSettings, CREDENTIAL_CHARSET,
};

fn strings(v: &[&str]) -> Vec<String> {
    v.iter().map(|s| s.to_string()).collect()
}

fn settings_with(user: &str, pass: &str, servers: &[&str]) -> AppSettings {
    AppSettings {
        auto_start_daemon: false,
        auto_launch_os: true,
        allow_revivel_extension: false,
        revivel_extension_id: "abc".to_string(),
        spv_servers: strings(servers),
        rpcuser: user.to_string(),
        rpcpass: pass.to_string(),
    }
}

#[test]
fn defaults_match_first_run_settings() {
    let s = AppSettings::default();
    assert!(s.auto_start_daemon);
    assert!(!s.auto_launch_os);
    assert!(s.allow_revivel_extension);
    assert_eq!(s.revivel_extension_id, "mphijnbejfkmcahhjlchcghmjegoefkf");
    assert_eq!(s.spv_servers, strings(&["s1.lbry.network:50001", "a-hub1.odysee.com:50001"]));
    assert_eq!(s.rpcuser, "");
    assert_eq!(s.rpcpass, "");
    assert_eq!(default_extension_id(), "mphijnbejfkmcahhjlchcghmjegoefkf");
    assert!(default_true());
    assert_eq!(default_spv_servers().len(), 2);
}

#[test]
fn primary_servers_come_first_in_stable_order() {
    let input = strings(&[
        "a-hub1.odysee.com:50001",
        "s1.lbry.network:50001",
        "x.example:1",
        "88.99.63.52:50001",
    ]);
    let out = prioritize_servers(&input);
    assert_eq!(
        out,
        strings(&["s1.lbry.network:50001", "88.99.63.52:50001", "a-hub1.odysee.com:50001", "x.example:1"])
    );
    // already ordered lists stay as they are
    assert_eq!(prioritize_servers(&out), out);
    assert_eq!(prioritize_servers(&Vec::new()), Vec::<String>::new());
}

#[test]
fn prioritizing_settings_only_touches_servers() {
    let mut s = settings_with("u", "p", &["b:1", "s1.lbry.network:2"]);
    prioritize_settings_servers(&mut s);
    assert_eq!(s.spv_servers, strings(&["s1.lbry.network:2", "b:1"]));
    assert_eq!(s.rpcuser, "u");
    assert_eq!(s.revivel_extension_id, "abc");
}

#[test]
fn generated_credentials_have_the_documented_shape() {
    let (user, pass) = generate_rpc_credentials();
    assert_eq!(user.chars().count(), 16);
    assert_eq!(pass.chars().count(), 32);
    for c in user.chars().chain(pass.chars()) {
        assert!(CREDENTIAL_CHARSET.contains(&c));
        assert!(c.is_ascii_alphanumeric());
    }
    let (user2, pass2) = generate_rpc_credentials();
    assert!(user != user2 || pass != pass2);
}

#[test]
fn credentials_are_generated_only_when_missing() {
    let mut s = settings_with("keep", "me", &["a:1"]);
    assert!(!ensure_credentials(&mut s));
    assert_eq!(s.rpcuser, "keep");
    assert_eq!(s.rpcpass, "me");

    let mut s = settings_with("user", "", &["a:1"]);
    assert!(ensure_credentials(&mut s));
    assert_eq!(s.rpcuser.len(), 16);
    assert_eq!(s.rpcpass.len(), 32);
    assert_ne!(s.rpcuser, "user");
    assert_eq!(s.spv_servers, strings(&["a:1"]));
}

#[test]
fn empty_server_list_gets_the_defaults() {
    let mut s = settings_with("u", "p", &[]);
    assert!(ensure_servers(&mut s));
    assert_eq!(s.spv_servers, strings(&["s1.lbry.network:50001", "a-hub1.odysee.com:50001"]));
    let mut t = settings_with("u", "p", &["z:9"]);
    assert!(!ensure_servers(&mut t));
    assert_eq!(t.spv_servers, strings(&["z:9"]));
}

#[test]
fn saving_settings_keeps_generated_credentials() {
    let current = settings_with("gen-user", "gen-pass", &["a:1"]);
    let incoming = AppSettings {
        auto_start_daemon: true,
        auto_launch_os: false,
        allow_revivel_extension: true,
        revivel_extension_id: "newid".to_string(),
        spv_servers: strings(&["b:2"]),
        rpcuser: String::new(),
        rpcpass: String::new(),
    };
    let merged = merge_saved_settings(&current, incoming);
    assert!(merged.auto_start_daemon);
    assert!(!merged.auto_launch_os);
    assert!(merged.allow_revivel_extension);
    assert_eq!(merged.revivel_extension_id, "newid");
    assert_eq!(merged.spv_servers, strings(&["b:2"]));
    assert_eq!(merged.rpcuser, "gen-user");
    assert_eq!(merged.rpcpass, "gen-pass");
}

#[test]
fn config_with_extension_access() {
    let servers = strings(&["a-hub1.odysee.com:50001", "s1.lbry.network:50001"]);
    let text = render_config(true, &servers, "usr", "pwd", "C:\\Users\\me\\data");
    let expected = "# ReviveL Companion generated config for lbrynet\n\
# Uses SPV mode by default (no full node/lbcd required)\n\
\n\
api: 127.0.0.1:5279\n\
\n\
rpcuser: usr\n\
rpcpass: pwd\n\
\n\
# Prefer reliable public SPV servers\n\
lbryum_servers:\n\
- s1.lbry.network:50001\n\
- a-hub1.odysee.com:50001\n\
\n\
allowed_origin: \"*\"\n\
\n\
\n\
# Reasonable defaults for a companion daemon\n\
save_files: false\n\
download_directory: \"C:/Users/me/data/downloads\"\n\
blob_lru_cache_size: 100\n\
max_connections_per_download: 8\n\
concurrent_blob_downloads: 2";
    assert_eq!(text, expected);
}

#[test]
fn config_without_extension_access() {
    let servers = strings(&["x:1"]);
    let text = render_config(false, &servers, "u", "p", "/home/me/data");
    assert!(text.contains("\n# allowed_origin disabled\n"));
    assert!(!text.contains("allowed_origin: "));
    assert!(text.contains("- x:1\n"));
    assert!(text.contains("download_directory: \"/home/me/data/downloads\""));
    assert!(!text.ends_with('\n'));
}

#[test]
fn config_lines_are_dedented() {
    let servers = strings(&["  spaced:1", "tab\r\n\t  inner:2"]);
    let text = render_config(true, &servers, "  u", "p", "/d");
    for line in text.split('\n') {
        assert_eq!(line, line.trim_start());
        assert!(!line.ends_with('\r'));
    }
    assert!(text.contains("- tab\ninner:2\n"));
    assert!(text.contains("rpcuser:   u\n"));
}

#[test]
fn config_matches_a_direct_rendering() {
    // the same steps the daemon configuration goes through, written with std
    let servers = strings(&["b:1", "88.99.63.52:2", "  c:3"]);
    let (user, pass, data) = ("U", "P", "a\\b");
    let mut sorted = servers.clone();
    sorted.sort_by_key(|s| if s.contains("88.99.63.52") || s.contains("s1.lbry.network") { 0 } else { 1 });
    let yaml: Vec<String> = sorted.iter().map(|s| format!("- {}", s)).collect();
    let raw = format!(
        "# ReviveL Companion generated config for lbrynet\n# Uses SPV mode by default (no full node/lbcd required)\n\napi: 127.0.0.1:5279\n\nrpcuser: {}\nrpcpass: {}\n\n# Prefer reliable public SPV servers\nlbryum_servers:\n{}\n\n{}\n\n# Reasonable defaults for a companion daemon\nsave_files: false\ndownload_directory: \"{}/downloads\"\nblob_lru_cache_size: 100\nmax_connections_per_download: 8\nconcurrent_blob_downloads: 2\n",
        user,
        pass,
        yaml.join("\n"),
        "allowed_origin: \"*\"\n",
        data.replace('\\', "/")
    );
    let expected = raw.lines().map(|l| l.trim_start()).collect::<Vec<_>>().join("\n");
    assert_eq!(render_config(true, &servers, user, pass, data), expected);
}

#[test]
fn draws_spell_credentials_from_the_charset() {
    assert_eq!(credential_from_draws(&vec![0, 25, 26, 51, 52, 61]), "AZaz09");
    assert_eq!(credential_from_draws(&vec![7, 7, 7]), "HHH");
    assert_eq!(credential_from_draws(&Vec::new()), "");
}

#[test]
fn server_rotation_moves_the_start_of_the_list() {
    let servers = strings(&["a:1", "b:2", "c:3"]);
    assert_eq!(rotate_servers(&servers, 0), servers);
    assert_eq!(rotate_servers(&servers, 1), strings(&["b:2", "c:3", "a:1"]));
    assert_eq!(rotate_servers(&servers, 2), strings(&["c:3", "a:1", "b:2"]));
    assert_eq!(rotate_servers(&servers, 4), strings(&["b:2", "c:3", "a:1"]));
    assert_eq!(rotate_servers(&Vec::new(), 5), Vec::<String>::new());
}

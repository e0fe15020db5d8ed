use std::io::Write;

use revivel_companion::archive::{extract_binary, is_lbrynet_entry_exec};
use revivel_companion::daemon::{
    auth_step, check_port_free, check_start_credentials, classify_auth_probe, connection_count,
    daemon_args, extension_friendly, AppError, AuthProbe, AuthStep, DaemonManager, MaintainAction,
    RpcAction, WalletInfo,
};
use revivel_companion::logs::{action_log_line, crash_report, crash_tail, log_file_name, start_banner, stream_log_line};
use revivel_companion::settings::AppSettings;
use revivel_companion::ui::{folder_for, is_long_gap, menu_command, start_after_save, Folder, MenuCommand};

fn strings(v: &[&str]) -> Vec<String> {
    v.iter().map(|s| s.to_string()).collect()
}

fn wallet(server: Option<&str>, behind: Option<u64>) -> WalletInfo {
    WalletInfo::from_status_fields(server.map(|s| s.to_string()), Some(10), behind, Some(3))
}

#[test]
fn new_manager_is_idle() {
    let m = DaemonManager::new();
    assert!(!m.should_be_running);
    assert!(!m.has_child);
    assert_eq!(m.restart_count, 0);
    assert_eq!(m.uptime_secs(123_456), None);
    assert!(!m.maintain_due(1_000_000));
}

#[test]
fn start_and_stop_track_uptime_and_credentials() {
    let mut m = DaemonManager::new();
    m.record_start(10_000, true, "", "user", "pass");
    assert!(m.has_child && m.should_be_running);
    assert_eq!(m.restart_count, 1);
    assert_eq!(m.uptime_secs(10_000), Some(0));
    assert_eq!(m.uptime_secs(75_999), Some(65));
    assert_eq!(m.uptime_secs(5_000), Some(0));
    assert_eq!(m.allowed_origin.as_deref(), Some("*"));
    assert_eq!(m.extension_id.as_deref(), Some("mphijnbejfkmcahhjlchcghmjegoefkf"));
    assert_eq!(m.rpcuser.as_deref(), Some("user"));
    m.record_stop();
    assert!(!m.has_child && !m.should_be_running);
    assert_eq!(m.uptime_secs(20_000), None);
    assert_eq!(m.allowed_origin, None);
    assert_eq!(m.rpcuser, None);
    assert_eq!(m.rpcpass, None);
    assert_eq!(m.restart_count, 1);

    let mut n = DaemonManager::new();
    n.record_start(0, false, "x", "u", "p");
    assert_eq!(n.allowed_origin, None);
    assert_eq!(n.extension_id, None);
}

#[test]
fn backoff_grows_with_failures_and_is_capped() {
    let mut m = DaemonManager::new();
    m.record_start(0, true, "id", "u", "p");
    // first maintenance round after start: no failures yet, no back-off
    assert!(m.maintain_due(0));
    assert!(matches!(m.on_liveness(false, 1_000, 1_700_000_000), MaintainAction::Start));
    assert_eq!(m.failures, 1);
    assert_eq!(m.backoff_secs(), 5);
    assert!(!m.maintain_due(5_999));
    assert!(m.maintain_due(6_000));
    m.failures = 20;
    assert_eq!(m.backoff_secs(), 60);
    assert!(!m.maintain_due(60_999));
    assert!(m.maintain_due(61_000));
    assert_eq!(m.recovery_history, strings(&["1700000000: process died"]));
    // a successful start clears the back-off
    m.record_start(70_000, true, "id", "u", "p");
    assert_eq!(m.backoff_secs(), 0);
    assert!(m.maintain_due(70_000));
}

#[test]
fn unreachable_rpc_is_tolerated_during_grace_period() {
    let mut m = DaemonManager::new();
    m.record_start(100_000, true, "id", "u", "p");
    assert!(matches!(m.on_rpc_probe(false, 159_999, 1), RpcAction::Wait));
    assert_eq!(m.failures, 0);
    assert!(matches!(m.on_rpc_probe(true, 200_000, 1), RpcAction::QueryWallet));
    assert!(matches!(m.on_rpc_probe(false, 160_000, 42), RpcAction::Restart));
    assert_eq!(m.failures, 1);
    assert_eq!(m.last_restart_ms, Some(160_000));
    assert_eq!(m.recovery_history, strings(&["42: RPC unreachable"]));
    assert!(matches!(m.on_liveness(true, 170_000, 43), MaintainAction::ProbeRpc));
    assert_eq!(m.failures, 1);
}

#[test]
fn wallet_state_drives_disconnection_counter() {
    let mut m = DaemonManager::new();
    let o = m.on_wallet_status(&None, 0, 1);
    assert_eq!((o.degraded_behind, o.restart), (None, false));
    assert_eq!(m.disconnected_count, 1);
    let o = m.on_wallet_status(&Some(wallet(None, Some(0))), 0, 1);
    assert_eq!((o.degraded_behind, o.restart), (None, false));
    assert_eq!(m.disconnected_count, 2);
    let o = m.on_wallet_status(&Some(wallet(Some("s1"), Some(101))), 0, 1);
    assert_eq!((o.degraded_behind, o.restart), (Some(101), false));
    assert_eq!(m.disconnected_count, 3);
    let o = m.on_wallet_status(&Some(wallet(Some("s1"), Some(100))), 0, 1);
    assert_eq!((o.degraded_behind, o.restart), (None, false));
    assert_eq!(m.disconnected_count, 0);
    let w = wallet(Some("srv"), None);
    assert!(w.connected);
    assert_eq!(w.connected_server.as_deref(), Some("srv"));
    assert!(!wallet(None, None).connected);
}

#[test]
fn status_report_shows_recent_history_newest_first() {
    let mut m = DaemonManager::new();
    m.binary_path = Some("/bin/lbrynet".to_string());
    for i in 0..12u64 {
        m.on_liveness(false, i * 1000, i);
    }
    m.record_start(50_000, true, "abc", "u", "p");
    let s = m.daemon_status(false, true, Some(wallet(Some("srv"), None)), true, 80_000);
    assert!(!s.running && s.rpc_reachable && s.listening && !s.managed);
    assert!(s.other_daemon_detected);
    assert!(s.extension_friendly);
    assert!(s.extension_rpc_ok);
    assert_eq!(s.version.as_deref(), Some("0.113.0"));
    assert_eq!(s.binary_path.as_deref(), Some("/bin/lbrynet"));
    assert_eq!(s.allowed_origin.as_deref(), Some("*"));
    assert_eq!(s.uptime_secs, Some(30));
    assert_eq!(s.restart_count, 1);
    assert!(s.wallet.is_some());
    assert!(s.error.is_none());
    let expected: Vec<String> = (2..12u64).rev().map(|i| format!("{}: process died", i)).collect();
    assert_eq!(s.recovery_history, expected);

    let quiet = m.daemon_status(true, false, Some(wallet(Some("srv"), None)), true, 80_000);
    assert!(quiet.wallet.is_none());
    assert!(!quiet.extension_rpc_ok);
    assert!(!quiet.other_daemon_detected);
}

#[test]
fn extension_friendliness_of_origins() {
    assert!(extension_friendly(&Some("chrome-extension://x/".to_string())));
    assert!(extension_friendly(&Some("*".to_string())));
    assert!(!extension_friendly(&Some("**".to_string())));
    assert!(!extension_friendly(&Some("https://example.com".to_string())));
    assert!(!extension_friendly(&None));
}

#[test]
fn start_refusals_carry_their_messages() {
    match check_start_credentials("", "p") {
        Err(AppError::Process(m)) => assert_eq!(
            m,
            "Cannot start managed daemon without RPC credentials. Authentication would not be enforced."
        ),
        _ => panic!("expected refusal"),
    }
    assert!(check_start_credentials("u", "").is_err());
    assert!(check_start_credentials("u", "p").is_ok());
    match check_port_free(true, true) {
        Err(AppError::Process(m)) => assert_eq!(m, "Our managed lbrynet daemon is already running on 127.0.0.1:5279."),
        _ => panic!("expected refusal"),
    }
    match check_port_free(true, false) {
        Err(e) => assert_eq!(
            e.message(),
            "Process error: Port 5279 is in use by another lbrynet that does not accept the Companion's credentials. Use 'Force kill existing' button first."
        ),
        _ => panic!("expected refusal"),
    }
    assert!(check_port_free(false, true).is_ok());
}

#[test]
fn error_messages_per_variant() {
    assert_eq!(AppError::Download("x".into()).message(), "Download failed: x");
    assert_eq!(AppError::Zip("y".into()).message(), "Extraction failed: y");
    assert_eq!(AppError::Process("z".into()).message(), "Process error: z");
    assert_eq!(AppError::Rpc("w".into()).message(), "RPC error: w");
    let io = AppError::Io(std::io::Error::new(std::io::ErrorKind::Other, "disk gone"));
    assert_eq!(io.message(), "IO error: disk gone");
}

#[test]
fn daemon_command_line() {
    let args = daemon_args("u", "p", &strings(&["b:1", "s1.lbry.network:2"]), true);
    assert_eq!(
        args,
        strings(&[
            "--api",
            "127.0.0.1:5279",
            "--rpcuser",
            "u",
            "--rpcpass",
            "p",
            "--lbryum-server",
            "b:1",
            "--lbryum-server",
            "s1.lbry.network:2",
            "--allowed-origin",
            "*",
        ])
    );
    let plain = daemon_args("u", "p", &Vec::new(), false);
    assert_eq!(plain, strings(&["--api", "127.0.0.1:5279", "--rpcuser", "u", "--rpcpass", "p"]));
}

#[test]
fn auth_probe_outcomes() {
    assert!(matches!(classify_auth_probe(false, true), AuthProbe::NotReady));
    assert!(matches!(classify_auth_probe(true, true), AuthProbe::NotEnforced));
    assert!(matches!(classify_auth_probe(true, false), AuthProbe::Enforced));
    assert_eq!(connection_count(Some(2), Some(3)), 5);
    assert_eq!(connection_count(None, Some(3)), 3);
    assert_eq!(connection_count(None, None), 0);
}

fn zip_of(entries: &[(&str, &[u8])]) -> Vec<u8> {
    let mut buf = std::io::Cursor::new(Vec::new());
    {
        let mut w = zip::ZipWriter::new(&mut buf);
        let opts = zip::write::SimpleFileOptions::default()
            .compression_method(zip::CompressionMethod::Deflated);
        for (name, data) in entries {
            w.start_file(*name, opts).unwrap();
            w.write_all(data).unwrap();
        }
        w.finish().unwrap();
    }
    buf.into_inner()
}

#[test]
fn binary_is_found_by_name_in_archive() {
    let bytes = zip_of(&[("README.md", b"docs"), ("dist/LBRYNET", b"\x7fELF-binary"), ("lbrynet", b"second")]);
    assert_eq!(extract_binary(bytes).unwrap(), b"\x7fELF-binary".to_vec());
    let win = zip_of(&[("lbrynet.exe", b"MZ")]);
    assert_eq!(extract_binary(win).unwrap(), b"MZ".to_vec());
}

#[test]
fn archive_without_binary_is_refused() {
    let bytes = zip_of(&[("readme.txt", b"x"), ("lbrynet-old", b"y")]);
    match extract_binary(bytes) {
        Err(AppError::Zip(m)) => assert_eq!(m, "could not find lbrynet binary inside archive"),
        _ => panic!("expected zip error"),
    }
    match extract_binary(b"not a zip".to_vec()) {
        Err(AppError::Zip(_)) => {}
        _ => panic!("expected zip error"),
    }
}

#[test]
fn entry_names_of_the_executable() {
    assert!(is_lbrynet_entry_exec("lbrynet"));
    assert!(is_lbrynet_entry_exec("LbryNet"));
    assert!(is_lbrynet_entry_exec("a/b/lbrynet"));
    assert!(is_lbrynet_entry_exec("x-lbrynet.EXE"));
    assert!(!is_lbrynet_entry_exec("xlbrynet"));
    assert!(!is_lbrynet_entry_exec("lbrynet/"));
    assert!(!is_lbrynet_entry_exec(""));
}

#[test]
fn log_lines_and_files() {
    assert_eq!(log_file_name(86_400 * 3 + 5), "lbrynet-3.log");
    assert_eq!(log_file_name(0), "lbrynet-0.log");
    assert_eq!(action_log_line(17, "hello"), "[17] [COMP] hello");
    assert_eq!(start_banner(9), "\n=== [9] DAEMON START ATTEMPT ===\n");
    assert_eq!(stream_log_line(5, "stdout", "line\r\n\n"), "[5] [stdout] line");
    assert_eq!(stream_log_line(5, "stderr", "a\rb\n"), "[5] [stderr] a\rb");
}

#[test]
fn crash_tail_keeps_the_last_twenty_lines() {
    let content: String = (1..=25).map(|i| format!("l{}\n", i)).collect();
    let expected = (6..=25).map(|i| format!("l{}", i)).collect::<Vec<_>>().join("\n");
    assert_eq!(crash_tail(&content), expected);
    assert_eq!(crash_tail("a\r\nb"), "a\nb");
    assert_eq!(crash_tail(""), "");
    assert_eq!(crash_report("x\n"), "Last 20 log lines on crash:\nx");
}

#[test]
fn ui_decisions() {
    assert!(matches!(menu_command("quit"), Some(MenuCommand::Quit)));
    assert!(matches!(menu_command("show"), Some(MenuCommand::Show)));
    assert!(matches!(menu_command("start"), Some(MenuCommand::Start)));
    assert!(matches!(menu_command("stop"), Some(MenuCommand::Stop)));
    assert!(menu_command("other").is_none());
    assert!(matches!(folder_for("logs"), Folder::Logs));
    assert!(matches!(folder_for("data"), Folder::Data));
    assert!(is_long_gap(31));
    assert!(!is_long_gap(30));
}

#[test]
fn started_daemon_and_its_config_admit_the_same_origin() {
    let servers = strings(&["s1.lbry.network:50001"]);
    let mut m = DaemonManager::new();
    m.record_start(0, true, "", "u", "p");
    let origin = m.allowed_origin.clone().unwrap();
    assert_eq!(origin, "*");
    let config = revivel_companion::config::render_config(true, &servers, "u", "p", "/d");
    assert!(config.contains(&format!("\nallowed_origin: \"{}\"\n", origin)));
    let args = daemon_args("u", "p", &servers, true);
    assert_eq!(args.last(), Some(&origin));
    assert_eq!(m.rpc_origin(), "chrome-extension://mphijnbejfkmcahhjlchcghmjegoefkf/");
    assert_eq!(m.extension_probe_origin(), "chrome-extension://mphijnbejfkmcahhjlchcghmjegoefkf/");
    assert_eq!(m.rpc_credentials(), Some(("u".to_string(), "p".to_string())));
    m.record_stop();
    assert_eq!(m.rpc_credentials(), None);
    assert_eq!(m.rpc_origin(), "chrome-extension://mphijnbejfkmcahhjlchcghmjegoefkf/");
    assert_eq!(m.extension_probe_origin(), "chrome-extension://revivel-companion");
}

#[test]
fn long_spv_disconnection_restarts_on_the_next_server() {
    let servers = strings(&["s1.lbry.network:50001", "a-hub1.odysee.com:50001"]);
    let mut m = DaemonManager::new();
    m.record_start(0, true, "", "u", "p");
    assert_eq!(m.start_servers(&servers), servers);
    // inside the grace period a long disconnection is only counted
    for _ in 0..20 {
        let o = m.on_wallet_status(&None, 30_000, 5);
        assert!(!o.restart);
    }
    assert_eq!(m.disconnected_count, 20);
    // a healthy round ends the run
    let o = m.on_wallet_status(&Some(wallet(Some("s1"), Some(0))), 70_000, 6);
    assert!(!o.restart);
    assert_eq!(m.disconnected_count, 0);
    for _ in 0..11 {
        let o = m.on_wallet_status(&Some(wallet(None, None)), 70_000, 7);
        assert!(!o.restart);
    }
    assert_eq!(m.disconnected_count, 11);
    let o = m.on_wallet_status(&Some(wallet(None, None)), 80_000, 8);
    assert!(o.restart);
    assert_eq!(m.disconnected_count, 0);
    assert_eq!(m.failures, 1);
    assert_eq!(m.last_restart_ms, Some(80_000));
    assert_eq!(m.server_rotation, 1);
    assert_eq!(m.recovery_history, strings(&["8: SPV disconnected"]));
    assert_eq!(m.start_servers(&servers), strings(&["a-hub1.odysee.com:50001", "s1.lbry.network:50001"]));
    // the restart keeps the rotation
    m.record_start(90_000, true, "", "u", "p");
    assert_eq!(m.server_rotation, 1);
    assert_eq!(m.failures, 0);
}

#[test]
fn archive_read_failures() {
    // an archive truncated inside its central directory does not open
    let bytes = zip_of(&[("lbrynet", b"bin")]);
    let cut = bytes[..bytes.len() - 10].to_vec();
    assert!(matches!(extract_binary(cut), Err(AppError::Zip(_))));
    // a stored executable whose contents no longer match their checksum
    let mut buf = std::io::Cursor::new(Vec::new());
    {
        let mut w = zip::ZipWriter::new(&mut buf);
        let opts = zip::write::SimpleFileOptions::default()
            .compression_method(zip::CompressionMethod::Stored);
        w.start_file("lbrynet", opts).unwrap();
        w.write_all(b"ELF-contents").unwrap();
        w.finish().unwrap();
    }
    let mut damaged = buf.into_inner();
    let at = damaged.windows(12).position(|w| w == b"ELF-contents").unwrap();
    damaged[at] = b'X';
    assert!(matches!(extract_binary(damaged), Err(AppError::Io(_))));
    // an empty archive has no executable
    match extract_binary(zip_of(&[])) {
        Err(AppError::Zip(m)) => assert_eq!(m, "could not find lbrynet binary inside archive"),
        _ => panic!("expected zip error"),
    }
}

#[test]
fn auth_check_gives_up_after_the_last_probe() {
    assert!(matches!(auth_step(0, AuthProbe::Enforced), AuthStep::Confirmed));
    assert!(matches!(auth_step(3, AuthProbe::Enforced), AuthStep::Confirmed));
    assert!(matches!(auth_step(0, AuthProbe::NotReady), AuthStep::Retry { warn_unauthenticated: false }));
    assert!(matches!(auth_step(2, AuthProbe::NotEnforced), AuthStep::Retry { warn_unauthenticated: true }));
    assert!(matches!(auth_step(3, AuthProbe::NotEnforced), AuthStep::GiveUp { warn_unauthenticated: true }));
    assert!(matches!(auth_step(3, AuthProbe::NotReady), AuthStep::GiveUp { warn_unauthenticated: false }));
}

#[test]
fn saving_starts_the_daemon_only_when_wanted_and_stopped() {
    let mut s = AppSettings::default();
    s.auto_start_daemon = true;
    assert!(start_after_save(&s, false));
    assert!(!start_after_save(&s, true));
    s.auto_start_daemon = false;
    assert!(!start_after_save(&s, false));
    assert!(!start_after_save(&s, true));
}

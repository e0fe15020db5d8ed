//! The lbrynet daemon supervisor: its state, the decisions taken when
//! starting, stopping and maintaining the daemon, and the status report.
//!
//! Process handles, timers and HTTP probes live with the application; it
//! hands the outcomes of that work to the functions here, which decide what
//! happens next. Times are passed in: `now_ms` is a monotonic clock reading
//! in milliseconds, `wall_secs` the Unix time in seconds.
use vstd::prelude::*;

use crate::config::{allowed_line, ALLOWED_ORIGIN_ANY};
use crate::settings::{rotate_servers, rotated, EXTENSION_ID};
use crate::text::{
    decimal, has_substring, push_decimal, push_str, str_chars, contains_chars, to_owned, views,
};
use crate::urls::{effective_extension_id, effective_id, origin, origin_for, LBRYNET_VERSION};

verus! {

broadcast use vstd::string::group_string_axioms;

/// Port of the lbrynet JSON-RPC API.
pub const DEFAULT_PORT: u16 = 5279;

/// Address the API binds to.
pub const API_ADDRESS: &'static str = "127.0.0.1:5279";

/// Refusal when no RPC credentials are configured.
pub const MSG_NO_CREDENTIALS: &'static str = "Cannot start managed daemon without RPC credentials. Authentication would not be enforced.";

/// Refusal when our own daemon already answers on the port.
pub const MSG_ALREADY_RUNNING: &'static str = "Our managed lbrynet daemon is already running on 127.0.0.1:5279.";

/// Refusal when a foreign daemon holds the port.
pub const MSG_PORT_IN_USE: &'static str = "Port 5279 is in use by another lbrynet that does not accept the Companion's credentials. Use 'Force kill existing' button first.";

/// Seconds after a start during which an unreachable RPC is tolerated.
pub const GRACE_PERIOD_SECS: u64 = 60;

/// Upper bound of the restart back-off, in seconds.
pub const MAX_BACKOFF_SECS: u64 = 60;

/// Back-off added per consecutive failure, in seconds.
pub const BACKOFF_STEP_SECS: u32 = 5;

/// How many blocks behind counts as degraded.
pub const DEGRADED_BLOCKS_BEHIND: u64 = 100;

/// How often to look for the RPC after a spawn before moving on.
pub const RPC_WAIT_TRIES: u32 = 20;

/// Pause between two looks for the RPC after a spawn, in milliseconds.
pub const RPC_WAIT_MS: u64 = 500;

/// Pause before the authentication probes start, in milliseconds.
pub const AUTH_SETTLE_MS: u64 = 800;

/// How many authentication probes are made after a spawn.
pub const AUTH_PROBE_TRIES: u32 = 4;

/// Pause between two authentication probes, in milliseconds.
pub const AUTH_PROBE_MS: u64 = 400;

/// Pause after stopping a previous instance before a start, in milliseconds.
pub const RESTART_PAUSE_MS: u64 = 500;

/// Time given to the daemon to shut down cleanly before it is killed, in milliseconds.
pub const STOP_GRACE_MS: u64 = 600;

/// Pause between stopping an unreachable daemon and starting it again, in milliseconds.
pub const UNREACHABLE_RESTART_PAUSE_MS: u64 = 300;

/// Consecutive maintenance rounds without a healthy SPV connection after
/// which the daemon is restarted on the next SPV server (one minute at the
/// supervisor's five-second tick).
pub const SPV_DISCONNECT_LIMIT: u32 = 12;

/// How many recovery history entries the status report shows.
pub const HISTORY_SHOWN: usize = 10;

#[verifier::external_type_specification]
#[verifier::external_body]
pub struct ExIoError(std::io::Error);

/// Errors of the companion.
#[derive(Debug)]
pub enum AppError {
    Io(std::io::Error),
    Download(String),
    Zip(String),
    Process(String),
    Rpc(String),
}

/// `<std::io::Error as Display>::fmt` through `to_string`: the operating
/// system's description of the error. Nothing is claimed of the text.
#[verifier::external_body]
fn io_error_text(e: &std::io::Error) -> String {
    e.to_string()
}

/// The message shown for an error.
pub open spec fn error_message_spec(e: AppError, io_text: Seq<char>) -> Seq<char> {
    match e {
        AppError::Io(_) => "IO error: "@ + io_text,
        AppError::Download(m) => "Download failed: "@ + m@,
        AppError::Zip(m) => "Extraction failed: "@ + m@,
        AppError::Process(m) => "Process error: "@ + m@,
        AppError::Rpc(m) => "RPC error: "@ + m@,
    }
}

impl AppError {
    /// The human-readable message of this error (what the UI displays).
    pub fn message(&self) -> (r: String)
        ensures
            !(self is Io) ==> r@ == error_message_spec(*self, seq![]),
            self is Io ==> exists|t: Seq<char>| r@ == error_message_spec(*self, t),
    {
        match self {
            AppError::Io(e) => {
                let t = io_error_text(e);
                let mut r = to_owned("IO error: ");
                push_str(&mut r, t.as_str());
                assert(r@ == error_message_spec(*self, t@));
                r
            },
            AppError::Download(m) => {
                let mut r = to_owned("Download failed: ");
                push_str(&mut r, m.as_str());
                r
            },
            AppError::Zip(m) => {
                let mut r = to_owned("Extraction failed: ");
                push_str(&mut r, m.as_str());
                r
            },
            AppError::Process(m) => {
                let mut r = to_owned("Process error: ");
                push_str(&mut r, m.as_str());
                r
            },
            AppError::Rpc(m) => {
                let mut r = to_owned("RPC error: ");
                push_str(&mut r, m.as_str());
                r
            },
        }
    }
}

// ---------------------------------------------------------------------------
// Wallet status
// ---------------------------------------------------------------------------

/// SPV wallet state as reported by lbrynet's `status` call.
#[derive(Debug, Clone)]
pub struct WalletInfo {
    pub connected: bool,
    pub connected_server: Option<String>,
    pub blocks: Option<u64>,
    pub blocks_behind: Option<u64>,
    pub available_servers: Option<u64>,
}

impl WalletInfo {
    /// Wallet state from the fields of `result.wallet`: the wallet counts as
    /// connected exactly when it names the server it is connected to.
    pub fn from_status_fields(
        connected_server: Option<String>,
        blocks: Option<u64>,
        blocks_behind: Option<u64>,
        available_servers: Option<u64>,
    ) -> (w: WalletInfo)
        ensures
            w.connected == connected_server is Some,
            w.connected_server == connected_server,
            w.blocks == blocks,
            w.blocks_behind == blocks_behind,
            w.available_servers == available_servers,
    {
        let connected = match &connected_server {
            Some(_) => true,
            None => false,
        };
        WalletInfo { connected, connected_server, blocks, blocks_behind, available_servers }
    }

    /// Whether the wallet lags by more than the degraded threshold.
    pub fn degraded(&self) -> (b: bool)
        ensures
            b == is_degraded(*self),
    {
        match self.blocks_behind {
            Some(b) => b > DEGRADED_BLOCKS_BEHIND,
            None => false,
        }
    }
}

/// The wallet lags by more than the degraded threshold.
pub open spec fn is_degraded(w: WalletInfo) -> bool {
    match w.blocks_behind {
        Some(b) => b > DEGRADED_BLOCKS_BEHIND,
        None => false,
    }
}

/// Number of open peer connections: the entries of the incoming and the
/// outgoing rate tables, where present.
pub fn connection_count(incoming: Option<usize>, outgoing: Option<usize>) -> (n: u64)
    requires
        (match incoming {
            Some(a) => a as int,
            None => 0int,
        }) + (match outgoing {
            Some(b) => b as int,
            None => 0int,
        }) <= u64::MAX,
    ensures
        n == (match incoming {
            Some(a) => a as int,
            None => 0int,
        }) + (match outgoing {
            Some(b) => b as int,
            None => 0int,
        }),
{
    let mut count: u64 = 0;
    match incoming {
        Some(a) => {
            count = count + a as u64;
        },
        None => {},
    }
    match outgoing {
        Some(b) => {
            count = count + b as u64;
        },
        None => {},
    }
    count
}

// ---------------------------------------------------------------------------
// The supervisor state
// ---------------------------------------------------------------------------

/// What the supervisor knows about the managed daemon.
#[derive(Debug)]
pub struct DaemonManager {
    /// Where the lbrynet executable was found, for display.
    pub binary_path: Option<String>,
    /// The origin lbrynet was told to admit.
    pub allowed_origin: Option<String>,
    /// The extension ID the daemon was started for.
    pub extension_id: Option<String>,
    /// Whether the daemon should be kept alive.
    pub should_be_running: bool,
    /// Whether the application holds a child process handle.
    pub has_child: bool,
    /// When the daemon was last started (monotonic milliseconds).
    pub start_time_ms: Option<u64>,
    pub restart_count: u32,
    pub disconnected_count: u32,
    /// Consecutive failures, which lengthen the restart back-off.
    pub failures: u32,
    /// When the last (re)start was attempted (monotonic milliseconds).
    pub last_restart_ms: Option<u64>,
    pub recovery_history: Vec<String>,
    pub rpcuser: Option<String>,
    pub rpcpass: Option<String>,
    /// How many SPV failovers happened: the server list handed to lbrynet
    /// is rotated by this much.
    pub server_rotation: usize,
}

/// Elapsed whole seconds from `from` to `now` (zero when the clock reading is earlier).
pub open spec fn elapsed_secs(now: u64, from: u64) -> int {
    if now >= from {
        (now - from) / 1000
    } else {
        0
    }
}

/// Uptime in whole seconds.
pub open spec fn uptime_spec(start: Option<u64>, now: u64) -> Option<u64> {
    match start {
        Some(t) => Some(elapsed_secs(now, t) as u64),
        None => None,
    }
}

/// The restart back-off for `failures` consecutive failures, in seconds.
pub open spec fn backoff_spec(failures: u32) -> int {
    if 5 * failures > 60 {
        60
    } else {
        5 * failures
    }
}

/// Whether a maintenance round should look at the daemon now.
pub open spec fn maintain_due_spec(m: DaemonManager, now: u64) -> bool {
    m.should_be_running && match m.last_restart_ms {
        Some(last) => elapsed_secs(now, last) >= backoff_spec(m.failures),
        None => true,
    }
}

/// Whether the daemon is still within its start-up grace period.
pub open spec fn in_grace_spec(m: DaemonManager, now: u64) -> bool {
    match m.start_time_ms {
        Some(t) => (if now >= t {
            now - t
        } else {
            0
        }) < GRACE_PERIOD_SECS * 1000,
        None => false,
    }
}

/// A recovery history entry.
pub open spec fn history_entry(wall_secs: u64, what: Seq<char>) -> Seq<char> {
    decimal(wall_secs as nat) + ": "@ + what
}

/// The most recent `HISTORY_SHOWN` history entries, newest first.
pub open spec fn recent_history(h: Seq<Seq<char>>) -> Seq<Seq<char>> {
    let n: int = if h.len() < HISTORY_SHOWN {
        h.len() as int
    } else {
        HISTORY_SHOWN as int
    };
    Seq::new(n as nat, |i: int| h[h.len() - 1 - i])
}

/// The state of the supervisor after the daemon was spawned.
pub open spec fn started_state(
    m: DaemonManager,
    now: u64,
    allow: bool,
    ext: Seq<char>,
    user: Seq<char>,
    pass: Seq<char>,
    new: DaemonManager,
) -> bool {
    &&& new.has_child
    &&& new.should_be_running
    &&& new.start_time_ms == Some(now)
    &&& new.restart_count == m.restart_count + 1
    &&& new.failures == 0
    &&& new.last_restart_ms == Some(now)
    &&& (if allow {
        new.allowed_origin matches Some(o) && o@ == ALLOWED_ORIGIN_ANY@
    } else {
        new.allowed_origin is None
    })
    &&& (if allow {
        new.extension_id matches Some(e) && e@ == effective_id(ext)
    } else {
        new.extension_id is None
    })
    &&& new.rpcuser matches Some(u) && u@ == user
    &&& new.rpcpass matches Some(p) && p@ == pass
    &&& new.disconnected_count == m.disconnected_count
    &&& new.recovery_history@ == m.recovery_history@
    &&& new.binary_path == m.binary_path
    &&& new.server_rotation == m.server_rotation
}

/// The state of the supervisor after the daemon was stopped.
pub open spec fn stopped_state(m: DaemonManager, new: DaemonManager) -> bool {
    &&& !new.has_child
    &&& !new.should_be_running
    &&& new.start_time_ms is None
    &&& new.allowed_origin is None
    &&& new.extension_id is None
    &&& new.rpcuser is None
    &&& new.rpcpass is None
    &&& new.restart_count == m.restart_count
    &&& new.disconnected_count == m.disconnected_count
    &&& new.failures == m.failures
    &&& new.last_restart_ms == m.last_restart_ms
    &&& new.recovery_history@ == m.recovery_history@
    &&& new.binary_path == m.binary_path
    &&& new.server_rotation == m.server_rotation
}

/// A failure recorded at `now` with the history entry `entry`.
pub open spec fn failure_recorded(m: DaemonManager, now: u64, entry: Seq<char>, new: DaemonManager) -> bool {
    &&& new.failures == m.failures + 1
    &&& new.last_restart_ms == Some(now)
    &&& views(new.recovery_history@) == views(m.recovery_history@).push(entry)
    &&& new.has_child == m.has_child
    &&& new.should_be_running == m.should_be_running
    &&& new.start_time_ms == m.start_time_ms
    &&& new.restart_count == m.restart_count
    &&& new.disconnected_count == m.disconnected_count
    &&& new.allowed_origin == m.allowed_origin
    &&& new.extension_id == m.extension_id
    &&& new.rpcuser == m.rpcuser
    &&& new.rpcpass == m.rpcpass
    &&& new.binary_path == m.binary_path
    &&& new.server_rotation == m.server_rotation
}

/// What a maintenance round does after the process check.
pub enum MaintainAction {
    /// The process died: start it again.
    Start,
    /// The process lives: probe the RPC.
    ProbeRpc,
}

/// What a maintenance round does after the RPC probe.
pub enum RpcAction {
    /// Stop the daemon and start it again.
    Restart,
    /// Unreachable but still starting up: wait.
    Wait,
    /// Reachable: look at the wallet.
    QueryWallet,
}

/// What looking at the wallet status led to.
pub struct WalletOutcome {
    /// Blocks behind, when the wallet is degraded (for the log).
    pub degraded_behind: Option<u64>,
    /// The SPV connection was lost for too long: stop the daemon and start it again.
    pub restart: bool,
}

/// The wallet is missing, not connected to an SPV server, or degraded.
pub open spec fn wallet_unhealthy(wallet: Option<WalletInfo>) -> bool {
    match wallet {
        Some(w) => !w.connected || is_degraded(w),
        None => true,
    }
}

/// The SPV connection has been lost for `SPV_DISCONNECT_LIMIT` consecutive
/// rounds, counting this one, and the daemon is past its grace period.
pub open spec fn spv_failover_due(m: DaemonManager, wallet: Option<WalletInfo>, now: u64) -> bool {
    wallet_unhealthy(wallet) && m.disconnected_count + 1 >= SPV_DISCONNECT_LIMIT && !in_grace_spec(
        m,
        now,
    )
}

/// The state after an SPV failover was decided at `now`.
pub open spec fn spv_failover_recorded(m: DaemonManager, now: u64, wall_secs: u64, new: DaemonManager) -> bool {
    &&& new.failures == m.failures + 1
    &&& new.last_restart_ms == Some(now)
    &&& views(new.recovery_history@) == views(m.recovery_history@).push(
        history_entry(wall_secs, "SPV disconnected"@),
    )
    &&& new.disconnected_count == 0
    &&& new.server_rotation == m.server_rotation + 1
    &&& new.has_child == m.has_child
    &&& new.should_be_running == m.should_be_running
    &&& new.start_time_ms == m.start_time_ms
    &&& new.restart_count == m.restart_count
    &&& new.allowed_origin == m.allowed_origin
    &&& new.extension_id == m.extension_id
    &&& new.rpcuser == m.rpcuser
    &&& new.rpcpass == m.rpcpass
    &&& new.binary_path == m.binary_path
}

impl DaemonManager {
    /// A supervisor that manages nothing yet.
    pub fn new() -> (m: DaemonManager)
        ensures
            m.binary_path is None,
            m.allowed_origin is None,
            m.extension_id is None,
            !m.should_be_running,
            !m.has_child,
            m.start_time_ms is None,
            m.restart_count == 0,
            m.disconnected_count == 0,
            m.failures == 0,
            m.last_restart_ms is None,
            m.recovery_history@.len() == 0,
            m.rpcuser is None,
            m.rpcpass is None,
            m.server_rotation == 0,
    {
        DaemonManager {
            binary_path: None,
            allowed_origin: None,
            extension_id: None,
            should_be_running: false,
            has_child: false,
            start_time_ms: None,
            restart_count: 0,
            disconnected_count: 0,
            failures: 0,
            last_restart_ms: None,
            recovery_history: Vec::new(),
            rpcuser: None,
            rpcpass: None,
            server_rotation: 0,
        }
    }

    /// Seconds since the daemon was started, if it was.
    pub fn uptime_secs(&self, now_ms: u64) -> (r: Option<u64>)
        ensures
            r == uptime_spec(self.start_time_ms, now_ms),
    {
        match self.start_time_ms {
            Some(t) => {
                if now_ms >= t {
                    Some((now_ms - t) / 1000)
                } else {
                    Some(0)
                }
            },
            None => None,
        }
    }

    /// The path of the lbrynet executable, for display.
    pub fn get_binary_path(&self) -> (r: Option<String>)
        ensures
            r == self.binary_path,
    {
        match &self.binary_path {
            Some(p) => Some(p.clone()),
            None => None,
        }
    }

    /// The `Origin` header for RPC calls: the extension the daemon was started
    /// for, or the published extension.
    pub fn rpc_origin(&self) -> (r: String)
        ensures
            r@ == origin(
                match self.extension_id {
                    Some(e) => e@,
                    None => EXTENSION_ID@,
                },
            ),
    {
        match &self.extension_id {
            Some(e) => origin_for(e.as_str()),
            None => origin_for(EXTENSION_ID),
        }
    }

    /// The `Origin` header for the extension access probe, which asks as
    /// the extension would: the origin of the extension the daemon was
    /// started for, or the development token's origin when extension access
    /// is off.
    pub fn extension_probe_origin(&self) -> (r: String)
        ensures
            r@ == match self.extension_id {
                Some(e) => origin(e@),
                None => "chrome-extension://revivel-companion"@,
            },
    {
        match &self.extension_id {
            Some(e) => origin_for(e.as_str()),
            None => to_owned("chrome-extension://revivel-companion"),
        }
    }

    /// The basic-auth credentials for RPC calls, when both are known.
    pub fn rpc_credentials(&self) -> (r: Option<(String, String)>)
        ensures
            match (self.rpcuser, self.rpcpass) {
                (Some(u), Some(p)) => r matches Some((ru, rp)) && ru == u && rp == p,
                _ => r is None,
            },
    {
        match (&self.rpcuser, &self.rpcpass) {
            (Some(u), Some(p)) => Some((u.clone(), p.clone())),
            _ => None,
        }
    }

    /// Records a successful spawn of the daemon at `now_ms`.
    pub fn record_start(
        &mut self,
        now_ms: u64,
        allow_extension: bool,
        extension_id: &str,
        rpcuser: &str,
        rpcpass: &str,
    )
        requires
            old(self).restart_count < u32::MAX,
        ensures
            started_state(
                *old(self),
                now_ms,
                allow_extension,
                extension_id@,
                rpcuser@,
                rpcpass@,
                *final(self),
            ),
    {
        self.has_child = true;
        self.should_be_running = true;
        self.start_time_ms = Some(now_ms);
        self.restart_count = self.restart_count + 1;
        self.failures = 0;
        self.last_restart_ms = Some(now_ms);
        let eff = effective_extension_id(extension_id);
        if allow_extension {
            self.allowed_origin = Some(to_owned(ALLOWED_ORIGIN_ANY));
            self.extension_id = Some(eff);
        } else {
            self.allowed_origin = None;
            self.extension_id = None;
        }
        self.rpcuser = Some(to_owned(rpcuser));
        self.rpcpass = Some(to_owned(rpcpass));
    }

    /// Records that the daemon was stopped and its handle released.
    pub fn record_stop(&mut self)
        ensures
            stopped_state(*old(self), *final(self)),
    {
        self.has_child = false;
        self.should_be_running = false;
        self.start_time_ms = None;
        self.allowed_origin = None;
        self.extension_id = None;
        self.rpcuser = None;
        self.rpcpass = None;
    }

    /// Records that the child process was found to have exited.
    pub fn record_child_exited(&mut self)
        ensures
            *final(self) == (DaemonManager { has_child: false, ..*old(self) }),
    {
        self.has_child = false;
    }

    /// The restart back-off in seconds: five per failure, at most sixty.
    pub fn backoff_secs(&self) -> (r: u64)
        requires
            self.failures * 5 <= u32::MAX,
        ensures
            r == backoff_spec(self.failures),
            5 * self.failures <= 60 ==> r == 5 * self.failures,
            5 * self.failures > 60 ==> r == 60,
    {
        let d: u32 = self.failures * BACKOFF_STEP_SECS;
        if (d as u64) < MAX_BACKOFF_SECS {
            d as u64
        } else {
            MAX_BACKOFF_SECS
        }
    }

    /// Whether a maintenance round at `now_ms` should look at the daemon:
    /// only while it should be running, and not before the back-off since
    /// the last restart has passed.
    pub fn maintain_due(&self, now_ms: u64) -> (r: bool)
        requires
            self.should_be_running && self.last_restart_ms is Some ==> self.failures * 5 <= u32::MAX,
        ensures
            r == maintain_due_spec(*self, now_ms),
    {
        if !self.should_be_running {
            return false;
        }
        match self.last_restart_ms {
            Some(last) => {
                let delay = self.backoff_secs();
                let elapsed: u64 = if now_ms >= last {
                    (now_ms - last) / 1000
                } else {
                    0
                };
                elapsed >= delay
            },
            None => true,
        }
    }

    /// Appends a recovery history entry `"{wall_secs}: {what}"`.
    fn push_history(&mut self, wall_secs: u64, what: &str)
        ensures
            views(final(self).recovery_history@) == views(old(self).recovery_history@).push(
                history_entry(wall_secs, what@),
            ),
            *final(self) == (DaemonManager {
                recovery_history: final(self).recovery_history,
                ..*old(self)
            }),
    {
        let mut entry = String::new();
        push_decimal(&mut entry, wall_secs);
        push_str(&mut entry, ": ");
        push_str(&mut entry, what);
        let ghost before = self.recovery_history@;
        self.recovery_history.push(entry);
        assert(views(self.recovery_history@) =~= views(before).push(
            history_entry(wall_secs, what@),
        ));
    }

    /// Decides what a due maintenance round does once it knows whether the
    /// process is alive. A dead process counts as a failure, is recorded in
    /// the history and is started again.
    pub fn on_liveness(&mut self, alive: bool, now_ms: u64, wall_secs: u64) -> (a: MaintainAction)
        requires
            !alive ==> old(self).failures < u32::MAX,
        ensures
            alive ==> a is ProbeRpc && *final(self) == *old(self),
            !alive ==> a is Start && failure_recorded(
                *old(self),
                now_ms,
                history_entry(wall_secs, "process died"@),
                *final(self),
            ),
    {
        if alive {
            MaintainAction::ProbeRpc
        } else {
            self.failures = self.failures + 1;
            self.last_restart_ms = Some(now_ms);
            self.push_history(wall_secs, "process died");
            MaintainAction::Start
        }
    }

    /// Whether the daemon is still within its start-up grace period.
    pub fn in_grace(&self, now_ms: u64) -> (r: bool)
        ensures
            r == in_grace_spec(*self, now_ms),
    {
        match self.start_time_ms {
            Some(t) => {
                let d: u64 = if now_ms >= t {
                    now_ms - t
                } else {
                    0
                };
                d < GRACE_PERIOD_SECS * 1000
            },
            None => false,
        }
    }

    /// Decides what happens after the RPC probe. An unreachable RPC restarts
    /// the daemon (as a recorded failure) unless the daemon is still within
    /// its grace period.
    pub fn on_rpc_probe(&mut self, reachable: bool, now_ms: u64, wall_secs: u64) -> (a: RpcAction)
        requires
            !reachable && !in_grace_spec(*old(self), now_ms) ==> old(self).failures < u32::MAX,
        ensures
            reachable ==> a is QueryWallet && *final(self) == *old(self),
            !reachable && in_grace_spec(*old(self), now_ms) ==> a is Wait && *final(self) == *old(self),
            !reachable && !in_grace_spec(*old(self), now_ms) ==> a is Restart && failure_recorded(
                *old(self),
                now_ms,
                history_entry(wall_secs, "RPC unreachable"@),
                *final(self),
            ),
    {
        if reachable {
            return RpcAction::QueryWallet;
        }
        if self.in_grace(now_ms) {
            return RpcAction::Wait;
        }
        self.failures = self.failures + 1;
        self.last_restart_ms = Some(now_ms);
        self.push_history(wall_secs, "RPC unreachable");
        RpcAction::Restart
    }

    /// Looks at the wallet status (or its absence). An unhealthy wallet
    /// (not connected to an SPV server, or degraded) extends the run of
    /// disconnected rounds, a healthy one ends it. When the run reaches
    /// `SPV_DISCONNECT_LIMIT` outside the start-up grace period, the SPV
    /// connection has been lost for too long: the daemon is restarted (as a
    /// recorded failure) with the next SPV server first.
    pub fn on_wallet_status(
        &mut self,
        wallet: &Option<WalletInfo>,
        now_ms: u64,
        wall_secs: u64,
    ) -> (r: WalletOutcome)
        requires
            wallet_unhealthy(*wallet) ==> old(self).disconnected_count < u32::MAX,
            spv_failover_due(*old(self), *wallet, now_ms) ==> old(self).failures < u32::MAX
                && old(self).server_rotation < usize::MAX,
        ensures
            r.degraded_behind == match *wallet {
                Some(w) => if is_degraded(w) {
                    w.blocks_behind
                } else {
                    None
                },
                None => None,
            },
            r.restart == spv_failover_due(*old(self), *wallet, now_ms),
            !wallet_unhealthy(*wallet) ==> *final(self) == (DaemonManager {
                disconnected_count: 0,
                ..*old(self)
            }),
            wallet_unhealthy(*wallet) && !r.restart ==> *final(self) == (DaemonManager {
                disconnected_count: (old(self).disconnected_count + 1) as u32,
                ..*old(self)
            }),
            r.restart ==> spv_failover_recorded(*old(self), now_ms, wall_secs, *final(self)),
    {
        let degraded_behind = match wallet {
            Some(w) => if w.degraded() {
                w.blocks_behind
            } else {
                None
            },
            None => None,
        };
        let unhealthy = match wallet {
            Some(w) => !w.connected || w.degraded(),
            None => true,
        };
        if !unhealthy {
            self.disconnected_count = 0;
            return WalletOutcome { degraded_behind, restart: false };
        }
        if self.disconnected_count + 1 >= SPV_DISCONNECT_LIMIT && !self.in_grace(now_ms) {
            self.failures = self.failures + 1;
            self.last_restart_ms = Some(now_ms);
            self.push_history(wall_secs, "SPV disconnected");
            self.disconnected_count = 0;
            self.server_rotation = self.server_rotation + 1;
            WalletOutcome { degraded_behind, restart: true }
        } else {
            self.disconnected_count = self.disconnected_count + 1;
            WalletOutcome { degraded_behind, restart: false }
        }
    }

    /// The SPV servers to hand to the next start: the configured list
    /// rotated by the number of SPV failovers so far, so that each failover
    /// moves on to the next server.
    pub fn start_servers(&self, servers: &Vec<String>) -> (r: Vec<String>)
        ensures
            views(r@) == rotated(views(servers@), self.server_rotation as nat),
    {
        rotate_servers(servers, self.server_rotation)
    }

    /// The latest recovery history entries, newest first.
    pub fn recent_history(&self) -> (r: Vec<String>)
        ensures
            views(r@) == recent_history(views(self.recovery_history@)),
            r@.len() == if self.recovery_history@.len() < 10 {
                self.recovery_history@.len()
            } else {
                10
            },
            forall|i: int|
                0 <= i < r@.len() ==> #[trigger] r@[i]@ == self.recovery_history@[self.recovery_history@.len()
                    - 1 - i]@,
    {
        let h = &self.recovery_history;
        let n = h.len();
        let shown: usize = if n < HISTORY_SHOWN {
            n
        } else {
            HISTORY_SHOWN
        };
        let mut r: Vec<String> = Vec::new();
        let mut i: usize = 0;
        while i < shown
            invariant
                n == h.len(),
                shown <= n,
                shown == (if n < HISTORY_SHOWN {
                    n
                } else {
                    HISTORY_SHOWN
                }),
                i <= shown,
                views(r@) == recent_history(views(h@)).take(i as int),
            decreases shown - i,
        {
            let e = h[n - 1 - i].clone();
            let ghost before = r@;
            r.push(e);
            assert(views(r@) =~= views(before).push(h@[n - 1 - i]@));
            assert(views(r@) =~= recent_history(views(h@)).take(i + 1));
            i = i + 1;
        }
        assert(recent_history(views(h@)).take(shown as int) =~= recent_history(views(h@)));
        proof {
            assert forall|k: int| 0 <= k < r@.len() implies #[trigger] r@[k]@ == h@[n - 1 - k]@ by {
                assert(views(r@)[k] == r@[k]@);
                assert(views(h@)[n - 1 - k] == h@[n - 1 - k]@);
            }
        }
        r
    }

    /// The status report for the UI. `managed` tells whether our child
    /// process lives, `listening` whether the RPC answered; the wallet and
    /// the extension probe only count while the RPC answers.
    pub fn daemon_status(
        &self,
        managed: bool,
        listening: bool,
        wallet: Option<WalletInfo>,
        extension_rpc_ok: bool,
        now_ms: u64,
    ) -> (s: DaemonStatus)
        ensures
            s.running == managed,
            s.rpc_reachable == listening,
            s.binary_path == self.binary_path,
            s.wallet == (if listening {
                wallet
            } else {
                None
            }),
            s.error is None,
            s.version matches Some(v) && v@ == LBRYNET_VERSION@,
            s.allowed_origin == self.allowed_origin,
            s.extension_friendly == extension_friendly_spec(self.allowed_origin),
            s.extension_rpc_ok == (listening && extension_rpc_ok),
            s.managed == managed,
            s.listening == listening,
            s.other_daemon_detected == (listening && !managed),
            s.uptime_secs == uptime_spec(self.start_time_ms, now_ms),
            s.restart_count == self.restart_count,
            s.disconnected_count == self.disconnected_count,
            views(s.recovery_history@) == recent_history(views(self.recovery_history@)),
    {
        let allowed = match &self.allowed_origin {
            Some(o) => Some(o.clone()),
            None => None,
        };
        DaemonStatus {
            running: managed,
            rpc_reachable: listening,
            binary_path: self.get_binary_path(),
            wallet: if listening {
                wallet
            } else {
                None
            },
            error: None,
            version: Some(to_owned(LBRYNET_VERSION)),
            allowed_origin: allowed,
            extension_friendly: extension_friendly(&self.allowed_origin),
            extension_rpc_ok: listening && extension_rpc_ok,
            managed,
            listening,
            other_daemon_detected: listening && !managed,
            uptime_secs: self.uptime_secs(now_ms),
            restart_count: self.restart_count,
            disconnected_count: self.disconnected_count,
            recovery_history: self.recent_history(),
        }
    }
}

/// Whether the configured origin admits browser extensions.
pub open spec fn extension_friendly_spec(o: Option<String>) -> bool {
    match o {
        Some(s) => has_substring(s@, "chrome-extension://"@) || s@ == "*"@,
        None => false,
    }
}

/// Whether the configured origin admits browser extensions.
pub fn extension_friendly(o: &Option<String>) -> (b: bool)
    ensures
        b == extension_friendly_spec(*o),
{
    match o {
        Some(s) => {
            let v = str_chars(s.as_str());
            let p = str_chars("chrome-extension://");
            let star = str_chars("*");
            if contains_chars(&v, &p) {
                true
            } else {
                let eq = v.len() == star.len() && (v.len() == 0 || v[0] == star[0]);
                assert(eq == (s@ == "*"@)) by {
                    reveal_strlit("*");
                    if v.len() == 1 && v[0] == star[0] {
                        assert(v@ =~= star@);
                    }
                }
                eq
            }
        },
        None => false,
    }
}

/// The status report shown by the UI (transfer statistics are attached by
/// the application).
#[derive(Debug, Clone)]
pub struct DaemonStatus {
    pub running: bool,
    pub rpc_reachable: bool,
    pub binary_path: Option<String>,
    pub wallet: Option<WalletInfo>,
    pub error: Option<String>,
    pub version: Option<String>,
    pub allowed_origin: Option<String>,
    pub extension_friendly: bool,
    pub extension_rpc_ok: bool,
    pub managed: bool,
    pub listening: bool,
    pub other_daemon_detected: bool,
    pub uptime_secs: Option<u64>,
    pub restart_count: u32,
    pub disconnected_count: u32,
    pub recovery_history: Vec<String>,
}

// ---------------------------------------------------------------------------
// Starting the daemon
// ---------------------------------------------------------------------------

/// Refuses to start without RPC credentials.
pub fn check_start_credentials(rpcuser: &str, rpcpass: &str) -> (r: Result<(), AppError>)
    ensures
        r is Ok <==> (rpcuser@.len() > 0 && rpcpass@.len() > 0),
        r matches Err(e) ==> e matches AppError::Process(m) && m@ == MSG_NO_CREDENTIALS@,
{
    if rpcuser.is_empty() || rpcpass.is_empty() {
        Err(AppError::Process(to_owned(MSG_NO_CREDENTIALS)))
    } else {
        Ok(())
    }
}

/// Decides from the two port probes whether a start may proceed: when
/// anything answers without credentials the port is taken, either by our own
/// daemon (it also accepts our credentials) or by a foreign one.
pub fn check_port_free(answers_without_auth: bool, answers_with_auth: bool) -> (r: Result<(), AppError>)
    ensures
        r is Ok <==> !answers_without_auth,
        r matches Err(e) ==> e matches AppError::Process(m) && m@ == (if answers_with_auth {
            MSG_ALREADY_RUNNING@
        } else {
            MSG_PORT_IN_USE@
        }),
{
    if answers_without_auth {
        if answers_with_auth {
            Err(AppError::Process(to_owned(MSG_ALREADY_RUNNING)))
        } else {
            Err(AppError::Process(to_owned(MSG_PORT_IN_USE)))
        }
    } else {
        Ok(())
    }
}

/// The arguments given to `lbrynet start` after the data directory and
/// configuration file arguments.
pub open spec fn daemon_args_spec(
    rpcuser: Seq<char>,
    rpcpass: Seq<char>,
    servers: Seq<Seq<char>>,
    allow: bool,
) -> Seq<Seq<char>> {
    seq!["--api"@, API_ADDRESS@, "--rpcuser"@, rpcuser, "--rpcpass"@, rpcpass] + server_args(
        servers,
    ) + if allow {
        seq!["--allowed-origin"@, ALLOWED_ORIGIN_ANY@]
    } else {
        seq![]
    }
}

/// `--lbryum-server <server>` for every server, in the given order.
pub open spec fn server_args(servers: Seq<Seq<char>>) -> Seq<Seq<char>>
    decreases servers.len(),
{
    if servers.len() == 0 {
        seq![]
    } else {
        server_args(servers.drop_last()) + seq!["--lbryum-server"@, servers.last()]
    }
}

/// Builds the `lbrynet start` arguments that follow `--data-dir` and `--config`.
pub fn daemon_args(
    rpcuser: &str,
    rpcpass: &str,
    servers: &Vec<String>,
    allow_extension: bool,
) -> (r: Vec<String>)
    ensures
        views(r@) == daemon_args_spec(rpcuser@, rpcpass@, views(servers@), allow_extension),
{
    let mut r: Vec<String> = Vec::new();
    r.push(to_owned("--api"));
    r.push(to_owned(API_ADDRESS));
    r.push(to_owned("--rpcuser"));
    r.push(to_owned(rpcuser));
    r.push(to_owned("--rpcpass"));
    r.push(to_owned(rpcpass));
    let ghost head = views(r@);
    assert(head =~= seq!["--api"@, API_ADDRESS@, "--rpcuser"@, rpcuser@, "--rpcpass"@, rpcpass@]);
    let n = servers.len();
    let mut i: usize = 0;
    while i < n
        invariant
            n == servers.len(),
            i <= n,
            views(r@) == head + server_args(views(servers@.take(i as int))),
        decreases n - i,
    {
        let ghost before = views(r@);
        r.push(to_owned("--lbryum-server"));
        r.push(servers[i].clone());
        let ghost pre = views(servers@.take(i as int));
        let ghost post = views(servers@.take(i + 1));
        assert(post =~= pre.push(servers@[i as int]@));
        assert(post.drop_last() =~= pre);
        assert(views(r@) =~= before + seq!["--lbryum-server"@, servers@[i as int]@]);
        assert(views(r@) =~= head + server_args(post));
        i = i + 1;
    }
    assert(servers@.take(n as int) == servers@);
    let ghost mid = views(r@);
    if allow_extension {
        r.push(to_owned("--allowed-origin"));
        r.push(to_owned(ALLOWED_ORIGIN_ANY));
        assert(views(r@) =~= mid + seq!["--allowed-origin"@, ALLOWED_ORIGIN_ANY@]);
    } else {
        assert(mid + Seq::<Seq<char>>::empty() =~= mid);
    }
    r
}

/// What one post-start authentication probe showed.
pub enum AuthProbe {
    /// Authenticated requests work and unauthenticated ones are refused.
    Enforced,
    /// The daemon also answers unauthenticated requests.
    NotEnforced,
    /// The daemon does not answer yet.
    NotReady,
}

/// Classifies a post-start authentication probe.
pub fn classify_auth_probe(reachable_with_auth: bool, reachable_without_auth: bool) -> (r: AuthProbe)
    ensures
        !reachable_with_auth ==> r is NotReady,
        reachable_with_auth && reachable_without_auth ==> r is NotEnforced,
        reachable_with_auth && !reachable_without_auth ==> r is Enforced,
{
    if !reachable_with_auth {
        AuthProbe::NotReady
    } else if reachable_without_auth {
        AuthProbe::NotEnforced
    } else {
        AuthProbe::Enforced
    }
}

/// What to do after one post-start authentication probe.
pub enum AuthStep {
    /// Authentication is enforced: report success and stop probing.
    Confirmed,
    /// Wait `AUTH_PROBE_MS` and probe again; first warn that the daemon
    /// answered an unauthenticated request, when `warn_unauthenticated`.
    Retry { warn_unauthenticated: bool },
    /// The probes are used up: warn as above when `warn_unauthenticated`,
    /// wait `AUTH_PROBE_MS`, then report that enforcement was not confirmed.
    GiveUp { warn_unauthenticated: bool },
}

/// The step after probe number `probes_done + 1` (of `AUTH_PROBE_TRIES`)
/// showed `probe`.
pub open spec fn auth_step_spec(probes_done: u32, probe: AuthProbe) -> AuthStep {
    if probe is Enforced {
        AuthStep::Confirmed
    } else if probes_done + 1 < AUTH_PROBE_TRIES {
        AuthStep::Retry { warn_unauthenticated: probe is NotEnforced }
    } else {
        AuthStep::GiveUp { warn_unauthenticated: probe is NotEnforced }
    }
}

/// Decides what follows a post-start authentication probe, when
/// `probes_done` probes came before it.
pub fn auth_step(probes_done: u32, probe: AuthProbe) -> (r: AuthStep)
    requires
        probes_done < AUTH_PROBE_TRIES,
    ensures
        r == auth_step_spec(probes_done, probe),
{
    let warn = match probe {
        AuthProbe::Enforced => {
            return AuthStep::Confirmed;
        },
        AuthProbe::NotEnforced => true,
        AuthProbe::NotReady => false,
    };
    if probes_done + 1 < AUTH_PROBE_TRIES {
        AuthStep::Retry { warn_unauthenticated: warn }
    } else {
        AuthStep::GiveUp { warn_unauthenticated: warn }
    }
}

/// Law: the post-start authentication check stops at the first probe that
/// shows enforcement, retries after any other probe but the last, and so
/// makes at most `AUTH_PROBE_TRIES` probes.
pub proof fn law_auth_check_ends(probes_done: u32, probe: AuthProbe)
    requires
        probes_done < AUTH_PROBE_TRIES,
    ensures
        auth_step_spec(probes_done, probe) is Confirmed <==> probe is Enforced,
        auth_step_spec(probes_done, probe) is Retry <==> !(probe is Enforced) && probes_done + 1
            < AUTH_PROBE_TRIES,
        probes_done + 1 == AUTH_PROBE_TRIES ==> !(auth_step_spec(probes_done, probe) is Retry),
{
}

// ---------------------------------------------------------------------------
// Laws of the supervisor
// ---------------------------------------------------------------------------

/// Law: after a failure at time `t`, no maintenance round looks at the daemon
/// again before the back-off (five seconds per consecutive failure, at most
/// sixty) has elapsed, and one does once it has.
pub proof fn law_backoff(m: DaemonManager, t: u64, entry: Seq<char>, after: DaemonManager, later: u64)
    requires
        failure_recorded(m, t, entry, after),
        after.should_be_running,
        later >= t,
    ensures
        maintain_due_spec(after, later) <==> (later - t) / 1000 >= backoff_spec(after.failures),
{
}

/// Law: the back-off is progressive: it never shrinks as failures accumulate,
/// it never exceeds sixty seconds, and a successful start clears it.
pub proof fn law_backoff_progressive(
    f: u32,
    m: DaemonManager,
    now: u64,
    allow: bool,
    ext: Seq<char>,
    user: Seq<char>,
    pass: Seq<char>,
    started: DaemonManager,
)
    requires
        f < u32::MAX,
        started_state(m, now, allow, ext, user, pass, started),
    ensures
        backoff_spec(f) <= backoff_spec((f + 1) as u32),
        0 <= backoff_spec(f) <= MAX_BACKOFF_SECS,
        backoff_spec(started.failures) == 0,
{
}

/// Law: within the grace period after a start, an unreachable RPC never
/// leads to a restart; a stopped daemon is never within a grace period.
pub proof fn law_grace_after_start(
    m: DaemonManager,
    now: u64,
    allow: bool,
    ext: Seq<char>,
    user: Seq<char>,
    pass: Seq<char>,
    started: DaemonManager,
    later: u64,
)
    requires
        started_state(m, now, allow, ext, user, pass, started),
        now <= later,
        later - now < GRACE_PERIOD_SECS * 1000,
    ensures
        in_grace_spec(started, later),
{
}

/// Law: stopping forgets the start time, so no uptime is reported, and a
/// start at `now` reports zero uptime at `now`.
pub proof fn law_uptime(
    m: DaemonManager,
    now: u64,
    allow: bool,
    ext: Seq<char>,
    user: Seq<char>,
    pass: Seq<char>,
    started: DaemonManager,
    stopped: DaemonManager,
    any: u64,
)
    requires
        started_state(m, now, allow, ext, user, pass, started),
        stopped_state(started, stopped),
    ensures
        uptime_spec(started.start_time_ms, now) == Some(0u64),
        uptime_spec(stopped.start_time_ms, any) is None,
        !maintain_due_spec(stopped, any),
        stopped.restart_count == m.restart_count + 1,
{
}

/// Law: while extension access is on, the started daemon records that it
/// admits any origin, the configuration written for it opens CORS to that
/// same origin, and the command line passes it too; the daemon still knows
/// which extension it was started for.
pub proof fn law_started_origin(
    m: DaemonManager,
    now: u64,
    ext: Seq<char>,
    user: Seq<char>,
    pass: Seq<char>,
    started: DaemonManager,
    servers: Seq<Seq<char>>,
)
    requires
        started_state(m, now, true, ext, user, pass, started),
    ensures
        started.allowed_origin matches Some(o) && o@ == "*"@ && allowed_line(true)
            == "allowed_origin: \""@ + o@ + "\"\n"@ && daemon_args_spec(user, pass, servers, true).last()
            == o@,
        started.extension_id matches Some(e) && e@ == effective_id(ext),
{
}

/// Law: an empty extension ID falls back to the published ID, so the daemon
/// always admits some extension when extension access is on.
pub proof fn law_effective_id(ext: Seq<char>)
    ensures
        effective_id(ext).len() > 0,
        ext.len() > 0 ==> effective_id(ext) == ext,
{
    reveal_strlit("mphijnbejfkmcahhjlchcghmjegoefkf");
}

/// Law: an SPV failover restarts the daemon with the next SPV server first.
/// It is counted as a failure (so the restart back-off grows), ends the run of
/// disconnected rounds, and the list handed to the next start begins one
/// server further on; with more than one server that is another server.
pub proof fn law_spv_failover(
    m: DaemonManager,
    wallet: Option<WalletInfo>,
    now: u64,
    wall_secs: u64,
    new: DaemonManager,
    servers: Seq<Seq<char>>,
)
    requires
        spv_failover_due(m, wallet, now),
        spv_failover_recorded(m, now, wall_secs, new),
        servers.len() > 0,
    ensures
        wallet_unhealthy(wallet),
        new.failures == m.failures + 1,
        new.disconnected_count == 0,
        rotated(servers, new.server_rotation as nat)[0] == servers[(
        (m.server_rotation + 1) % servers.len() as int)],
        servers.len() > 1 ==> (m.server_rotation + 1) % (servers.len() as int) != (m.server_rotation
            as int) % (servers.len() as int),
{
    crate::settings::law_rotation(servers, new.server_rotation as nat);
    let n = servers.len() as int;
    let k = m.server_rotation as int;
    if n > 1 {
        assert((k + 1) % n != k % n) by (nonlinear_arith)
            requires n > 1, k >= 0;
    }
}

/// Law: the restart back-off grows by five seconds per consecutive failure
/// and stops at sixty: `min(60, 5 * failures)`.
pub proof fn law_backoff_formula(failures: u32)
    ensures
        5 * failures <= 60 ==> backoff_spec(failures) == 5 * failures,
        5 * failures > 60 ==> backoff_spec(failures) == 60,
        backoff_spec(0) == 0,
        backoff_spec(1) == 5,
        backoff_spec(2) == 10,
{
}

/// Law: the history shown is the last ten entries (all of them when there
/// are fewer), newest first: entry `i` is the `i`-th from the end.
pub proof fn law_recent_history_newest_first(h: Seq<Seq<char>>)
    ensures
        recent_history(h).len() == if h.len() < 10 {
            h.len()
        } else {
            10
        },
        forall|i: int|
            0 <= i < recent_history(h).len() ==> #[trigger] recent_history(h)[i] == h[h.len() - 1
                - i],
        h.len() > 0 ==> recent_history(h)[0] == h.last(),
{
}

proof fn lemma_server_args(servers: Seq<Seq<char>>)
    ensures
        server_args(servers).len() == 2 * servers.len(),
        forall|k: int|
            0 <= k < servers.len() ==> #[trigger] server_args(servers)[2 * k] == "--lbryum-server"@,
        forall|k: int|
            0 <= k < servers.len() ==> #[trigger] server_args(servers)[2 * k + 1] == servers[k],
    decreases servers.len(),
{
    if servers.len() > 0 {
        let init = servers.drop_last();
        lemma_server_args(init);
        let a = server_args(init);
        let b = seq!["--lbryum-server"@, servers.last()];
        assert(server_args(servers) == a + b);
        assert forall|k: int| 0 <= k < servers.len() implies #[trigger] server_args(servers)[2 * k]
            == "--lbryum-server"@ by {
            if k < init.len() {
                assert(server_args(servers)[2 * k] == a[2 * k]);
            } else {
                assert(server_args(servers)[2 * k] == b[0]);
            }
        }
        assert forall|k: int| 0 <= k < servers.len() implies #[trigger] server_args(servers)[2 * k
            + 1] == servers[k] by {
            if k < init.len() {
                assert(server_args(servers)[2 * k + 1] == a[2 * k + 1]);
                assert(init[k] == servers[k]);
            } else {
                assert(server_args(servers)[2 * k + 1] == b[1]);
            }
        }
    }
}

/// Law: the `lbrynet start` arguments are the API address and the
/// credentials, then `--lbryum-server <s>` for every server `s` in order,
/// whether or not extension access is on; extension access only appends
/// `--allowed-origin *`.
pub proof fn law_daemon_args_servers(
    user: Seq<char>,
    pass: Seq<char>,
    servers: Seq<Seq<char>>,
    allow: bool,
)
    ensures
        ({
            let a = daemon_args_spec(user, pass, servers, allow);
            &&& a.len() == 6 + 2 * servers.len() + if allow {
                2int
            } else {
                0int
            }
            &&& a[0] == "--api"@ && a[1] == API_ADDRESS@
            &&& a[2] == "--rpcuser"@ && a[3] == user
            &&& a[4] == "--rpcpass"@ && a[5] == pass
            &&& forall|k: int| 0 <= k < servers.len() ==> #[trigger] a[6 + 2 * k] == "--lbryum-server"@
            &&& forall|k: int| 0 <= k < servers.len() ==> #[trigger] a[6 + 2 * k + 1] == servers[k]
            &&& allow ==> a[6 + 2 * servers.len() as int] == "--allowed-origin"@ && a[7 + 2
                * servers.len() as int] == "*"@
        }),
        daemon_args_spec(user, pass, servers, true) == daemon_args_spec(user, pass, servers, false)
            + seq!["--allowed-origin"@, "*"@],
{
    lemma_server_args(servers);
    let head = seq!["--api"@, API_ADDRESS@, "--rpcuser"@, user, "--rpcpass"@, pass];
    let sa = server_args(servers);
    let a = daemon_args_spec(user, pass, servers, allow);
    assert forall|k: int| 0 <= k < servers.len() implies #[trigger] a[6 + 2 * k] == "--lbryum-server"@ by {
        assert(a[6 + 2 * k] == sa[2 * k]);
    }
    assert forall|k: int| 0 <= k < servers.len() implies #[trigger] a[6 + 2 * k + 1] == servers[k] by {
        assert(a[6 + 2 * k + 1] == sa[2 * k + 1]);
    }
    assert(head + sa + Seq::<Seq<char>>::empty() =~= head + sa);
    reveal_strlit("*");
    assert(ALLOWED_ORIGIN_ANY@ == "*"@);
}

} // verus!

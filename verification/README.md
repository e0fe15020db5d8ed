# ReviveL Companion core

The companion keeps a local `lbrynet` daemon (SPV wallet mode) running at
`127.0.0.1:5279` for the ReviveL browser extension, forwards `lbry://`
addresses to the extension's player, and serves as its native messaging host.

`src/` is the verified library (Verus):

- `text` — character-level string helpers with exact specifications
- `settings` — settings, defaults, SPV server ordering, RPC credential generation
- `config` — the `daemon_settings.yml` text, including the line dedent
- `urls` — player URLs (percent-encoding), origins, download locations, host manifest
- `daemon` — the supervisor state machine: start/stop bookkeeping, restart back-off,
  grace period, SPV failover (a restart on the next SPV server after a long
  disconnection), the post-start authentication check, status report,
  `lbrynet start` arguments
- `native` — native messaging framing, which frames are skipped, and message
  handling decisions and replies
- `archive` — picking the lbrynet executable out of the release archive
- `logs` — log file names, log lines, crash tails
- `ui` — tray menu and folder decisions

`app/` is the Tauri desktop program around it: processes, HTTP probes, files,
timers, the tray and window, JSON (de)serialisation and the transfer statistics
(which are floating point).

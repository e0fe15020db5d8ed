//! Small decisions behind the tray menu, the folder buttons, saving settings
//! and the supervisor loop.
use vstd::prelude::*;

use crate::settings::AppSettings;
use crate::text::str_eq;

verus! {

broadcast use vstd::string::group_string_axioms;

/// Seconds between two supervisor ticks beyond which a suspend/resume is suspected.
pub const LONG_GAP_SECS: u64 = 30;

/// Tray menu entries.
pub enum MenuCommand {
    Show,
    Start,
    Stop,
    Quit,
}

/// The command of a tray menu item id, if it is one of ours.
pub fn menu_command(id: &str) -> (r: Option<MenuCommand>)
    ensures
        id@ == "show"@ ==> r matches Some(MenuCommand::Show),
        id@ == "start"@ ==> r matches Some(MenuCommand::Start),
        id@ == "stop"@ ==> r matches Some(MenuCommand::Stop),
        id@ == "quit"@ ==> r matches Some(MenuCommand::Quit),
        id@ != "show"@ && id@ != "start"@ && id@ != "stop"@ && id@ != "quit"@ ==> r is None,
{
    proof {
        reveal_strlit("show");
        reveal_strlit("start");
        reveal_strlit("stop");
        reveal_strlit("quit");
        assert("show"@.len() == 4);
        assert("start"@.len() == 5);
        assert("stop"@.len() == 4);
        assert("quit"@.len() == 4);
        assert("show"@[1] != "stop"@[1]);
        assert("show"@[0] != "quit"@[0]);
        assert("stop"@[0] != "quit"@[0]);
    }
    if str_eq(id, "show") {
        Some(MenuCommand::Show)
    } else if str_eq(id, "start") {
        Some(MenuCommand::Start)
    } else if str_eq(id, "stop") {
        Some(MenuCommand::Stop)
    } else if str_eq(id, "quit") {
        Some(MenuCommand::Quit)
    } else {
        None
    }
}

/// Folders the UI can open.
pub enum Folder {
    Logs,
    Data,
}

/// The folder named by the UI: `logs`, or the data folder for anything else.
pub fn folder_for(which: &str) -> (f: Folder)
    ensures
        (f is Logs) == (which@ == "logs"@),
{
    if str_eq(which, "logs") {
        Folder::Logs
    } else {
        Folder::Data
    }
}

/// Whether saving `saved` should start the daemon: when the settings ask
/// for it to start automatically and it is not running yet.
pub fn start_after_save(saved: &AppSettings, daemon_running: bool) -> (b: bool)
    ensures
        b == (saved.auto_start_daemon && !daemon_running),
{
    saved.auto_start_daemon && !daemon_running
}

/// Whether the gap between two supervisor ticks suggests a suspend/resume.
pub fn is_long_gap(gap_secs: u64) -> (b: bool)
    ensures
        b == (gap_secs > LONG_GAP_SECS),
{
    gap_secs > LONG_GAP_SECS
}

} // verus!

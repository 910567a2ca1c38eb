//! The checks the UI's commands make before acting: URLs, folders, the
//! editor to run, the pid to stop, and the system-service gate.
use vstd::prelude::*;

use crate::app_settings::AppSettings;
use crate::platform::path_validation::{
    assert_system_actions_allowed, result_view, system_actions_spec, unit_result_view,
};
use crate::poller::{find_index, PortPoller};
use crate::text::{
    chars_of, concat, eq_str, starts_with, starts_with_str, string_of, trim, trim_vec,
};

verus! {

/// A URL to open: trimmed, non-empty, and HTTP or HTTPS.
pub open spec fn url_check_spec(url: Seq<char>) -> Result<Seq<char>, Seq<char>> {
    let t = trim(url);
    if t.len() == 0 {
        Err("URL is empty"@)
    } else if !starts_with(t, "http://"@) && !starts_with(t, "https://"@) {
        Err("URL must start with http:// or https://"@)
    } else {
        Ok(t)
    }
}

/// Checks a URL before it is opened; gives the trimmed URL.
pub fn open_url(url: &str) -> (r: Result<String, String>)
    ensures
        result_view(r) == url_check_spec(url@),
{
    let t = trim_vec(&chars_of(url));
    if t.len() == 0 {
        return Err(string_of(&chars_of("URL is empty")));
    }
    if !starts_with_str(&t, "http://") && !starts_with_str(&t, "https://") {
        return Err(string_of(&chars_of("URL must start with http:// or https://")));
    }
    Ok(string_of(&t))
}

/// A path to show in the file manager: trimmed, non-empty, existing
/// (`exists` tells whether the trimmed path does).
pub open spec fn finder_check_spec(path: Seq<char>, exists: bool) -> Result<Seq<char>, Seq<char>> {
    let t = trim(path);
    if t.len() == 0 {
        Err("Path is empty"@)
    } else if !exists {
        Err("Path does not exist: "@ + t)
    } else {
        Ok(t)
    }
}

/// Checks a path before it is shown in the file manager; gives the trimmed
/// path.
pub fn open_in_finder_blocking(path: &str, exists: bool) -> (r: Result<String, String>)
    ensures
        result_view(r) == finder_check_spec(path@, exists),
{
    let t = trim_vec(&chars_of(path));
    if t.len() == 0 {
        return Err(string_of(&chars_of("Path is empty")));
    }
    if !exists {
        return Err(string_of(&concat(&chars_of("Path does not exist: "), &t)));
    }
    Ok(string_of(&t))
}

/// A folder to open a terminal or an editor in: trimmed, non-empty, an
/// existing directory (`is_dir` tells whether the trimmed path is one).
pub open spec fn folder_check_spec(cwd: Seq<char>, is_dir: bool) -> Result<Seq<char>, Seq<char>> {
    let t = trim(cwd);
    if t.len() == 0 {
        Err("Working directory is empty"@)
    } else if !is_dir {
        Err("Directory does not exist: "@ + t)
    } else {
        Ok(t)
    }
}

/// Checks a folder before a terminal is opened in it; gives the trimmed
/// folder.
pub fn open_in_terminal_blocking(cwd: &str, is_dir: bool) -> (r: Result<String, String>)
    ensures
        result_view(r) == folder_check_spec(cwd@, is_dir),
{
    let t = trim_vec(&chars_of(cwd));
    if t.len() == 0 {
        return Err(string_of(&chars_of("Working directory is empty")));
    }
    if !is_dir {
        return Err(string_of(&concat(&chars_of("Directory does not exist: "), &t)));
    }
    Ok(string_of(&t))
}

/// The editor program: `code` when asked for, `cursor` otherwise.
pub open spec fn editor_binary_spec(editor: Seq<char>) -> Seq<char> {
    if editor == "code"@ {
        "code"@
    } else {
        "cursor"@
    }
}

/// A folder and editor to open it in: the folder checked as for a terminal.
pub open spec fn editor_check_spec(cwd: Seq<char>, is_dir: bool, editor: Seq<char>) -> Result<
    (Seq<char>, Seq<char>),
    Seq<char>,
> {
    match folder_check_spec(cwd, is_dir) {
        Err(e) => Err(e),
        Ok(t) => Ok((t, editor_binary_spec(editor))),
    }
}

/// The plain values of a pair of texts or an error.
pub open spec fn pair_result_view(r: Result<(String, String), String>) -> Result<
    (Seq<char>, Seq<char>),
    Seq<char>,
> {
    match r {
        Ok((a, b)) => Ok((a@, b@)),
        Err(e) => Err(e@),
    }
}

/// Checks a folder before an editor is opened in it; gives the trimmed
/// folder and the editor program to run.
pub fn open_in_editor_blocking(cwd: &str, is_dir: bool, editor: &str) -> (r: Result<
    (String, String),
    String,
>)
    ensures
        pair_result_view(r) == editor_check_spec(cwd@, is_dir, editor@),
{
    let folder = open_in_terminal_blocking(cwd, is_dir)?;
    let binary = if eq_str(&chars_of(editor), "code") {
        "code".to_owned()
    } else {
        "cursor".to_owned()
    };
    Ok((folder, binary))
}

/// A process counts as a system service when the last scan says so, or when
/// the last scan does not list it at all.
pub open spec fn system_service_spec(listed: Option<bool>) -> bool {
    match listed {
        Some(b) => b,
        None => true,
    }
}

/// Whether the process `pid` counts as a system service.
pub fn is_system_service_for_pid(poller: &PortPoller, pid: u32) -> (b: bool)
    ensures
        b == system_service_spec(
            match find_index(poller@.last_result, pid) {
                Some(i) => Some(poller@.last_result[i].is_system_service),
                None => None,
            },
        ),
{
    match poller.is_system_service(pid) {
        Some(b) => b,
        None => true,
    }
}

/// Whether an action on `pid` may go ahead: not on a system service (or an
/// unlisted process) unless the settings allow it.
pub open spec fn action_allowed_spec(
    poller: crate::poller::PollerView,
    allow: bool,
    pid: u32,
) -> Result<(), Seq<char>> {
    system_actions_spec(
        system_service_spec(
            match find_index(poller.last_result, pid) {
                Some(i) => Some(poller.last_result[i].is_system_service),
                None => None,
            },
        ),
        allow,
    )
}

/// Refuses an action on a system service unless the settings allow it.
pub fn assert_process_action_allowed(poller: &PortPoller, settings: &AppSettings, pid: u32) -> (r:
    Result<(), String>)
    ensures
        unit_result_view(r) == action_allowed_spec(
            poller@,
            settings@.allow_system_process_actions,
            pid,
        ),
{
    let allow = settings.allow_system_process_actions();
    let is_system = is_system_service_for_pid(poller, pid);
    assert_system_actions_allowed(is_system, allow)
}

/// Stopping `pid`: pid 0 is refused, then the system-service gate applies.
pub open spec fn stop_check_spec(
    poller: crate::poller::PollerView,
    allow: bool,
    pid: u32,
) -> Result<(), Seq<char>> {
    if pid == 0 {
        Err("Invalid PID"@)
    } else {
        action_allowed_spec(poller, allow, pid)
    }
}

/// Checks a request to stop `pid` before any signal is sent.
pub fn stop_process_blocking(poller: &PortPoller, settings: &AppSettings, pid: u32) -> (r: Result<
    (),
    String,
>)
    ensures
        unit_result_view(r) == stop_check_spec(poller@, settings@.allow_system_process_actions, pid),
{
    if pid == 0 {
        return Err(string_of(&chars_of("Invalid PID")));
    }
    assert_process_action_allowed(poller, settings, pid)
}

/// A process the last scan does not list is treated as a system service:
/// with system actions off, acting on it is refused.
pub proof fn law_unlisted_processes_are_guarded(poller: crate::poller::PollerView, pid: u32)
    requires
        find_index(poller.last_result, pid) is None,
    ensures
        action_allowed_spec(poller, false, pid) is Err,
{
}

} // verus!

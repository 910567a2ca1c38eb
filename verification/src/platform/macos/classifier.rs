//! Which macOS processes ship with the system, belong to another account,
//! or are the user's.
use vstd::prelude::*;

use crate::classifier::{
    script_under_home, script_under_home_exec, set_kind, under_home, under_home_exec, with_kind,
    SystemKind, UserEnv,
};
use crate::scanner::{PortProcess, ProcessView};
use crate::text::{
    chars_of_string, concat_str, contains, contains_str, eq_str, eq_vec, starts_with,
    starts_with_str, starts_with_vec,
};

verus! {

/// Shipped by Apple: under `/System`, `/usr/sbin`, `/sbin`, `/Library/Apple`
/// or `/usr/` (but not `/usr/local/`), or started with a `com.apple.` label.
pub open spec fn is_apple_binary(exe: Seq<char>, cmd: Seq<char>) -> bool {
    starts_with(exe, "/System"@) || starts_with(exe, "/usr/sbin"@) || starts_with(exe, "/sbin"@)
        || starts_with(exe, "/Library/Apple"@) || (starts_with(exe, "/usr/"@) && !starts_with(
        exe,
        "/usr/local/"@,
    )) || contains(cmd, "com.apple."@)
}

/// `root`, or a `_`-prefixed service account other than the current user.
pub open spec fn is_system_user(user: Seq<char>, current: Seq<char>) -> bool {
    user == "root"@ || (starts_with(user, "_"@) && user != current)
}

/// Under `/Applications/` or the user's own `~/Applications/`.
pub open spec fn under_applications(path: Seq<char>, home: Seq<char>) -> bool {
    starts_with(path, "/Applications/"@) || starts_with(path, home + "/Applications/"@)
}

/// A binary that lives neither under home nor in an applications folder.
pub open spec fn binary_outside_home(exe: Seq<char>, home: Seq<char>) -> bool {
    exe.len() > 0 && !starts_with(exe, home) && !under_applications(exe, home)
}

/// The kind of a macOS process, judged in order: the current user's project
/// (working directory or script under home), an Apple binary, a system
/// account, the current user's own binary (under home or an applications
/// folder), any other binary outside home, and finally by owner.
pub open spec fn kind_spec(p: ProcessView, home: Seq<char>, current: Seq<char>) -> SystemKind {
    let is_current = p.user == current;
    if is_current && (under_home(p.working_directory, home) || script_under_home(
        p.script_path,
        home,
    )) {
        SystemKind::User
    } else if is_apple_binary(p.executable_path, p.command_line) {
        SystemKind::Apple
    } else if is_system_user(p.user, current) {
        SystemKind::System
    } else if is_current && (under_home(p.executable_path, home) || under_applications(
        p.executable_path,
        home,
    )) {
        SystemKind::User
    } else if binary_outside_home(p.executable_path, home) {
        SystemKind::System
    } else if is_current {
        SystemKind::User
    } else {
        SystemKind::System
    }
}

fn is_apple_binary_exec(exe: &Vec<char>, cmd: &Vec<char>) -> (b: bool)
    ensures
        b == is_apple_binary(exe@, cmd@),
{
    starts_with_str(exe, "/System") || starts_with_str(exe, "/usr/sbin") || starts_with_str(
        exe,
        "/sbin",
    ) || starts_with_str(exe, "/Library/Apple") || (starts_with_str(exe, "/usr/")
        && !starts_with_str(exe, "/usr/local/")) || contains_str(cmd, "com.apple.")
}

fn is_system_user_exec(user: &Vec<char>, current: &Vec<char>) -> (b: bool)
    ensures
        b == is_system_user(user@, current@),
{
    eq_str(user, "root") || (starts_with_str(user, "_") && !eq_vec(user, current))
}

fn under_applications_exec(path: &Vec<char>, home: &Vec<char>) -> (b: bool)
    ensures
        b == under_applications(path@, home@),
{
    let own = concat_str(home, "/Applications/");
    starts_with_str(path, "/Applications/") || starts_with_vec(path, &own)
}

/// The kind of a macOS process (see `kind_spec`).
pub fn detect_system_kind(process: &PortProcess, env: &UserEnv) -> (k: SystemKind)
    ensures
        k == kind_spec(process@, env.home@, env.username@),
{
    let home = chars_of_string(&env.home);
    let current = chars_of_string(&env.username);
    let user = chars_of_string(&process.user);
    let wd = chars_of_string(&process.working_directory);
    let exe = chars_of_string(&process.executable_path);
    let cmd = chars_of_string(&process.command_line);
    let is_current = eq_vec(&user, &current);
    if is_current && (under_home_exec(&wd, &home) || script_under_home_exec(
        &process.script_path,
        &home,
    )) {
        SystemKind::User
    } else if is_apple_binary_exec(&exe, &cmd) {
        SystemKind::Apple
    } else if is_system_user_exec(&user, &current) {
        SystemKind::System
    } else if is_current && (under_home_exec(&exe, &home) || under_applications_exec(&exe, &home)) {
        SystemKind::User
    } else if exe.len() > 0 && !starts_with_vec(&exe, &home) && !under_applications_exec(
        &exe,
        &home,
    ) {
        SystemKind::System
    } else if is_current {
        SystemKind::User
    } else {
        SystemKind::System
    }
}

/// Classifies a macOS process: sets its kind, and flags it as a system
/// service unless it is the user's.
pub fn classify(process: &mut PortProcess, env: &UserEnv)
    ensures
        *final(process) == with_kind(*old(process), kind_spec(old(process)@, env.home@, env.username@)),
{
    let kind = detect_system_kind(process, env);
    set_kind(process, kind);
}

/// A process of the current user that runs a project under home (its
/// working directory, or the script it runs, is non-empty and begins with
/// the home path) is the user's own, and so is shown, whatever binary runs
/// it, even an Apple binary.
pub proof fn law_user_projects_are_the_users(p: ProcessView, home: Seq<char>, current: Seq<char>)
    requires
        p.user == current,
        (p.working_directory.len() > 0 && home.len() <= p.working_directory.len()
            && p.working_directory.subrange(0, home.len() as int) == home) || (match p.script_path {
            Some(s) => s.len() > 0 && home.len() <= s.len() && s.subrange(0, home.len() as int) == home,
            None => false,
        }),
    ensures
        kind_spec(p, home, current) == SystemKind::User,
{
}

/// A process of another account is never counted as the user's own.
pub proof fn law_others_processes_are_not_the_users(p: ProcessView, home: Seq<char>, current: Seq<char>)
    requires
        p.user != current,
    ensures
        kind_spec(p, home, current) != SystemKind::User,
{
}

/// A binary under `/System` or `/usr/sbin`, or under `/usr/` outside
/// `/usr/local/`, is Apple's, unless it runs the current user's project.
pub proof fn law_apple_binaries_are_apples(p: ProcessView, home: Seq<char>, current: Seq<char>)
    requires
        starts_with(p.executable_path, "/System/"@) || starts_with(p.executable_path, "/usr/sbin/"@)
            || (starts_with(p.executable_path, "/usr/"@) && !starts_with(
            p.executable_path,
            "/usr/local/"@,
        )),
        !(p.user == current && (under_home(p.working_directory, home) || script_under_home(
            p.script_path,
            home,
        ))),
    ensures
        kind_spec(p, home, current) == SystemKind::Apple,
{
    reveal_strlit("/System/");
    reveal_strlit("/System");
    reveal_strlit("/usr/sbin/");
    reveal_strlit("/usr/sbin");
    if starts_with(p.executable_path, "/System/"@) {
        assert("/System/"@.subrange(0, 7) =~= "/System"@);
        crate::text::lemma_starts_with_prefix(p.executable_path, "/System/"@, "/System"@);
    }
    if starts_with(p.executable_path, "/usr/sbin/"@) {
        assert("/usr/sbin/"@.subrange(0, 9) =~= "/usr/sbin"@);
        crate::text::lemma_starts_with_prefix(p.executable_path, "/usr/sbin/"@, "/usr/sbin"@);
    }
}

} // verus!

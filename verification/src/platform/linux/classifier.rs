//! Which Linux processes belong to the distribution, to the system, or to
//! the user.
use vstd::prelude::*;

use crate::classifier::{
    script_under_home, script_under_home_exec, set_kind, under_home, under_home_exec, with_kind,
    SystemKind, UserEnv,
};
use crate::scanner::{PortProcess, ProcessView};
use crate::text::{chars_of_string, eq_str, eq_vec, starts_with, starts_with_str};

verus! {

/// Installed by the distribution: under `/usr` (but not `/usr/local`),
/// `/bin`, `/sbin` or `/lib`.
pub open spec fn is_distro_binary(exe: Seq<char>) -> bool {
    if exe.len() == 0 {
        false
    } else if starts_with(exe, "/usr/bin/"@) || starts_with(exe, "/usr/lib/"@) || starts_with(
        exe,
        "/usr/sbin/"@,
    ) || starts_with(exe, "/bin/"@) || starts_with(exe, "/sbin/"@) || starts_with(exe, "/lib/"@) {
        !starts_with(exe, "/usr/local/"@)
    } else {
        starts_with(exe, "/usr/"@) && !starts_with(exe, "/usr/local/"@)
    }
}

/// `root`, `nobody`, or a `_`-prefixed service account other than the
/// current user.
pub open spec fn is_system_user(user: Seq<char>, current: Seq<char>) -> bool {
    user == "root"@ || user == "nobody"@ || (starts_with(user, "_"@) && user != current)
}

/// The kind of a Linux process, judged in order: the current user's project
/// (working directory or script under home), a distribution binary, a system
/// account, the current user's own binary under home, any other binary
/// outside home, and finally by owner.
pub open spec fn kind_spec(p: ProcessView, home: Seq<char>, current: Seq<char>) -> SystemKind {
    let is_current = p.user == current;
    if is_current && (under_home(p.working_directory, home) || script_under_home(
        p.script_path,
        home,
    )) {
        SystemKind::User
    } else if is_distro_binary(p.executable_path) {
        SystemKind::Distro
    } else if is_system_user(p.user, current) {
        SystemKind::System
    } else if is_current && under_home(p.executable_path, home) {
        SystemKind::User
    } else if p.executable_path.len() > 0 && !starts_with(p.executable_path, home) {
        SystemKind::System
    } else if is_current {
        SystemKind::User
    } else {
        SystemKind::System
    }
}

fn is_distro_binary_exec(exe: &Vec<char>) -> (b: bool)
    ensures
        b == is_distro_binary(exe@),
{
    if exe.len() == 0 {
        false
    } else if starts_with_str(exe, "/usr/bin/") || starts_with_str(exe, "/usr/lib/")
        || starts_with_str(exe, "/usr/sbin/") || starts_with_str(exe, "/bin/") || starts_with_str(
        exe,
        "/sbin/",
    ) || starts_with_str(exe, "/lib/") {
        !starts_with_str(exe, "/usr/local/")
    } else {
        starts_with_str(exe, "/usr/") && !starts_with_str(exe, "/usr/local/")
    }
}

fn is_system_user_exec(user: &Vec<char>, current: &Vec<char>) -> (b: bool)
    ensures
        b == is_system_user(user@, current@),
{
    eq_str(user, "root") || eq_str(user, "nobody") || (starts_with_str(user, "_") && !eq_vec(
        user,
        current,
    ))
}

/// The kind of a Linux process (see `kind_spec`).
pub fn detect_system_kind(process: &PortProcess, env: &UserEnv) -> (k: SystemKind)
    ensures
        k == kind_spec(process@, env.home@, env.username@),
{
    let home = chars_of_string(&env.home);
    let current = chars_of_string(&env.username);
    let user = chars_of_string(&process.user);
    let wd = chars_of_string(&process.working_directory);
    let exe = chars_of_string(&process.executable_path);
    let is_current = eq_vec(&user, &current);
    if is_current && (under_home_exec(&wd, &home) || script_under_home_exec(
        &process.script_path,
        &home,
    )) {
        SystemKind::User
    } else if is_distro_binary_exec(&exe) {
        SystemKind::Distro
    } else if is_system_user_exec(&user, &current) {
        SystemKind::System
    } else if is_current && under_home_exec(&exe, &home) {
        SystemKind::User
    } else if exe.len() > 0 && !crate::text::starts_with_vec(&exe, &home) {
        SystemKind::System
    } else if is_current {
        SystemKind::User
    } else {
        SystemKind::System
    }
}

/// Classifies a Linux process: sets its kind, and flags it as a system
/// service unless it is the user's.
pub fn classify(process: &mut PortProcess, env: &UserEnv)
    ensures
        *final(process) == with_kind(*old(process), kind_spec(old(process)@, env.home@, env.username@)),
{
    let kind = detect_system_kind(process, env);
    set_kind(process, kind);
}

/// A process of the current user that runs a project under home (its
/// working directory, or the script it runs, is non-empty and begins with
/// the home path) is the user's own, and so is shown, whatever binary runs
/// it, even a distribution binary.
pub proof fn law_user_projects_are_the_users(p: ProcessView, home: Seq<char>, current: Seq<char>)
    requires
        p.user == current,
        (p.working_directory.len() > 0 && home.len() <= p.working_directory.len()
            && p.working_directory.subrange(0, home.len() as int) == home) || (match p.script_path {
            Some(s) => s.len() > 0 && home.len() <= s.len() && s.subrange(0, home.len() as int) == home,
            None => false,
        }),
    ensures
        kind_spec(p, home, current) == SystemKind::User,
{
}

/// A process of another account is never counted as the user's own.
pub proof fn law_others_processes_are_not_the_users(p: ProcessView, home: Seq<char>, current: Seq<char>)
    requires
        p.user != current,
    ensures
        kind_spec(p, home, current) != SystemKind::User,
{
}

/// A binary under `/usr/bin/` or `/bin/` belongs to the distribution, unless
/// it runs the current user's project.
pub proof fn law_distro_binaries_are_the_distros(p: ProcessView, home: Seq<char>, current: Seq<char>)
    requires
        starts_with(p.executable_path, "/usr/bin/"@) || starts_with(p.executable_path, "/bin/"@),
        !(p.user == current && (under_home(p.working_directory, home) || script_under_home(
            p.script_path,
            home,
        ))),
    ensures
        kind_spec(p, home, current) == SystemKind::Distro,
{
    reveal_strlit("/usr/bin/");
    reveal_strlit("/bin/");
    reveal_strlit("/usr/local/");
    if starts_with(p.executable_path, "/usr/bin/"@) {
        crate::text::lemma_starts_with_differs(p.executable_path, "/usr/bin/"@, "/usr/local/"@, 5);
    } else {
        crate::text::lemma_starts_with_differs(p.executable_path, "/bin/"@, "/usr/local/"@, 1);
    }
}

} // verus!

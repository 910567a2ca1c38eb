//! Which Windows processes ship with the system, run as a service account,
//! or are the user's.
use vstd::prelude::*;

use crate::classifier::{set_kind, with_kind, SystemKind, UserEnv};
use crate::platform::windows::paths::{
    is_microsoft_path, is_microsoft_spec, path_starts_with, path_starts_with_spec, resolved_view,
    strings_view, WindowsDirs,
};
use crate::scanner::{PortProcess, ProcessView};
use crate::text::{
    ascii_lower, ascii_lower_vec, ascii_upper, ascii_upper_vec, chars_of, chars_of_string, concat,
    contains, contains_str, ends_with, ends_with_vec, eq_vec, rfind, rfind_vec, starts_with,
    starts_with_str,
};

verus! {

/// A service account: the name (upper-cased) mentions `SYSTEM`,
/// `LOCAL SERVICE` or `NETWORK SERVICE`, or lives in the `NT AUTHORITY` or
/// `NT SERVICE` domain.
pub open spec fn is_system_user(user: Seq<char>) -> bool {
    let u = ascii_upper(user);
    contains(u, "SYSTEM"@) || contains(u, "LOCAL SERVICE"@) || contains(u, "NETWORK SERVICE"@)
        || starts_with(u, "NT AUTHORITY\\"@) || starts_with(u, "NT SERVICE\\"@)
}

/// The account name after the last `\` (the whole name when there is none).
pub open spec fn account_part(s: Seq<char>) -> Seq<char> {
    match rfind(s, "\\"@) {
        Some(i) => s.skip(i + 1),
        None => s,
    }
}

/// Two account names denote the same user, ignoring case: equal, one is the
/// other qualified by a domain (`DOMAIN\name`), or their last segments agree.
pub open spec fn users_match_spec(left: Seq<char>, right: Seq<char>) -> bool {
    let l = ascii_lower(left);
    let r = ascii_lower(right);
    l == r || ends_with(l, "\\"@ + r) || ends_with(r, "\\"@ + l) || account_part(l)
        == account_part(r)
}

fn account_part_exec(s: &Vec<char>) -> (r: Vec<char>)
    ensures
        r@ == account_part(s@),
{
    let sep = chars_of("\\");
    proof {
        reveal_strlit("\\");
    }
    match rfind_vec(s, &sep) {
        Some(i) => {
            proof {
                crate::platform::shared::lemma_rfind_upto(s@, sep@, s@.len() - sep@.len());
            }
            assert(i < s.len());
            let start: usize = i + 1;
            crate::text::slice(s, start, s.len())
        },
        None => s.clone(),
    }
}

/// Whether two account names denote the same user (see `users_match_spec`).
pub fn users_match(left: &str, right: &str) -> (b: bool)
    ensures
        b == users_match_spec(left@, right@),
{
    let l = ascii_lower_vec(&chars_of(left));
    let r = ascii_lower_vec(&chars_of(right));
    let sep = chars_of("\\");
    proof {
        reveal_strlit("\\");
    }
    eq_vec(&l, &r) || ends_with_vec(&l, &concat(&sep, &r)) || ends_with_vec(&r, &concat(&sep, &l))
        || eq_vec(&account_part_exec(&l), &account_part_exec(&r))
}

fn is_system_user_exec(user: &Vec<char>) -> (b: bool)
    ensures
        b == is_system_user(user@),
{
    let u = ascii_upper_vec(user);
    contains_str(&u, "SYSTEM") || contains_str(&u, "LOCAL SERVICE") || contains_str(
        &u,
        "NETWORK SERVICE",
    ) || starts_with_str(&u, "NT AUTHORITY\\") || starts_with_str(&u, "NT SERVICE\\")
}

/// The path is non-empty and lies under home (as written or resolved).
pub open spec fn under_home_spec(
    path: Seq<char>,
    home: Seq<char>,
    dirs_resolved: Seq<(Seq<char>, Option<Seq<char>>)>,
) -> bool {
    path.len() > 0 && path_starts_with_spec(path, home, dirs_resolved)
}

fn is_under_user_home(path: &String, home: &String, dirs: &WindowsDirs) -> (b: bool)
    ensures
        b == under_home_spec(path@, home@, resolved_view(dirs.resolved@)),
{
    !path.as_str().is_empty() && path_starts_with(path.as_str(), home.as_str(), &dirs.resolved)
}

/// The kind of a Windows process, judged in order: the current user's
/// project (working directory, script or executable under home), a
/// Microsoft binary, a service account, the current user, anyone else.
pub open spec fn kind_spec(
    p: ProcessView,
    home: Seq<char>,
    current: Seq<char>,
    protected: Seq<Seq<char>>,
    resolved: Seq<(Seq<char>, Option<Seq<char>>)>,
) -> SystemKind {
    let is_current = users_match_spec(p.user, current);
    let user_project = is_current && (under_home_spec(p.working_directory, home, resolved)
        || match p.script_path {
        Some(s) => under_home_spec(s, home, resolved),
        None => false,
    } || under_home_spec(p.executable_path, home, resolved));
    if user_project {
        SystemKind::User
    } else if is_microsoft_spec(p.executable_path, protected, resolved) {
        SystemKind::Microsoft
    } else if is_system_user(p.user) {
        SystemKind::System
    } else if is_current {
        SystemKind::User
    } else {
        SystemKind::System
    }
}

/// The kind of a Windows process (see `kind_spec`).
pub fn detect_system_kind(process: &PortProcess, env: &UserEnv, dirs: &WindowsDirs) -> (k:
    SystemKind)
    ensures
        k == kind_spec(
            process@,
            env.home@,
            env.username@,
            strings_view(dirs.protected@),
            resolved_view(dirs.resolved@),
        ),
{
    let is_current = users_match(process.user.as_str(), env.username.as_str());
    let script_under = match &process.script_path {
        Some(s) => is_under_user_home(s, &env.home, dirs),
        None => false,
    };
    let user_project = is_current && (is_under_user_home(
        &process.working_directory,
        &env.home,
        dirs,
    ) || script_under || is_under_user_home(&process.executable_path, &env.home, dirs));
    if user_project {
        SystemKind::User
    } else if is_microsoft_path(process.executable_path.as_str(), process.command_line.as_str(), dirs) {
        SystemKind::Microsoft
    } else if is_system_user_exec(&chars_of_string(&process.user)) {
        SystemKind::System
    } else if is_current {
        SystemKind::User
    } else {
        SystemKind::System
    }
}

/// Classifies a Windows process: sets its kind, and flags it as a system
/// service unless it is the user's.
pub fn classify(process: &mut PortProcess, env: &UserEnv, dirs: &WindowsDirs)
    ensures
        *final(process) == with_kind(
            *old(process),
            kind_spec(
                old(process)@,
                env.home@,
                env.username@,
                strings_view(dirs.protected@),
                resolved_view(dirs.resolved@),
            ),
        ),
{
    let kind = detect_system_kind(process, env, dirs);
    set_kind(process, kind);
}

/// A process of the current user whose working directory, script or
/// executable lies under home is the user's own, and so is shown, even when
/// its binary is a Microsoft one.
pub proof fn law_user_projects_are_the_users(
    p: ProcessView,
    home: Seq<char>,
    current: Seq<char>,
    protected: Seq<Seq<char>>,
    resolved: Seq<(Seq<char>, Option<Seq<char>>)>,
)
    requires
        users_match_spec(p.user, current),
        under_home_spec(p.working_directory, home, resolved) || under_home_spec(
            p.executable_path,
            home,
            resolved,
        ) || (match p.script_path {
            Some(s) => under_home_spec(s, home, resolved),
            None => false,
        }),
    ensures
        kind_spec(p, home, current, protected, resolved) == SystemKind::User,
{
}

/// A process of another account is never counted as the user's own.
pub proof fn law_others_processes_are_not_the_users(
    p: ProcessView,
    home: Seq<char>,
    current: Seq<char>,
    protected: Seq<Seq<char>>,
    resolved: Seq<(Seq<char>, Option<Seq<char>>)>,
)
    requires
        !users_match_spec(p.user, current),
    ensures
        kind_spec(p, home, current, protected, resolved) != SystemKind::User,
{
}

} // verus!

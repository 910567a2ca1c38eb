//! Who a listening process belongs to.
use vstd::prelude::*;

use crate::scanner::PortProcess;

verus! {

/// The origin of a listening process: a platform vendor, another system
/// service, or the current user.
#[derive(Debug, Clone, Copy, PartialEq, Eq, Structural)]
pub enum SystemKind {
    Apple,
    Microsoft,
    Distro,
    System,
    User,
}

impl SystemKind {
    /// The process ships with the operating system (Apple, Microsoft or the
    /// Linux distribution).
    pub fn is_vendor(self) -> (b: bool)
        ensures
            b == (self == SystemKind::Apple || self == SystemKind::Microsoft || self
                == SystemKind::Distro),
    {
        match self {
            SystemKind::Apple | SystemKind::Microsoft | SystemKind::Distro => true,
            _ => false,
        }
    }
}

/// Who is running the scan: the current user's name and home directory.
#[derive(Debug, Clone)]
pub struct UserEnv {
    pub home: String,
    pub username: String,
}

/// `p` with its kind set to `k`, and flagged as a system service unless `k`
/// is `User`; every other field unchanged.
pub open spec fn with_kind(p: PortProcess, k: SystemKind) -> PortProcess {
    PortProcess {
        pid: p.pid,
        name: p.name,
        user: p.user,
        ports: p.ports,
        executable_path: p.executable_path,
        script_path: p.script_path,
        command_line: p.command_line,
        working_directory: p.working_directory,
        project_root: p.project_root,
        system_kind: k,
        is_system_service: k != SystemKind::User,
        uptime_seconds: p.uptime_seconds,
    }
}

/// The path is non-empty and starts with the home directory (textually).
pub open spec fn under_home(path: Seq<char>, home: Seq<char>) -> bool {
    path.len() > 0 && crate::text::starts_with(path, home)
}

/// Whether a path is non-empty and starts with home.
pub fn under_home_exec(path: &Vec<char>, home: &Vec<char>) -> (b: bool)
    ensures
        b == under_home(path@, home@),
{
    path.len() > 0 && crate::text::starts_with_vec(path, home)
}

/// The script path is present and under the home directory.
pub open spec fn script_under_home(script: Option<Seq<char>>, home: Seq<char>) -> bool {
    match script {
        Some(s) => under_home(s, home),
        None => false,
    }
}

/// Whether a script path is present and under home.
pub fn script_under_home_exec(script: &Option<String>, home: &Vec<char>) -> (b: bool)
    ensures
        b == script_under_home(crate::scanner::opt_view(*script), home@),
{
    match script {
        Some(s) => {
            let v = crate::text::chars_of_string(s);
            under_home_exec(&v, home)
        },
        None => false,
    }
}

/// Sets the kind of a process and its system-service flag.
pub fn set_kind(process: &mut PortProcess, kind: SystemKind)
    ensures
        *final(process) == with_kind(*old(process), kind),
{
    process.system_kind = kind;
    process.is_system_service = match kind {
        SystemKind::User => false,
        _ => true,
    };
}

/// The kind of a process under the rules of `platform`.
pub open spec fn platform_kind(
    platform: crate::platform::target::Platform,
    p: crate::scanner::ProcessView,
    home: Seq<char>,
    user: Seq<char>,
) -> SystemKind {
    match platform {
        crate::platform::target::Platform::MacOs => crate::platform::macos::classifier::kind_spec(
            p,
            home,
            user,
        ),
        crate::platform::target::Platform::Linux => crate::platform::linux::classifier::kind_spec(
            p,
            home,
            user,
        ),
        crate::platform::target::Platform::Windows(rule) => crate::platform::windows::classifier::kind_spec(
            p,
            home,
            user,
            crate::platform::windows::paths::strings_view(rule.dirs.protected@),
            crate::platform::windows::paths::resolved_view(rule.dirs.resolved@),
        ),
    }
}

/// Classifies a process under the rules of the platform the application
/// runs on.
pub fn classify(process: &mut PortProcess, env: &UserEnv, platform: &crate::platform::target::Platform)
    ensures
        *final(process) == with_kind(
            *old(process),
            platform_kind(*platform, old(process)@, env.home@, env.username@),
        ),
{
    match platform {
        crate::platform::target::Platform::MacOs => crate::platform::macos::classifier::classify(
            process,
            env,
        ),
        crate::platform::target::Platform::Linux => crate::platform::linux::classifier::classify(
            process,
            env,
        ),
        crate::platform::target::Platform::Windows(rule) => crate::platform::windows::classifier::classify(
            process,
            env,
            &rule.dirs,
        ),
    }
}

} // verus!

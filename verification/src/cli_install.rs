//! Installing the `port-watch` command line tool as a symlink in
//! `/usr/local/bin` (macOS only): what the link's state means, what to do
//! about it, and the quoting of the privileged fallback script.
use vstd::prelude::*;

use crate::platform::path_validation::{
    result_view, unit_result_view, unix_components, unix_components_of,
};
use crate::scanner::opt_view;
use crate::text::{
    chars_of, chars_of_string, concat, concat_str, eq_vec, seqs, string_of, trim, trim_vec,
};

verus! {

/// Where the command line tool is linked.
pub const CLI_LINK_PATH: &'static str = "/usr/local/bin/port-watch";

/// What the settings screen shows of the command line tool.
#[derive(Debug, Clone)]
pub struct CliInstallStatus {
    pub installed: bool,
    pub link_path: String,
    pub target_path: Option<String>,
    pub points_to_app: bool,
}

/// What the file system says of the link and of the application.
#[derive(Debug, Clone)]
pub struct LinkState {
    /// Something exists at the link's path.
    pub exists: bool,
    /// Where the link points, when it is a symlink.
    pub target: Option<String>,
    /// The link's target resolved (itself when it does not exist; `None`
    /// when resolving failed).
    pub target_resolved: Option<String>,
    /// The application's executable resolved, the same way.
    pub app_resolved: Option<String>,
}

pub const UNSUPPORTED: &'static str = "CLI install is only supported on macOS";

// ---------------------------------------------------------------------------
// Quoting
// ---------------------------------------------------------------------------

/// `s` with every `c` replaced by `rep`.
pub open spec fn replace_char(s: Seq<char>, c: char, rep: Seq<char>) -> Seq<char>
    decreases s.len(),
{
    if s.len() == 0 {
        seq![]
    } else {
        replace_char(s.drop_last(), c, rep) + if s.last() == c {
            rep
        } else {
            seq![s.last()]
        }
    }
}

fn replace_char_vec(v: &Vec<char>, c: char, rep: &Vec<char>) -> (r: Vec<char>)
    ensures
        r@ == replace_char(v@, c, rep@),
{
    let mut r: Vec<char> = Vec::new();
    let mut i: usize = 0;
    assert(v@.take(0) =~= Seq::<char>::empty());
    while i < v.len()
        invariant
            i <= v.len(),
            r@ == replace_char(v@.take(i as int), c, rep@),
        decreases v.len() - i,
    {
        assert(v@.take(i + 1).drop_last() == v@.take(i as int));
        assert(v@.take(i + 1).last() == v@[i as int]);
        if v[i] == c {
            r = concat(&r, rep);
        } else {
            r.push(v[i]);
            assert(r@ =~= replace_char(v@.take(i as int), c, rep@) + seq![v@[i as int]]);
        }
        i += 1;
    }
    assert(v@.take(v.len() as int) == v@);
    r
}

/// `'<value>'`, each `'` inside written `'\''`: one word for `sh`.
pub open spec fn shell_escape_spec(value: Seq<char>) -> Seq<char> {
    "'"@ + replace_char(value, '\'', "'\\''"@) + "'"@
}

/// Quotes a value as one `sh` word.
pub fn shell_escape(value: &str) -> (r: String)
    ensures
        r@ == shell_escape_spec(value@),
{
    let body = replace_char_vec(&chars_of(value), '\'', &chars_of("'\\''"));
    string_of(&concat_str(&concat(&chars_of("'"), &body), "'"))
}

/// `"<value>"`, with `\` and then `"` escaped by a backslash: an
/// AppleScript string.
pub open spec fn applescript_string_spec(value: Seq<char>) -> Seq<char> {
    "\""@ + replace_char(replace_char(value, '\\', "\\\\"@), '"', "\\\""@) + "\""@
}

/// Quotes a value as an AppleScript string.
pub fn applescript_string(value: &str) -> (r: String)
    ensures
        r@ == applescript_string_spec(value@),
{
    let once = replace_char_vec(&chars_of(value), '\\', &chars_of("\\\\"));
    let twice = replace_char_vec(&once, '"', &chars_of("\\\""));
    string_of(&concat_str(&concat(&chars_of("\""), &twice), "\""))
}

/// The shell command that makes the link, and the AppleScript that runs it
/// with administrator privileges.
pub open spec fn admin_script_spec(source: Seq<char>) -> Seq<char> {
    let script = "mkdir -p /usr/local/bin && ln -sf "@ + shell_escape_spec(source) + " "@
        + shell_escape_spec(CLI_LINK_PATH@);
    "do shell script "@ + applescript_string_spec(script) + " with administrator privileges"@
}

/// The AppleScript that links `source` with administrator privileges, used
/// when the plain link is refused for lack of permission.
pub fn admin_install_script(source: &str) -> (r: String)
    ensures
        r@ == admin_script_spec(source@),
{
    let s = concat_str(&chars_of("mkdir -p /usr/local/bin && ln -sf "), shell_escape(source).as_str());
    let s = concat_str(&concat_str(&s, " "), shell_escape(CLI_LINK_PATH).as_str());
    let q = applescript_string(string_of(&s).as_str());
    string_of(&concat_str(&concat_str(&chars_of("do shell script "), q.as_str()), " with administrator privileges"))
}

/// The outcome of the privileged install: its error output, trimmed, is
/// the error; with none, the user cancelled or it failed silently.
pub open spec fn admin_outcome_spec(success: bool, stderr: Seq<char>) -> Result<(), Seq<char>> {
    if success {
        Ok(())
    } else if trim(stderr).len() == 0 {
        Err("Installation was cancelled or failed."@)
    } else {
        Err(trim(stderr))
    }
}

/// The outcome of the privileged install (see `admin_outcome_spec`).
pub fn admin_install_outcome(success: bool, stderr: &str) -> (r: Result<(), String>)
    ensures
        unit_result_view(r) == admin_outcome_spec(success, stderr@),
{
    if success {
        return Ok(());
    }
    let t = trim_vec(&chars_of(stderr));
    if t.len() == 0 {
        Err(string_of(&chars_of("Installation was cancelled or failed.")))
    } else {
        Err(string_of(&t))
    }
}

// ---------------------------------------------------------------------------
// The link's state
// ---------------------------------------------------------------------------

/// Two paths name the same file: equal once resolved, or, when either could
/// not be resolved, equal as written (component by component).
pub open spec fn same_file_spec(
    left: Seq<char>,
    right: Seq<char>,
    left_resolved: Option<Seq<char>>,
    right_resolved: Option<Seq<char>>,
) -> bool {
    match (left_resolved, right_resolved) {
        (Some(a), Some(b)) => unix_components(a) == unix_components(b),
        _ => unix_components(left) == unix_components(right),
    }
}

fn same_components(a: &str, b: &str) -> (r: bool)
    ensures
        r == (unix_components(a@) == unix_components(b@)),
{
    let x = unix_components_of(a);
    let y = unix_components_of(b);
    assert(seqs(x@).len() == x@.len() && seqs(y@).len() == y@.len());
    if x.len() != y.len() {
        return false;
    }
    let mut i: usize = 0;
    while i < x.len()
        invariant
            i <= x.len() == y.len(),
            seqs(x@) == unix_components(a@),
            seqs(y@) == unix_components(b@),
            forall|j: int| 0 <= j < i ==> seqs(x@)[j] == seqs(y@)[j],
        decreases x.len() - i,
    {
        if !eq_vec(&x[i], &y[i]) {
            assert(seqs(x@)[i as int] != seqs(y@)[i as int]);
            return false;
        }
        i += 1;
    }
    assert(seqs(x@) =~= seqs(y@));
    true
}

/// Whether two paths name the same file (see `same_file_spec`).
pub fn paths_refer_to_same_file(
    left: &str,
    right: &str,
    left_resolved: &Option<String>,
    right_resolved: &Option<String>,
) -> (r: bool)
    ensures
        r == same_file_spec(left@, right@, opt_view(*left_resolved), opt_view(*right_resolved)),
{
    match (left_resolved, right_resolved) {
        (Some(a), Some(b)) => same_components(a.as_str(), b.as_str()),
        _ => same_components(left, right),
    }
}

pub struct StatusView {
    pub installed: bool,
    pub link_path: Seq<char>,
    pub target_path: Option<Seq<char>>,
    pub points_to_app: bool,
}

impl View for CliInstallStatus {
    type V = StatusView;

    open spec fn view(&self) -> StatusView {
        StatusView {
            installed: self.installed,
            link_path: self.link_path@,
            target_path: opt_view(self.target_path),
            points_to_app: self.points_to_app,
        }
    }
}

pub struct LinkView {
    pub exists: bool,
    pub target: Option<Seq<char>>,
    pub target_resolved: Option<Seq<char>>,
    pub app_resolved: Option<Seq<char>>,
}

impl View for LinkState {
    type V = LinkView;

    open spec fn view(&self) -> LinkView {
        LinkView {
            exists: self.exists,
            target: opt_view(self.target),
            target_resolved: opt_view(self.target_resolved),
            app_resolved: opt_view(self.app_resolved),
        }
    }
}

/// The link points to this application.
pub open spec fn points_to_app_spec(link: LinkView, app_exe: Seq<char>) -> bool {
    match link.target {
        Some(t) => same_file_spec(t, app_exe, link.target_resolved, link.app_resolved),
        None => false,
    }
}

fn points_to_app(link: &LinkState, app_exe: &String) -> (b: bool)
    ensures
        b == points_to_app_spec(link@, app_exe@),
{
    match &link.target {
        Some(t) => paths_refer_to_same_file(
            t.as_str(),
            app_exe.as_str(),
            &link.target_resolved,
            &link.app_resolved,
        ),
        None => false,
    }
}

/// The status of the command line tool: installed when something is at the
/// link's path, with where it points and whether that is this application.
/// Only macOS supports it; `app_exe` is the application's executable, or
/// why it could not be found.
pub open spec fn status_spec(
    is_macos: bool,
    app_exe: Result<Seq<char>, Seq<char>>,
    link: LinkView,
) -> Result<StatusView, Seq<char>> {
    if !is_macos {
        Err(UNSUPPORTED@)
    } else {
        match app_exe {
            Err(e) => Err(e),
            Ok(exe) => if !link.exists {
                Ok(
                    StatusView {
                        installed: false,
                        link_path: CLI_LINK_PATH@,
                        target_path: None,
                        points_to_app: false,
                    },
                )
            } else {
                Ok(
                    StatusView {
                        installed: true,
                        link_path: CLI_LINK_PATH@,
                        target_path: link.target,
                        points_to_app: points_to_app_spec(link, exe),
                    },
                )
            },
        }
    }
}

/// The plain values of a status or its error.
pub open spec fn status_result_view(r: Result<CliInstallStatus, String>) -> Result<StatusView, Seq<char>> {
    match r {
        Ok(s) => Ok(s@),
        Err(e) => Err(e@),
    }
}

/// The status of the command line tool (see `status_spec`).
pub fn get_cli_install_status(is_macos: bool, app_exe: &Result<String, String>, link: &LinkState) -> (r:
    Result<CliInstallStatus, String>)
    ensures
        status_result_view(r) == status_spec(is_macos, result_view(*app_exe), link@),
{
    if !is_macos {
        return Err(UNSUPPORTED.to_owned());
    }
    let exe = match app_exe {
        Err(e) => {
            return Err(e.clone());
        },
        Ok(exe) => exe,
    };
    if !link.exists {
        return Ok(
            CliInstallStatus {
                installed: false,
                link_path: CLI_LINK_PATH.to_owned(),
                target_path: None,
                points_to_app: false,
            },
        );
    }
    Ok(
        CliInstallStatus {
            installed: true,
            link_path: CLI_LINK_PATH.to_owned(),
            target_path: link.target.clone(),
            points_to_app: points_to_app(link, exe),
        },
    )
}

/// What installing comes down to.
#[derive(Debug, Clone)]
pub enum InstallStep {
    /// The link already points to this application.
    AlreadyInstalled,
    /// Create the link to this executable (creating `/usr/local/bin` when
    /// missing; on a permission error, run `admin_install_script`).
    CreateLink(String),
}

pub enum InstallStepView {
    AlreadyInstalled,
    CreateLink(Seq<char>),
}

impl View for InstallStep {
    type V = InstallStepView;

    open spec fn view(&self) -> InstallStepView {
        match self {
            InstallStep::AlreadyInstalled => InstallStepView::AlreadyInstalled,
            InstallStep::CreateLink(s) => InstallStepView::CreateLink(s@),
        }
    }
}

/// Installing: nothing to do when the link already points here; refused
/// when another link or a plain file is in the way; else link.
pub open spec fn install_spec(
    is_macos: bool,
    app_exe: Result<Seq<char>, Seq<char>>,
    link: LinkView,
) -> Result<InstallStepView, Seq<char>> {
    if !is_macos {
        Err(UNSUPPORTED@)
    } else {
        match app_exe {
            Err(e) => Err(e),
            Ok(exe) => if link.exists {
                match link.target {
                    Some(t) => if points_to_app_spec(link, exe) {
                        Ok(InstallStepView::AlreadyInstalled)
                    } else {
                        Err(
                            "Another port-watch is installed at "@ + CLI_LINK_PATH@ + " (points to "@
                                + t + ")"@,
                        )
                    },
                    None => Err(
                        CLI_LINK_PATH@
                            + " exists but is not a symlink. Remove it manually and try again."@,
                    ),
                }
            } else {
                Ok(InstallStepView::CreateLink(exe))
            },
        }
    }
}

/// The plain values of an install step or its error.
pub open spec fn install_result_view(r: Result<InstallStep, String>) -> Result<InstallStepView, Seq<char>> {
    match r {
        Ok(s) => Ok(s@),
        Err(e) => Err(e@),
    }
}

/// Decides how to install the command line tool (see `install_spec`).
pub fn install_cli_to_path(is_macos: bool, app_exe: &Result<String, String>, link: &LinkState) -> (r:
    Result<InstallStep, String>)
    ensures
        install_result_view(r) == install_spec(is_macos, result_view(*app_exe), link@),
{
    if !is_macos {
        return Err(UNSUPPORTED.to_owned());
    }
    let exe = match app_exe {
        Err(e) => {
            return Err(e.clone());
        },
        Ok(exe) => exe,
    };
    if !link.exists {
        return Ok(InstallStep::CreateLink(exe.clone()));
    }
    match &link.target {
        Some(t) => {
            if points_to_app(link, exe) {
                Ok(InstallStep::AlreadyInstalled)
            } else {
                let m = concat_str(&chars_of("Another port-watch is installed at "), CLI_LINK_PATH);
                let m = concat_str(&concat(&concat_str(&m, " (points to "), &chars_of_string(t)), ")");
                Err(string_of(&m))
            }
        },
        None => Err(
            string_of(
                &concat_str(
                    &chars_of(CLI_LINK_PATH),
                    " exists but is not a symlink. Remove it manually and try again.",
                ),
            ),
        ),
    }
}

/// What uninstalling comes down to.
#[derive(Debug, Clone, Copy, PartialEq, Eq, Structural)]
pub enum UninstallStep {
    /// Nothing is installed.
    Nothing,
    /// Remove the link.
    RemoveLink,
}

/// Uninstalling: nothing to do without a link; refused for a plain file or
/// a link to another program; else remove the link.
pub open spec fn uninstall_spec(
    is_macos: bool,
    app_exe: Result<Seq<char>, Seq<char>>,
    link: LinkView,
) -> Result<UninstallStep, Seq<char>> {
    if !is_macos {
        Err(UNSUPPORTED@)
    } else {
        match app_exe {
            Err(e) => Err(e),
            Ok(exe) => if !link.exists {
                Ok(UninstallStep::Nothing)
            } else {
                match link.target {
                    None => Err(CLI_LINK_PATH@ + " exists but is not a symlink. Remove it manually."@),
                    Some(t) => if !points_to_app_spec(link, exe) {
                        Err(CLI_LINK_PATH@ + " points to "@ + t + ", not this app. Uninstall skipped."@)
                    } else {
                        Ok(UninstallStep::RemoveLink)
                    },
                }
            },
        }
    }
}

/// The plain values of an uninstall step or its error.
pub open spec fn uninstall_result_view(r: Result<UninstallStep, String>) -> Result<UninstallStep, Seq<char>> {
    match r {
        Ok(s) => Ok(s),
        Err(e) => Err(e@),
    }
}

/// Decides how to uninstall the command line tool (see `uninstall_spec`).
pub fn uninstall_cli_from_path(is_macos: bool, app_exe: &Result<String, String>, link: &LinkState) -> (r:
    Result<UninstallStep, String>)
    ensures
        uninstall_result_view(r) == uninstall_spec(is_macos, result_view(*app_exe), link@),
{
    if !is_macos {
        return Err(UNSUPPORTED.to_owned());
    }
    let exe = match app_exe {
        Err(e) => {
            return Err(e.clone());
        },
        Ok(exe) => exe,
    };
    if !link.exists {
        return Ok(UninstallStep::Nothing);
    }
    match &link.target {
        None => Err(
            string_of(
                &concat_str(&chars_of(CLI_LINK_PATH), " exists but is not a symlink. Remove it manually."),
            ),
        ),
        Some(t) => {
            if !points_to_app(link, exe) {
                let m = concat_str(&chars_of(CLI_LINK_PATH), " points to ");
                Err(string_of(&concat_str(&concat(&m, &chars_of_string(t)), ", not this app. Uninstall skipped.")))
            } else {
                Ok(UninstallStep::RemoveLink)
            }
        },
    }
}

/// What `port-watch install-cli` prints, and its exit code.
pub open spec fn install_report_spec(result: Result<(), Seq<char>>) -> (Seq<char>, i32) {
    match result {
        Ok(()) => ("Installed "@ + CLI_LINK_PATH@, 0),
        Err(e) => (e, 1),
    }
}

/// The message and exit code of `port-watch install-cli` (the message goes
/// to standard output on success, to standard error on failure).
pub fn install_report(result: &Result<(), String>) -> (r: (String, i32))
    ensures
        (r.0@, r.1) == install_report_spec(unit_result_view(*result)),
{
    match result {
        Ok(()) => (string_of(&concat_str(&chars_of("Installed "), CLI_LINK_PATH)), 0),
        Err(e) => (e.clone(), 1),
    }
}

/// An installed link that points here is never removed by installing, and
/// is what uninstalling removes.
pub proof fn law_install_then_uninstall(app_exe: Seq<char>, link: LinkView)
    requires
        link.exists,
        link.target is Some,
        points_to_app_spec(link, app_exe),
    ensures
        install_spec(true, Ok(app_exe), link) == Ok::<InstallStepView, Seq<char>>(
            InstallStepView::AlreadyInstalled,
        ),
        uninstall_spec(true, Ok(app_exe), link) == Ok::<UninstallStep, Seq<char>>(
            UninstallStep::RemoveLink,
        ),
        status_spec(true, Ok(app_exe), link) matches Ok(s) && s.installed && s.points_to_app,
{
}

/// A link that points elsewhere is never replaced nor removed.
pub proof fn law_foreign_link_left_alone(app_exe: Seq<char>, link: LinkView)
    requires
        link.exists,
        !points_to_app_spec(link, app_exe),
    ensures
        install_spec(true, Ok(app_exe), link) is Err,
        uninstall_spec(true, Ok(app_exe), link) is Err,
{
}

} // verus!

//! The rules every platform applies before deleting a folder: it must exist,
//! not be a symlink, lie under the user's home without being home itself or
//! one of its well-known top-level folders, and not be a system path.
use vstd::prelude::*;

use crate::platform::windows::paths::is_part;
use crate::scanner::opt_view;
use crate::text::{
    chars_of, chars_of_string, concat, concat_str, eq_ignore_case, eq_ignore_case_vec, eq_str,
    eq_vec, seqs, split_all, split_all_vec, string_of, trim, trim_vec,
};

verus! {

// ---------------------------------------------------------------------------
// Components of Unix paths
// ---------------------------------------------------------------------------

/// The components of a Unix path: the root `/` when it is absolute, then
/// the names between slashes (empty and `.` names skipped).
pub open spec fn unix_components(s: Seq<char>) -> Seq<Seq<char>> {
    let root = if s.len() > 0 && s[0] == '/' {
        seq!["/"@]
    } else {
        Seq::<Seq<char>>::empty()
    };
    root + split_all(s, "/"@).filter(|c: Seq<char>| is_part(c))
}

/// The components of a Unix path (see `unix_components`).
pub fn unix_components_of(path: &str) -> (r: Vec<Vec<char>>)
    ensures
        seqs(r@) == unix_components(path@),
{
    proof {
        reveal_strlit("/");
        reveal_strlit(".");
    }
    let v = chars_of(path);
    let mut r: Vec<Vec<char>> = Vec::new();
    if v.len() > 0 && v[0] == '/' {
        r.push(chars_of("/"));
        assert(seqs(r@) =~= seq!["/"@]);
    } else {
        assert(seqs(r@) =~= Seq::<Seq<char>>::empty());
    }
    let ghost head = seqs(r@);
    let sep = chars_of("/");
    let parts = split_all_vec(&v, &sep);
    let ghost ps = seqs(parts@);
    let ghost pred = |c: Seq<char>| is_part(c);
    let mut i: usize = 0;
    proof {
        reveal(Seq::filter);
        assert(ps.take(0) =~= Seq::<Seq<char>>::empty());
    }
    assert(seqs(r@) =~= head + ps.take(0).filter(pred));
    while i < parts.len()
        invariant
            i <= parts.len(),
            ps == seqs(parts@),
            pred == (|c: Seq<char>| is_part(c)),
            seqs(r@) == head + ps.take(i as int).filter(pred),
            ".".view() == seq!['.'],
        decreases parts.len() - i,
    {
        proof {
            assert(ps.take(i + 1) =~= ps.take(i as int).push(ps[i as int]));
            ps.take(i as int).lemma_filter_push(ps[i as int], pred);
        }
        let part = &parts[i];
        let dot = chars_of(".");
        if part.len() > 0 && !eq_vec(part, &dot) {
            let ghost before = seqs(r@);
            r.push(part.clone());
            assert(seqs(r@) =~= before.push(part@));
        }
        i += 1;
    }
    assert(ps.take(parts.len() as int) == ps);
    r
}

/// The final name of a Unix path (`Path::file_name`): the last component
/// unless it is the root or `..`.
pub open spec fn unix_file_name(s: Seq<char>) -> Option<Seq<char>> {
    let c = unix_components(s);
    if c.len() > 0 && c.last() != "/"@ && c.last() != ".."@ {
        Some(c.last())
    } else {
        None
    }
}

/// The final name of a Unix path.
pub fn unix_file_name_of(path: &str) -> (r: Option<String>)
    ensures
        opt_view(r) == unix_file_name(path@),
{
    let c = unix_components_of(path);
    if c.len() > 0 && !eq_str(&c[c.len() - 1], "/") && !eq_str(&c[c.len() - 1], "..") {
        Some(string_of(&c[c.len() - 1]))
    } else {
        None
    }
}

// ---------------------------------------------------------------------------
// What each platform protects
// ---------------------------------------------------------------------------

/// A platform's rules on paths: how it splits them, and which resolved
/// paths it never deletes.
pub trait ProtectionRule {
    /// The platform never deletes this resolved path.
    spec fn protects(&self, canonical: Seq<char>) -> bool;

    /// The components the platform reads in a path.
    spec fn components(&self, path: Seq<char>) -> Seq<Seq<char>>;

    /// The final name of a path, if it has one.
    spec fn file_name(&self, path: Seq<char>) -> Option<Seq<char>>;

    fn is_protected_canonical(&self, canonical: &str) -> (b: bool)
        ensures
            b == self.protects(canonical@),
    ;

    fn components_of(&self, path: &str) -> (r: Vec<Vec<char>>)
        ensures
            seqs(r@) == self.components(path@),
    ;

    fn file_name_of(&self, path: &str) -> (r: Option<String>)
        ensures
            opt_view(r) == self.file_name(path@),
    ;
}

// ---------------------------------------------------------------------------
// Home and existing paths
// ---------------------------------------------------------------------------

/// The home directory to compare against: its resolved form when it exists
/// (`resolved` is `None` when it does not). An unknown home is an error.
pub open spec fn canonical_home_spec(
    home: Seq<char>,
    resolved: Option<Result<Seq<char>, Seq<char>>>,
) -> Result<Seq<char>, Seq<char>> {
    if home.len() == 0 {
        Err("Could not determine user home directory"@)
    } else {
        match resolved {
            None => Ok(home),
            Some(Ok(c)) => Ok(c),
            Some(Err(e)) => Err("Failed to resolve home: "@ + e),
        }
    }
}

/// The plain values of a text or an error.
pub open spec fn result_view(r: Result<String, String>) -> Result<Seq<char>, Seq<char>> {
    match r {
        Ok(s) => Ok(s@),
        Err(e) => Err(e@),
    }
}

/// The plain values of an optional text-or-error.
pub open spec fn opt_result_view(r: Option<Result<String, String>>) -> Option<
    Result<Seq<char>, Seq<char>>,
> {
    match r {
        Some(x) => Some(result_view(x)),
        None => None,
    }
}

/// The home directory, resolved: `resolved` is what resolving it gave, or
/// `None` when it does not exist.
pub fn canonical_home(home: &str, resolved: &Option<Result<String, String>>) -> (r: Result<
    String,
    String,
>)
    ensures
        result_view(r) == canonical_home_spec(home@, opt_result_view(*resolved)),
{
    if home.is_empty() {
        return Err(string_of(&chars_of("Could not determine user home directory")));
    }
    match resolved {
        None => Ok(string_of(&chars_of(home))),
        Some(Ok(c)) => Ok(c.clone()),
        Some(Err(e)) => Err(string_of(&concat(&chars_of("Failed to resolve home: "), &chars_of_string(e)))),
    }
}

/// What the file system says of a (trimmed) path.
#[derive(Debug, Clone)]
pub enum PathLookup {
    /// Nothing exists there.
    Missing,
    /// Reading its metadata failed with this message.
    InspectFailed(String),
    /// It is a symlink.
    Symlink,
    /// Resolving it failed with this message.
    ResolveFailed(String),
    /// It resolves to this canonical path.
    Resolved(String),
}

pub enum LookupView {
    Missing,
    InspectFailed(Seq<char>),
    Symlink,
    ResolveFailed(Seq<char>),
    Resolved(Seq<char>),
}

impl View for PathLookup {
    type V = LookupView;

    open spec fn view(&self) -> LookupView {
        match self {
            PathLookup::Missing => LookupView::Missing,
            PathLookup::InspectFailed(e) => LookupView::InspectFailed(e@),
            PathLookup::Symlink => LookupView::Symlink,
            PathLookup::ResolveFailed(e) => LookupView::ResolveFailed(e@),
            PathLookup::Resolved(c) => LookupView::Resolved(c@),
        }
    }
}

/// The canonical form of an existing, non-symlink path; `lookup` is what the
/// file system said of the trimmed path.
pub open spec fn existing_path_spec(path: Seq<char>, lookup: LookupView) -> Result<
    Seq<char>,
    Seq<char>,
> {
    let t = trim(path);
    if t.len() == 0 {
        Err("Path is empty"@)
    } else {
        match lookup {
            LookupView::Missing => Err("Path does not exist: "@ + t),
            LookupView::InspectFailed(e) => Err("Failed to inspect path: "@ + e),
            LookupView::Symlink => Err("Symlinks cannot be deleted"@),
            LookupView::ResolveFailed(e) => Err("Failed to resolve path: "@ + e),
            LookupView::Resolved(c) => Ok(c),
        }
    }
}

/// The path the file system is asked about: the given one, trimmed.
pub fn trimmed_path(path: &str) -> (r: String)
    ensures
        r@ == trim(path@),
{
    string_of(&trim_vec(&chars_of(path)))
}

/// Resolves a path that must exist and must not be a symlink.
pub fn resolve_existing_path(path: &str, lookup: &PathLookup) -> (r: Result<String, String>)
    ensures
        result_view(r) == existing_path_spec(path@, lookup@),
{
    let t = trim_vec(&chars_of(path));
    if t.len() == 0 {
        return Err(string_of(&chars_of("Path is empty")));
    }
    match lookup {
        PathLookup::Missing => Err(string_of(&concat(&chars_of("Path does not exist: "), &t))),
        PathLookup::InspectFailed(e) => Err(
            string_of(&concat(&chars_of("Failed to inspect path: "), &chars_of_string(e))),
        ),
        PathLookup::Symlink => Err(string_of(&chars_of("Symlinks cannot be deleted"))),
        PathLookup::ResolveFailed(e) => Err(
            string_of(&concat(&chars_of("Failed to resolve path: "), &chars_of_string(e))),
        ),
        PathLookup::Resolved(c) => Ok(c.clone()),
    }
}

// ---------------------------------------------------------------------------
// Deletion checks
// ---------------------------------------------------------------------------

/// Top-level folders of home that are never deleted as a whole (compared
/// without regard to ASCII case).
pub open spec fn protected_home_children() -> Seq<Seq<char>> {
    seq![
        "Desktop"@,
        "Documents"@,
        "Downloads"@,
        "Library"@,
        "Movies"@,
        "Music"@,
        "Pictures"@,
        "Public"@,
        "AppData"@,
        ".ssh"@,
        ".gnupg"@,
        ".config"@,
    ]
}

/// One of the well-known folders directly under home.
pub open spec fn is_protected_child(name: Seq<char>) -> bool {
    exists|i: int|
        0 <= i < protected_home_children().len() && eq_ignore_case(
            name,
            #[trigger] protected_home_children()[i],
        )
}

/// `prefix`'s components begin `path`'s.
pub open spec fn comps_start_with(a: Seq<Seq<char>>, b: Seq<Seq<char>>) -> bool {
    b.len() <= a.len() && a.take(b.len() as int) == b
}

/// Why deleting the resolved path `canonical` is refused, if it is: a
/// protected system path; not under home (`home` is the resolved home, or
/// why it could not be had); home itself; or a protected folder directly
/// under home.
pub open spec fn delete_check<R: ProtectionRule>(
    rule: R,
    canonical: Seq<char>,
    home: Result<Seq<char>, Seq<char>>,
) -> Result<(), Seq<char>> {
    if rule.protects(canonical) {
        Err("Protected system path cannot be deleted: "@ + canonical)
    } else {
        match home {
            Err(e) => Err(e),
            Ok(h) => {
                let c = rule.components(canonical);
                let hc = rule.components(h);
                if !comps_start_with(c, hc) {
                    Err("Only paths under "@ + h + " can be deleted: "@ + canonical)
                } else if c == hc {
                    Err("The home directory itself cannot be deleted"@)
                } else if c.len() == hc.len() + 1 && is_protected_child(c.last()) {
                    Err(canonical + " is a protected user directory and cannot be deleted"@)
                } else {
                    Ok(())
                }
            },
        }
    }
}

/// The plain values of a success or an error.
pub open spec fn unit_result_view(r: Result<(), String>) -> Result<(), Seq<char>> {
    match r {
        Ok(()) => Ok(()),
        Err(e) => Err(e@),
    }
}

fn comps_start_with_exec(a: &Vec<Vec<char>>, b: &Vec<Vec<char>>) -> (r: bool)
    ensures
        r == comps_start_with(seqs(a@), seqs(b@)),
{
    if b.len() > a.len() {
        return false;
    }
    let mut i: usize = 0;
    while i < b.len()
        invariant
            i <= b.len() <= a.len(),
            forall|j: int| 0 <= j < i ==> seqs(a@)[j] == seqs(b@)[j],
        decreases b.len() - i,
    {
        if !eq_vec(&a[i], &b[i]) {
            assert(seqs(a@).take(b@.len() as int)[i as int] != seqs(b@)[i as int]);
            return false;
        }
        i += 1;
    }
    assert(seqs(a@).take(b@.len() as int) =~= seqs(b@));
    true
}

fn is_protected_child_exec(name: &Vec<char>) -> (b: bool)
    ensures
        b == is_protected_child(name@),
{
    let names = [
        "Desktop",
        "Documents",
        "Downloads",
        "Library",
        "Movies",
        "Music",
        "Pictures",
        "Public",
        "AppData",
        ".ssh",
        ".gnupg",
        ".config",
    ];
    let ghost pc = protected_home_children();
    assert(names@.map_values(|s: &str| s@) =~= pc);
    let mut i: usize = 0;
    while i < 12
        invariant
            i <= 12,
            names@.len() == 12,
            pc == protected_home_children(),
            names@.map_values(|s: &str| s@) == pc,
            forall|j: int| 0 <= j < i ==> !eq_ignore_case(name@, #[trigger] pc[j]),
        decreases 12 - i,
    {
        assert(names@[i as int]@ == pc[i as int]);
        if eq_ignore_case_vec(name, &chars_of(names[i])) {
            return true;
        }
        i += 1;
    }
    false
}

/// Checks that the resolved path `canonical` may be deleted under `rule`,
/// against the resolved home (or the reason it could not be had).
pub fn assert_delete_allowed<R: ProtectionRule>(
    rule: &R,
    canonical: &str,
    home: &Result<String, String>,
) -> (r: Result<(), String>)
    ensures
        unit_result_view(r) == delete_check(*rule, canonical@, result_view(*home)),
{
    if rule.is_protected_canonical(canonical) {
        return Err(
            string_of(&concat(&chars_of("Protected system path cannot be deleted: "), &chars_of(canonical))),
        );
    }
    let h = match home {
        Err(e) => {
            return Err(e.clone());
        },
        Ok(h) => h,
    };
    let c = rule.components_of(canonical);
    let hc = rule.components_of(h.as_str());
    if !comps_start_with_exec(&c, &hc) {
        let msg = concat(
            &concat_str(&concat(&chars_of("Only paths under "), &chars_of_string(h)), " can be deleted: "),
            &chars_of(canonical),
        );
        return Err(string_of(&msg));
    }
    if c.len() == hc.len() {
        assert(seqs(c@) =~= seqs(c@).take(seqs(hc@).len() as int));
        return Err(string_of(&chars_of("The home directory itself cannot be deleted")));
    }
    assert(seqs(c@) != seqs(hc@));
    if c.len() == hc.len() + 1 && is_protected_child_exec(&c[c.len() - 1]) {
        return Err(
            string_of(&concat_str(&chars_of(canonical), " is a protected user directory and cannot be deleted")),
        );
    }
    Ok(())
}

/// The outcome of asking to delete `path`: its resolved form, or why not.
pub open spec fn delete_path_spec<R: ProtectionRule>(
    rule: R,
    path: Seq<char>,
    lookup: LookupView,
    home: Result<Seq<char>, Seq<char>>,
) -> Result<Seq<char>, Seq<char>> {
    match existing_path_spec(path, lookup) {
        Err(e) => Err(e),
        Ok(c) => match delete_check(rule, c, home) {
            Err(e) => Err(e),
            Ok(()) => Ok(c),
        },
    }
}

/// Resolves `path` and checks that it may be deleted; gives the resolved
/// path to delete.
pub fn resolve_delete_path<R: ProtectionRule>(
    rule: &R,
    path: &str,
    lookup: &PathLookup,
    home: &Result<String, String>,
) -> (r: Result<String, String>)
    ensures
        result_view(r) == delete_path_spec(*rule, path@, lookup@, result_view(*home)),
{
    let canonical = resolve_existing_path(path, lookup)?;
    match assert_delete_allowed(rule, canonical.as_str(), home) {
        Err(e) => Err(e),
        Ok(()) => Ok(canonical),
    }
}

/// The outcome of asking to delete `path` for good: the confirmation must
/// be the folder's name, then the usual checks apply.
pub open spec fn permanent_delete_spec<R: ProtectionRule>(
    rule: R,
    path: Seq<char>,
    confirmation: Seq<char>,
    lookup: LookupView,
    home: Result<Seq<char>, Seq<char>>,
) -> Result<Seq<char>, Seq<char>> {
    let expected = match rule.file_name(path) {
        Some(n) => n,
        None => seq![],
    };
    if expected.len() == 0 {
        Err("Could not determine folder basename for confirmation"@)
    } else if confirmation != expected {
        Err("Confirmation must match folder name \""@ + expected + "\""@)
    } else {
        delete_path_spec(rule, path, lookup, home)
    }
}

/// Checks a permanent deletion: `confirmation` must repeat the folder's
/// name; gives the resolved path to delete.
pub fn resolve_permanent_delete<R: ProtectionRule>(
    rule: &R,
    path: &str,
    confirmation: &str,
    lookup: &PathLookup,
    home: &Result<String, String>,
) -> (r: Result<String, String>)
    ensures
        result_view(r) == permanent_delete_spec(*rule, path@, confirmation@, lookup@, result_view(*home)),
{
    let expected = match rule.file_name_of(path) {
        Some(n) => chars_of_string(&n),
        None => Vec::new(),
    };
    if expected.len() == 0 {
        return Err(string_of(&chars_of("Could not determine folder basename for confirmation")));
    }
    if !eq_vec(&chars_of(confirmation), &expected) {
        let msg = concat_str(&concat(&chars_of("Confirmation must match folder name \""), &expected), "\"");
        return Err(string_of(&msg));
    }
    resolve_delete_path(rule, path, lookup, home)
}

/// Actions on a system service are refused unless the user allowed them.
pub open spec fn system_actions_spec(is_system_service: bool, allow_system_actions: bool) -> Result<
    (),
    Seq<char>,
> {
    if is_system_service && !allow_system_actions {
        Err("System process actions are disabled. Enable them in Settings to continue."@)
    } else {
        Ok(())
    }
}

/// Refuses an action on a system service unless such actions are allowed.
pub fn assert_system_actions_allowed(is_system_service: bool, allow_system_actions: bool) -> (r:
    Result<(), String>)
    ensures
        unit_result_view(r) == system_actions_spec(is_system_service, allow_system_actions),
{
    if is_system_service && !allow_system_actions {
        return Err(
            string_of(
                &chars_of("System process actions are disabled. Enable them in Settings to continue."),
            ),
        );
    }
    Ok(())
}

// ---------------------------------------------------------------------------
// Laws
// ---------------------------------------------------------------------------

/// A path is only ever cleared for deletion when it is not protected and
/// lies strictly inside the resolved home directory.
pub proof fn law_cleared_paths_lie_inside_home<R: ProtectionRule>(
    rule: R,
    canonical: Seq<char>,
    home: Result<Seq<char>, Seq<char>>,
)
    requires
        delete_check(rule, canonical, home) is Ok,
    ensures
        !rule.protects(canonical),
        home matches Ok(h) && comps_start_with(rule.components(canonical), rule.components(h))
            && rule.components(canonical).len() > rule.components(h).len(),
{
    if let Ok(h) = home {
        let c = rule.components(canonical);
        let hc = rule.components(h);
        if c.len() == hc.len() {
            assert(c =~= c.take(hc.len() as int));
        }
    }
}

/// The home directory itself is never cleared for deletion.
pub proof fn law_home_itself_refused<R: ProtectionRule>(rule: R, canonical: Seq<char>, home: Seq<char>)
    requires
        rule.components(canonical) == rule.components(home),
    ensures
        delete_check(rule, canonical, Ok(home)) is Err,
{
    assert(rule.components(canonical).take(rule.components(home).len() as int) =~= rule.components(
        home,
    ));
}

/// A well-known folder directly under home (`Documents`, `.ssh`, ... in any
/// ASCII case) is never cleared for deletion.
pub proof fn law_protected_children_refused<R: ProtectionRule>(
    rule: R,
    canonical: Seq<char>,
    home: Seq<char>,
    name: Seq<char>,
)
    requires
        rule.components(canonical) == rule.components(home).push(name),
        is_protected_child(name),
    ensures
        delete_check(rule, canonical, Ok(home)) is Err,
{
    let c = rule.components(canonical);
    let hc = rule.components(home);
    assert(c.take(hc.len() as int) =~= hc);
    assert(c.last() == name);
}

/// The well-known folders directly under home, named one by one: Desktop,
/// Documents, Downloads, Library, Movies, Music, Pictures, Public, AppData,
/// .ssh, .gnupg and .config. Deleting any of them (in any ASCII case) is
/// refused.
pub proof fn law_named_home_folders_refused<R: ProtectionRule>(
    rule: R,
    canonical: Seq<char>,
    home: Seq<char>,
    name: Seq<char>,
    folder: Seq<char>,
)
    requires
        folder == "Desktop"@ || folder == "Documents"@ || folder == "Downloads"@ || folder
            == "Library"@ || folder == "Movies"@ || folder == "Music"@ || folder == "Pictures"@
            || folder == "Public"@ || folder == "AppData"@ || folder == ".ssh"@ || folder
            == ".gnupg"@ || folder == ".config"@,
        eq_ignore_case(name, folder),
        rule.components(canonical) == rule.components(home).push(name),
    ensures
        delete_check(rule, canonical, Ok(home)) is Err,
        delete_check(rule, canonical, Ok(home)) == Err::<(), Seq<char>>(
            canonical + " is a protected user directory and cannot be deleted"@,
        ) || rule.protects(canonical),
{
    let pc = protected_home_children();
    let k: int = if folder == "Desktop"@ {
        0
    } else if folder == "Documents"@ {
        1
    } else if folder == "Downloads"@ {
        2
    } else if folder == "Library"@ {
        3
    } else if folder == "Movies"@ {
        4
    } else if folder == "Music"@ {
        5
    } else if folder == "Pictures"@ {
        6
    } else if folder == "Public"@ {
        7
    } else if folder == "AppData"@ {
        8
    } else if folder == ".ssh"@ {
        9
    } else if folder == ".gnupg"@ {
        10
    } else {
        11
    };
    assert(pc[k] == folder);
    assert(is_protected_child(name));
    law_protected_children_refused(rule, canonical, home, name);
    let c = rule.components(canonical);
    let hc = rule.components(home);
    assert(c.take(hc.len() as int) =~= hc);
    assert(c.last() == name);
}

/// A permanent deletion only goes ahead when the confirmation repeats the
/// folder's own name, and then resolves to what a plain deletion would.
pub proof fn law_permanent_delete_needs_the_name<R: ProtectionRule>(
    rule: R,
    path: Seq<char>,
    confirmation: Seq<char>,
    lookup: LookupView,
    home: Result<Seq<char>, Seq<char>>,
)
    requires
        permanent_delete_spec(rule, path, confirmation, lookup, home) is Ok,
    ensures
        rule.file_name(path) == Some(confirmation),
        confirmation.len() > 0,
        permanent_delete_spec(rule, path, confirmation, lookup, home) == delete_path_spec(
            rule,
            path,
            lookup,
            home,
        ),
{
}

/// Actions on a system service go ahead only when the user allowed them;
/// actions on the user's own processes always do.
pub proof fn law_system_actions_gate(is_system_service: bool, allow_system_actions: bool)
    ensures
        system_actions_spec(is_system_service, allow_system_actions) is Ok <==> (!is_system_service
            || allow_system_actions),
{
}

} // verus!

//! What macOS never deletes: the system's own folders (`/System`, `/usr`
//! outside `/usr/local`, `/bin`, `/sbin`, `/Library`), plus the rules every
//! platform applies.
use vstd::prelude::*;

use crate::platform::path_validation::{
    delete_check, delete_path_spec, existing_path_spec, permanent_delete_spec,
    resolve_delete_path as resolve_with, resolve_existing_path,
    resolve_permanent_delete as resolve_permanent_with, result_view, unit_result_view,
    unix_components, unix_components_of, unix_file_name, unix_file_name_of, LookupView, PathLookup,
    ProtectionRule,
};
use crate::text::{chars_of, starts_with, starts_with_str, trim, trim_vec};

verus! {

/// Under one of the system's folders (compared as text), but not under
/// `/usr/local/`.
pub open spec fn macos_protects(p: Seq<char>) -> bool {
    !starts_with(p, "/usr/local/"@) && (starts_with(p, "/System"@) || starts_with(p, "/usr"@)
        || starts_with(p, "/bin"@) || starts_with(p, "/sbin"@) || starts_with(p, "/Library"@))
}

fn macos_protects_exec(v: &Vec<char>) -> (b: bool)
    ensures
        b == macos_protects(v@),
{
    !starts_with_str(v, "/usr/local/") && (starts_with_str(v, "/System") || starts_with_str(
        v,
        "/usr",
    ) || starts_with_str(v, "/bin") || starts_with_str(v, "/sbin") || starts_with_str(
        v,
        "/Library",
    ))
}

/// The macOS rules on paths.
#[derive(Debug, Clone, Copy)]
pub struct MacOsRule;

impl ProtectionRule for MacOsRule {
    open spec fn protects(&self, canonical: Seq<char>) -> bool {
        macos_protects(canonical)
    }

    open spec fn components(&self, path: Seq<char>) -> Seq<Seq<char>> {
        unix_components(path)
    }

    open spec fn file_name(&self, path: Seq<char>) -> Option<Seq<char>> {
        unix_file_name(path)
    }

    fn is_protected_canonical(&self, canonical: &str) -> (b: bool) {
        macos_protects_exec(&chars_of(canonical))
    }

    fn components_of(&self, path: &str) -> (r: Vec<Vec<char>>) {
        unix_components_of(path)
    }

    fn file_name_of(&self, path: &str) -> (r: Option<String>) {
        unix_file_name_of(path)
    }
}

/// A path is protected when it resolves to a protected path; when it cannot
/// be resolved, the trimmed path as written decides. Paths under
/// `/usr/local/` never are.
pub open spec fn is_protected_path_spec(path: Seq<char>, lookup: LookupView) -> bool {
    if starts_with(trim(path), "/usr/local/"@) {
        false
    } else {
        match existing_path_spec(path, lookup) {
            Ok(c) => macos_protects(c),
            Err(_) => macos_protects(trim(path)),
        }
    }
}

/// Whether macOS protects `path`; `lookup` is what the file system said of
/// the trimmed path.
pub fn is_protected_path(path: &str, lookup: &PathLookup) -> (b: bool)
    ensures
        b == is_protected_path_spec(path@, lookup@),
{
    let t = trim_vec(&chars_of(path));
    if starts_with_str(&t, "/usr/local/") {
        return false;
    }
    match resolve_existing_path(path, lookup) {
        Ok(c) => macos_protects_exec(&chars_of(c.as_str())),
        Err(_) => macos_protects_exec(&t),
    }
}

/// Whether the user may delete `path`.
pub fn is_user_allowed_path(path: &str, lookup: &PathLookup, home: &Result<String, String>) -> (b:
    bool)
    ensures
        b == delete_path_spec(MacOsRule, path@, lookup@, result_view(*home)) is Ok,
{
    resolve_with(&MacOsRule, path, lookup, home).is_ok()
}

/// Checks that `path` may be deleted.
pub fn validate_delete_path(path: &str, lookup: &PathLookup, home: &Result<String, String>) -> (r:
    Result<(), String>)
    ensures
        unit_result_view(r) == match delete_path_spec(MacOsRule, path@, lookup@, result_view(*home)) {
            Ok(_) => Ok(()),
            Err(e) => Err(e),
        },
{
    match resolve_with(&MacOsRule, path, lookup, home) {
        Ok(_) => Ok(()),
        Err(e) => Err(e),
    }
}

/// Checks that `path` may be deleted and gives its resolved form.
pub fn resolve_delete_path(path: &str, lookup: &PathLookup, home: &Result<String, String>) -> (r:
    Result<String, String>)
    ensures
        result_view(r) == delete_path_spec(MacOsRule, path@, lookup@, result_view(*home)),
{
    resolve_with(&MacOsRule, path, lookup, home)
}

/// Checks a permanent deletion of `path`.
pub fn validate_permanent_delete(
    path: &str,
    confirmation: &str,
    lookup: &PathLookup,
    home: &Result<String, String>,
) -> (r: Result<(), String>)
    ensures
        unit_result_view(r) == match permanent_delete_spec(
            MacOsRule,
            path@,
            confirmation@,
            lookup@,
            result_view(*home),
        ) {
            Ok(_) => Ok(()),
            Err(e) => Err(e),
        },
{
    match resolve_permanent_with(&MacOsRule, path, confirmation, lookup, home) {
        Ok(_) => Ok(()),
        Err(e) => Err(e),
    }
}

/// Checks a permanent deletion of `path` and gives its resolved form.
pub fn resolve_permanent_delete(
    path: &str,
    confirmation: &str,
    lookup: &PathLookup,
    home: &Result<String, String>,
) -> (r: Result<String, String>)
    ensures
        result_view(r) == permanent_delete_spec(
            MacOsRule,
            path@,
            confirmation@,
            lookup@,
            result_view(*home),
        ),
{
    resolve_permanent_with(&MacOsRule, path, confirmation, lookup, home)
}

/// Nothing under `/usr/local/` is ever protected, however it is reached.
pub proof fn law_usr_local_never_protected(path: Seq<char>, lookup: LookupView)
    requires
        starts_with(trim(path), "/usr/local/"@),
    ensures
        !is_protected_path_spec(path, lookup),
{
}

/// A resolved path under `/usr/local/` is never protected.
pub proof fn law_usr_local_canonical_unprotected(canonical: Seq<char>)
    requires
        starts_with(canonical, "/usr/local/"@),
    ensures
        !macos_protects(canonical),
{
}

/// The system's folders (`/System`, `/usr` outside `/usr/local/`, `/bin`,
/// `/sbin`, `/Library`) are never cleared for deletion.
pub proof fn law_system_folders_never_deleted(canonical: Seq<char>, home: Result<Seq<char>, Seq<char>>)
    requires
        macos_protects(canonical),
    ensures
        delete_check(MacOsRule, canonical, home) is Err,
{
}

} // verus!

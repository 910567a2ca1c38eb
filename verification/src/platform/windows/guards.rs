//! What Windows never deletes: anything under the system's own directories,
//! plus the rules every platform applies.
use vstd::prelude::*;

use crate::platform::path_validation::{
    delete_path_spec, existing_path_spec, permanent_delete_spec,
    resolve_delete_path as resolve_with, resolve_existing_path,
    resolve_permanent_delete as resolve_permanent_with, result_view, unit_result_view, LookupView,
    PathLookup, ProtectionRule,
};
use crate::platform::windows::paths::{
    components_of as win_components_of, file_name_of, is_protected_path as under_protected,
    is_protected_spec, resolved_view, strings_view, win_components, win_file_name, WindowsDirs,
};
use crate::text::chars_of;

verus! {

/// The Windows rules on paths, with what the file system said of the
/// system's directories.
#[derive(Debug, Clone)]
pub struct WindowsRule {
    pub dirs: WindowsDirs,
}

impl ProtectionRule for WindowsRule {
    open spec fn protects(&self, canonical: Seq<char>) -> bool {
        is_protected_spec(
            canonical,
            strings_view(self.dirs.protected@),
            resolved_view(self.dirs.resolved@),
        )
    }

    open spec fn components(&self, path: Seq<char>) -> Seq<Seq<char>> {
        win_components(path)
    }

    open spec fn file_name(&self, path: Seq<char>) -> Option<Seq<char>> {
        win_file_name(path)
    }

    fn is_protected_canonical(&self, canonical: &str) -> (b: bool) {
        under_protected(canonical, &self.dirs)
    }

    fn components_of(&self, path: &str) -> (r: Vec<Vec<char>>) {
        win_components_of(&chars_of(path))
    }

    fn file_name_of(&self, path: &str) -> (r: Option<String>) {
        file_name_of(path)
    }
}

/// A path is protected when it resolves to a path under a system
/// directory; a path that cannot be resolved is not.
pub open spec fn is_protected_path_spec(rule: WindowsRule, path: Seq<char>, lookup: LookupView) -> bool {
    match existing_path_spec(path, lookup) {
        Ok(c) => rule.protects(c),
        Err(_) => false,
    }
}

/// Whether Windows protects `path`; `lookup` is what the file system said
/// of the trimmed path.
pub fn is_protected_path(rule: &WindowsRule, path: &str, lookup: &PathLookup) -> (b: bool)
    ensures
        b == is_protected_path_spec(*rule, path@, lookup@),
{
    match resolve_existing_path(path, lookup) {
        Ok(c) => rule.is_protected_canonical(c.as_str()),
        Err(_) => false,
    }
}

/// Whether the user may delete `path`.
pub fn is_user_allowed_path(
    rule: &WindowsRule,
    path: &str,
    lookup: &PathLookup,
    home: &Result<String, String>,
) -> (b: bool)
    ensures
        b == delete_path_spec(*rule, path@, lookup@, result_view(*home)) is Ok,
{
    resolve_with(rule, path, lookup, home).is_ok()
}

/// Checks that `path` may be deleted.
pub fn validate_delete_path(
    rule: &WindowsRule,
    path: &str,
    lookup: &PathLookup,
    home: &Result<String, String>,
) -> (r: Result<(), String>)
    ensures
        unit_result_view(r) == match delete_path_spec(*rule, path@, lookup@, result_view(*home)) {
            Ok(_) => Ok(()),
            Err(e) => Err(e),
        },
{
    match resolve_with(rule, path, lookup, home) {
        Ok(_) => Ok(()),
        Err(e) => Err(e),
    }
}

/// Checks that `path` may be deleted and gives its resolved form.
pub fn resolve_delete_path(
    rule: &WindowsRule,
    path: &str,
    lookup: &PathLookup,
    home: &Result<String, String>,
) -> (r: Result<String, String>)
    ensures
        result_view(r) == delete_path_spec(*rule, path@, lookup@, result_view(*home)),
{
    resolve_with(rule, path, lookup, home)
}

/// Checks a permanent deletion of `path`.
pub fn validate_permanent_delete(
    rule: &WindowsRule,
    path: &str,
    confirmation: &str,
    lookup: &PathLookup,
    home: &Result<String, String>,
) -> (r: Result<(), String>)
    ensures
        unit_result_view(r) == match permanent_delete_spec(
            *rule,
            path@,
            confirmation@,
            lookup@,
            result_view(*home),
        ) {
            Ok(_) => Ok(()),
            Err(e) => Err(e),
        },
{
    match resolve_permanent_with(rule, path, confirmation, lookup, home) {
        Ok(_) => Ok(()),
        Err(e) => Err(e),
    }
}

/// Checks a permanent deletion of `path` and gives its resolved form.
pub fn resolve_permanent_delete(
    rule: &WindowsRule,
    path: &str,
    confirmation: &str,
    lookup: &PathLookup,
    home: &Result<String, String>,
) -> (r: Result<String, String>)
    ensures
        result_view(r) == permanent_delete_spec(
            *rule,
            path@,
            confirmation@,
            lookup@,
            result_view(*home),
        ),
{
    resolve_permanent_with(rule, path, confirmation, lookup, home)
}

} // verus!

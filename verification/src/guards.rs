//! The deletion guards of the platform the application runs on.
use vstd::prelude::*;

use crate::platform::linux::guards::LinuxRule;
use crate::platform::macos::guards::MacOsRule;
use crate::platform::path_validation::{
    delete_path_spec, permanent_delete_spec, result_view, PathLookup,
};
use crate::platform::target::Platform;

verus! {

/// The outcome of asking to delete `path` on `platform`.
pub open spec fn platform_delete_spec(
    platform: Platform,
    path: Seq<char>,
    lookup: crate::platform::path_validation::LookupView,
    home: Result<Seq<char>, Seq<char>>,
) -> Result<Seq<char>, Seq<char>> {
    match platform {
        Platform::MacOs => delete_path_spec(MacOsRule, path, lookup, home),
        Platform::Linux => delete_path_spec(LinuxRule, path, lookup, home),
        Platform::Windows(rule) => delete_path_spec(rule, path, lookup, home),
    }
}

/// The outcome of asking to delete `path` for good on `platform`.
pub open spec fn platform_permanent_spec(
    platform: Platform,
    path: Seq<char>,
    confirmation: Seq<char>,
    lookup: crate::platform::path_validation::LookupView,
    home: Result<Seq<char>, Seq<char>>,
) -> Result<Seq<char>, Seq<char>> {
    match platform {
        Platform::MacOs => permanent_delete_spec(MacOsRule, path, confirmation, lookup, home),
        Platform::Linux => permanent_delete_spec(LinuxRule, path, confirmation, lookup, home),
        Platform::Windows(rule) => permanent_delete_spec(
            rule,
            path,
            confirmation,
            lookup,
            home,
        ),
    }
}

/// Checks that `path` may be deleted on `platform`; gives its resolved form.
pub fn resolve_delete_path(
    platform: &Platform,
    path: &str,
    lookup: &PathLookup,
    home: &Result<String, String>,
) -> (r: Result<String, String>)
    ensures
        result_view(r) == platform_delete_spec(*platform, path@, lookup@, result_view(*home)),
{
    match platform {
        Platform::MacOs => crate::platform::macos::guards::resolve_delete_path(path, lookup, home),
        Platform::Linux => crate::platform::linux::guards::resolve_delete_path(path, lookup, home),
        Platform::Windows(rule) => crate::platform::windows::guards::resolve_delete_path(
            rule,
            path,
            lookup,
            home,
        ),
    }
}

/// Checks a permanent deletion of `path` on `platform`; gives its resolved
/// form.
pub fn resolve_permanent_delete(
    platform: &Platform,
    path: &str,
    confirmation: &str,
    lookup: &PathLookup,
    home: &Result<String, String>,
) -> (r: Result<String, String>)
    ensures
        result_view(r) == platform_permanent_spec(
            *platform,
            path@,
            confirmation@,
            lookup@,
            result_view(*home),
        ),
{
    match platform {
        Platform::MacOs => crate::platform::macos::guards::resolve_permanent_delete(
            path,
            confirmation,
            lookup,
            home,
        ),
        Platform::Linux => crate::platform::linux::guards::resolve_permanent_delete(
            path,
            confirmation,
            lookup,
            home,
        ),
        Platform::Windows(rule) => crate::platform::windows::guards::resolve_permanent_delete(
            rule,
            path,
            confirmation,
            lookup,
            home,
        ),
    }
}

} // verus!

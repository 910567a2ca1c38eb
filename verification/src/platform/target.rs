//! The platform the application runs on, with what its rules need.
use vstd::prelude::*;

use crate::platform::windows::guards::WindowsRule;

verus! {

/// The platform whose rules apply.
#[derive(Debug, Clone)]
pub enum Platform {
    MacOs,
    Linux,
    /// Windows, with what the file system said of its system directories.
    Windows(WindowsRule),
}

} // verus!

//! Platform-specific rules (macOS, Linux, Windows) and the parts they share.
pub mod shared;
pub mod path_validation;
pub mod shell;
pub mod target;
pub mod linux;
pub mod macos;
pub mod windows;

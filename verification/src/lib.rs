//! Port Watch: finds the processes that listen on network ports, tells
//! vendor and system services apart from the user's own servers, and guards
//! the stop and delete actions offered on them.
pub mod app_settings;
pub mod classifier;
pub mod cli;
pub mod cli_install;
pub mod commands;
pub mod guards;
pub mod home;
pub mod platform;
pub mod poller;
pub mod scanner;
pub mod text;
pub mod tray;

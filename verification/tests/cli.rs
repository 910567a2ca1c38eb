use port_watch::classifier::SystemKind;
use port_watch::cli::{check_exit_code, cli_command, parse_check_args, port_owners, CliCommand};
use port_watch::cli_install::{
    admin_install_outcome, admin_install_script, applescript_string, get_cli_install_status,
    install_cli_to_path, install_report, paths_refer_to_same_file, shell_escape,
    uninstall_cli_from_path, InstallStep, LinkState, UninstallStep, CLI_LINK_PATH,
};
use port_watch::scanner::{PortBinding, PortProcess};

#[test]
fn shell_escape_handles_single_quotes() {
    assert_eq!(
        shell_escape("/Applications/Port Watch.app/Contents/MacOS/port-watch"),
        "'/Applications/Port Watch.app/Contents/MacOS/port-watch'"
    );
    assert_eq!(shell_escape("it's"), "'it'\\''s'");
}

// --- further cases ---

#[test]
fn applescript_quoting() {
    assert_eq!(applescript_string("a\"b\\c"), "\"a\\\"b\\\\c\"");
    assert_eq!(
        admin_install_script("/Apps/P W"),
        "do shell script \"mkdir -p /usr/local/bin && ln -sf '/Apps/P W' '/usr/local/bin/port-watch'\" with administrator privileges"
    );
    assert!(admin_install_outcome(true, "x").is_ok());
    assert_eq!(admin_install_outcome(false, "  \n").unwrap_err(), "Installation was cancelled or failed.");
    assert_eq!(admin_install_outcome(false, " denied \n").unwrap_err(), "denied");
}

fn link(exists: bool, target: Option<&str>) -> LinkState {
    LinkState {
        exists,
        target: target.map(|t| t.to_string()),
        target_resolved: target.map(|t| t.to_string()),
        app_resolved: Some("/Applications/Port Watch.app/Contents/MacOS/port-watch".into()),
    }
}

#[test]
fn cli_install_decisions() {
    let exe = Ok("/Applications/Port Watch.app/Contents/MacOS/port-watch".to_string());
    assert_eq!(
        get_cli_install_status(false, &exe, &link(false, None)).unwrap_err(),
        "CLI install is only supported on macOS"
    );
    let s = get_cli_install_status(true, &exe, &link(false, None)).unwrap();
    assert!(!s.installed && s.link_path == CLI_LINK_PATH);
    let here = link(true, Some("/Applications/Port Watch.app/Contents/MacOS/port-watch"));
    let s = get_cli_install_status(true, &exe, &here).unwrap();
    assert!(s.installed && s.points_to_app);
    assert!(matches!(install_cli_to_path(true, &exe, &here), Ok(InstallStep::AlreadyInstalled)));
    assert_eq!(uninstall_cli_from_path(true, &exe, &here), Ok(UninstallStep::RemoveLink));
    let other = link(true, Some("/opt/other/port-watch"));
    assert_eq!(
        install_cli_to_path(true, &exe, &other).unwrap_err(),
        "Another port-watch is installed at /usr/local/bin/port-watch (points to /opt/other/port-watch)"
    );
    assert_eq!(
        uninstall_cli_from_path(true, &exe, &other).unwrap_err(),
        "/usr/local/bin/port-watch points to /opt/other/port-watch, not this app. Uninstall skipped."
    );
    let file = link(true, None);
    assert_eq!(
        install_cli_to_path(true, &exe, &file).unwrap_err(),
        "/usr/local/bin/port-watch exists but is not a symlink. Remove it manually and try again."
    );
    assert_eq!(
        uninstall_cli_from_path(true, &exe, &file).unwrap_err(),
        "/usr/local/bin/port-watch exists but is not a symlink. Remove it manually."
    );
    assert!(matches!(install_cli_to_path(true, &exe, &link(false, None)), Ok(InstallStep::CreateLink(_))));
    assert_eq!(uninstall_cli_from_path(true, &exe, &link(false, None)), Ok(UninstallStep::Nothing));
    assert_eq!(
        install_cli_to_path(true, &Err("no exe".into()), &link(false, None)).unwrap_err(),
        "no exe"
    );
    assert_eq!(install_report(&Ok(())), ("Installed /usr/local/bin/port-watch".to_string(), 0));
    assert_eq!(install_report(&Err("bad".into())), ("bad".to_string(), 1));
}

#[test]
fn same_file_compares_components() {
    assert!(paths_refer_to_same_file("/a//b/", "/a/b", &None, &None));
    assert!(!paths_refer_to_same_file("/a/b", "/a/c", &None, &None));
    assert!(paths_refer_to_same_file("/x", "/y", &Some("/r".into()), &Some("/r".into())));
}

fn owner(pid: u32, ports: &[u16]) -> PortProcess {
    PortProcess {
        pid,
        name: "p".into(),
        user: "u".into(),
        ports: ports
            .iter()
            .map(|p| PortBinding { address: "*".into(), port: *p, protocol: "TCP".into() })
            .collect(),
        executable_path: String::new(),
        script_path: None,
        command_line: String::new(),
        working_directory: String::new(),
        project_root: String::new(),
        system_kind: SystemKind::User,
        is_system_service: false,
        uptime_seconds: 0,
    }
}

#[test]
fn check_command() {
    let args = |v: &[&str]| v.iter().map(|s| s.to_string()).collect::<Vec<String>>();
    assert_eq!(cli_command(&args(&["port-watch", "check", "80"])), CliCommand::Check);
    assert_eq!(cli_command(&args(&["port-watch", "install-cli"])), CliCommand::InstallCli);
    assert_eq!(cli_command(&args(&["port-watch"])), CliCommand::App);
    assert_eq!(parse_check_args(&args(&[])).unwrap_err(), "Usage: port-watch check <port> [--udp]");
    assert_eq!(parse_check_args(&args(&["x"])).unwrap_err(), "Invalid port: x");
    assert_eq!(parse_check_args(&args(&["8080", "--udp"])).unwrap(), (8080, true));
    assert_eq!(parse_check_args(&args(&["8080", "-u"])).unwrap(), (8080, false));
    let ps = vec![owner(1, &[80, 443]), owner(2, &[3000]), owner(3, &[443])];
    let owners = port_owners(&ps, 443);
    assert_eq!(owners.iter().map(|p| p.pid).collect::<Vec<_>>(), vec![1, 3]);
    assert_eq!(check_exit_code(&owners), 1);
    assert_eq!(check_exit_code(&port_owners(&ps, 22)), 0);
}

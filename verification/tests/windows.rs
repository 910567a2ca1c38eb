use port_watch::classifier::{SystemKind, UserEnv};
use port_watch::platform::path_validation::PathLookup;
use port_watch::platform::windows::classifier::{classify, users_match};
use port_watch::platform::windows::guards::{is_protected_path, validate_delete_path, WindowsRule};
use port_watch::platform::windows::paths::{
    is_microsoft_path, parent_of, path_starts_with, protected_prefixes, starts_with_lexically,
    WindowsDirs,
};
use port_watch::platform::windows::scanner::{
    infer_working_directory, listener_probe, normalize_address, scan_listening_ports,
    WindowsListener,
};
use port_watch::scanner::{PortBinding, PortProcess};

fn env() -> UserEnv {
    UserEnv { home: "C:\\Users\\dev".into(), username: "dev".into() }
}

fn dirs() -> WindowsDirs {
    WindowsDirs {
        protected: vec!["C:\\Windows".into(), "C:\\Program Files".into()],
        resolved: Vec::new(),
    }
}

#[test]
fn classifies_microsoft_binary() {
    let mut p = PortProcess {
        pid: 1,
        name: "svchost".into(),
        user: "NT AUTHORITY\\SYSTEM".into(),
        ports: vec![PortBinding { address: "*".into(), port: 80, protocol: "TCP".into() }],
        executable_path: "C:\\Windows\\System32\\svchost.exe".into(),
        script_path: None,
        command_line: String::new(),
        working_directory: String::new(),
        project_root: String::new(),
        system_kind: SystemKind::User,
        is_system_service: false,
        uptime_seconds: 0,
    };
    classify(&mut p, &env(), &dirs());
    assert_eq!(p.system_kind, SystemKind::Microsoft);
}

#[test]
fn infer_working_directory_from_script_path() {
    assert_eq!(
        infer_working_directory(
            "C:\\Program Files\\nodejs\\node.exe",
            &Some("C:\\Users\\dev\\app\\server.js".to_string()),
        ),
        "C:\\Users\\dev\\app"
    );
}

#[test]
fn normalize_address_wildcard() {
    assert_eq!(normalize_address("0.0.0.0"), "*");
    assert_eq!(normalize_address("127.0.0.1"), "127.0.0.1");
}

// --- further cases ---

#[test]
fn windows_parents() {
    assert_eq!(parent_of("C:\\x"), Some("C:\\".to_string()));
    assert_eq!(parent_of("C:\\"), None);
    assert_eq!(parent_of("C:"), None);
    assert_eq!(parent_of("server.js"), Some(String::new()));
    assert_eq!(parent_of("C:/a/b/"), Some("C:/a".to_string()));
    assert_eq!(parent_of(""), None);
    assert_eq!(infer_working_directory("C:\\tools\\app.exe", &None), "C:\\tools");
    assert_eq!(infer_working_directory("", &None), "");
    assert_eq!(normalize_address("::"), "*");
}

#[test]
fn windows_prefixes_compare_by_component() {
    assert!(starts_with_lexically("c:\\Windows\\System32", "C:\\Windows"));
    assert!(starts_with_lexically("C:/Windows/System32", "C:\\Windows\\"));
    assert!(!starts_with_lexically("C:\\WindowsApps", "C:\\Windows"));
    let resolved = vec![("C:\\Link".to_string(), Some("C:\\Windows\\Temp".to_string()))];
    assert!(path_starts_with("C:\\Link", "C:\\Windows", &resolved));
    assert!(!path_starts_with("D:\\data", "C:\\Windows", &resolved));
}

#[test]
fn microsoft_paths_and_accounts() {
    assert!(is_microsoft_path("C:\\Program Files\\App\\a.exe", "", &dirs()));
    assert!(is_microsoft_path("D:\\WINDOWS\\system32\\x.exe", "", &WindowsDirs { protected: vec![], resolved: vec![] }));
    assert!(!is_microsoft_path("C:\\Users\\dev\\microsoft-graph-demo\\a.exe", "microsoft", &dirs()));
    assert!(users_match("DESKTOP\\Dev", "dev"));
    assert!(users_match("dev", "OTHER\\DEV"));
    assert!(!users_match("alice", "bob"));
}

#[test]
fn protected_prefixes_skip_unset() {
    assert_eq!(
        protected_prefixes(Some("C:\\Windows".into()), None, Some(String::new()), Some("C:\\ProgramData".into())),
        vec!["C:\\Windows".to_string(), "C:\\ProgramData".to_string()]
    );
}

#[test]
fn windows_guards() {
    let rule = WindowsRule { dirs: dirs() };
    assert!(is_protected_path(&rule, "C:\\Windows\\notepad.exe", &PathLookup::Resolved("C:\\Windows\\notepad.exe".into())));
    assert!(!is_protected_path(&rule, "C:\\Windows\\gone", &PathLookup::Missing));
    let home = Ok("C:\\Users\\dev".to_string());
    assert!(validate_delete_path(&rule, "C:\\Users\\dev\\app", &PathLookup::Resolved("C:\\Users\\dev\\app".into()), &home).is_ok());
    assert!(validate_delete_path(&rule, "C:\\Users\\dev\\AppData", &PathLookup::Resolved("C:\\Users\\dev\\AppData".into()), &home).is_err());
}

#[test]
fn windows_scan_merges_listeners() {
    let l = |port: u16, addr: &str| WindowsListener {
        pid: 42,
        name: "node".into(),
        user: "DESKTOP\\dev".into(),
        local_address: addr.into(),
        local_port: port,
        executable_path: Some("C:\\Program Files\\nodejs\\node.exe".into()),
        command_line: Some("node C:\\Users\\dev\\app\\server.js".into()),
        protocol: "TCP".into(),
        uptime_seconds: 7,
    };
    let listeners = vec![l(3000, "0.0.0.0"), l(3000, "0.0.0.0"), l(3001, "127.0.0.1")];
    assert_eq!(listener_probe(&listeners[0]), "C:\\Users\\dev\\app");
    let roots = vec![(42u32, "C:\\Users\\dev\\app".to_string())];
    let out = scan_listening_ports(&listeners, &roots, &env(), &dirs());
    assert_eq!(out.len(), 1);
    assert_eq!(out[0].ports.len(), 2);
    assert_eq!(out[0].ports[0].address, "*");
    assert_eq!(out[0].working_directory, "C:\\Users\\dev\\app");
    assert_eq!(out[0].system_kind, SystemKind::User);
}

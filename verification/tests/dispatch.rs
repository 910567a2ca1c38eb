use port_watch::classifier::{classify, SystemKind, UserEnv};
use port_watch::guards::{resolve_delete_path, resolve_permanent_delete};
use port_watch::platform::path_validation::PathLookup;
use port_watch::platform::target::Platform;
use port_watch::platform::windows::guards::WindowsRule;
use port_watch::platform::windows::paths::WindowsDirs;
use port_watch::scanner::{scan_listening_ports, PortBinding, PortProcess, ScanInputs};

fn process(exe: &str, user: &str) -> PortProcess {
    PortProcess {
        pid: 3,
        name: "x".into(),
        user: user.into(),
        ports: vec![PortBinding { address: "*".into(), port: 1, protocol: "TCP".into() }],
        executable_path: exe.into(),
        script_path: None,
        command_line: String::new(),
        working_directory: String::new(),
        project_root: String::new(),
        system_kind: SystemKind::User,
        is_system_service: false,
        uptime_seconds: 0,
    }
}

#[test]
fn classify_follows_the_platform() {
    let env = UserEnv { home: "/home/t".into(), username: "t".into() };
    let mut p = process("/usr/bin/sshd", "root");
    classify(&mut p, &env, &Platform::Linux);
    assert_eq!(p.system_kind, SystemKind::Distro);
    let mut p = process("/usr/bin/sshd", "root");
    classify(&mut p, &env, &Platform::MacOs);
    assert_eq!(p.system_kind, SystemKind::Apple);
    let mut p = process("C:\\Windows\\System32\\x.exe", "t");
    let rule = WindowsRule { dirs: WindowsDirs { protected: vec![], resolved: vec![] } };
    classify(&mut p, &env, &Platform::Windows(rule));
    assert_eq!(p.system_kind, SystemKind::Microsoft);
    assert!(p.is_system_service);
}

#[test]
fn guards_follow_the_platform() {
    let home = Ok("/home/t".to_string());
    let lookup = PathLookup::Resolved("/home/t/app".into());
    assert_eq!(resolve_delete_path(&Platform::Linux, "/home/t/app", &lookup, &home).unwrap(), "/home/t/app");
    assert_eq!(
        resolve_permanent_delete(&Platform::MacOs, "/home/t/app", "app", &lookup, &home).unwrap(),
        "/home/t/app"
    );
    let opt = PathLookup::Resolved("/opt/x".into());
    assert!(resolve_delete_path(&Platform::Linux, "/opt/x", &opt, &home).is_err());
}

#[test]
fn scan_follows_the_platform() {
    let env = UserEnv { home: "/Users/t".into(), username: "t".into() };
    let inputs = ScanInputs::MacOs {
        tcp_output: "p9\ncnode\nn*:4000\n".to_string(),
        udp_output: None,
        ps_outputs: vec![],
        path_outputs: vec![],
    };
    let out = scan_listening_ports(&inputs, &vec![], &env);
    assert_eq!(out.len(), 1);
    assert_eq!(out[0].pid, 9);
    assert_eq!(out[0].ports[0].port, 4000);
}

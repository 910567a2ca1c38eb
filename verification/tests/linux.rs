use port_watch::classifier::{SystemKind, UserEnv};
use port_watch::platform::linux::classifier::classify;
use port_watch::platform::linux::guards::{
    is_protected_path, validate_delete_path, LinuxRule,
};
use port_watch::platform::linux::scanner::{
    cmdline_text, getent_user, merge_by_pid, parse_ss_line, parse_ss_owners, parse_ss_output, passwd_user, scan_listening_ports,
    stat_start_ticks, status_uid, ProcInfo, SocketRecord,
};
use port_watch::platform::path_validation::PathLookup;
use port_watch::scanner::{PortBinding, PortProcess};

fn env() -> UserEnv {
    UserEnv { home: "/home/tester".into(), username: "tester".into() }
}

#[test]
fn classifies_distro_binary() {
    let mut p = PortProcess {
        pid: 1,
        name: "nginx".into(),
        user: "root".into(),
        ports: vec![PortBinding { address: "*".into(), port: 80, protocol: "TCP".into() }],
        executable_path: "/usr/sbin/nginx".into(),
        script_path: None,
        command_line: String::new(),
        working_directory: "/".into(),
        project_root: String::new(),
        system_kind: SystemKind::User,
        is_system_service: false,
        uptime_seconds: 0,
    };
    classify(&mut p, &env());
    assert_eq!(p.system_kind, SystemKind::Distro);
}

#[test]
fn parse_ss_line_extracts_pid_and_local() {
    let line = "0 4096 127.0.0.1:8080 0.0.0.0:* users:((\"node\",pid=1234,fd=21))";
    let (owners, local) = parse_ss_line(line).unwrap();
    assert_eq!(owners, vec![(1234, "node".to_string())]);
    assert_eq!(local, "127.0.0.1:8080");
}

#[test]
fn parse_ss_line_with_listen_state() {
    let line = "LISTEN 0 4096 127.0.0.1:8080 0.0.0.0:* users:((\"node\",pid=1234,fd=21))";
    let (owners, local) = parse_ss_line(line).unwrap();
    assert_eq!(owners, vec![(1234, "node".to_string())]);
    assert_eq!(local, "127.0.0.1:8080");
}

#[test]
fn parse_ss_line_ipv6_local() {
    let line = "0 4096 [::1]:3000 0.0.0.0:* users:((\"node\",pid=5678,fd=3))";
    let (owners, local) = parse_ss_line(line).unwrap();
    assert_eq!(owners, vec![(5678, "node".to_string())]);
    assert_eq!(local, "[::1]:3000");
}

#[test]
fn parse_ss_line_wildcard_local() {
    let line = "0 4096 0.0.0.0:8080 0.0.0.0:* users:((\"nginx\",pid=999,fd=5))";
    let (owners, local) = parse_ss_line(line).unwrap();
    assert_eq!(owners, vec![(999, "nginx".to_string())]);
    assert_eq!(local, "0.0.0.0:8080");
}

#[test]
fn parse_ss_line_multiple_owners() {
    let line = "LISTEN 0 511 0.0.0.0:80 0.0.0.0:* users:((\"nginx\",pid=101,fd=6),(\"nginx\",pid=100,fd=6))";
    let (owners, local) = parse_ss_line(line).unwrap();
    assert_eq!(owners, vec![(101, "nginx".to_string()), (100, "nginx".to_string())]);
    assert_eq!(local, "0.0.0.0:80");
}

#[test]
fn parse_ss_line_without_users_field() {
    let line = "LISTEN 0 4096 0.0.0.0:443 0.0.0.0:*";
    let (owners, local) = parse_ss_line(line).unwrap();
    assert_eq!(owners, vec![(0, "unknown".to_string())]);
    assert_eq!(local, "0.0.0.0:443");
}

#[test]
fn merge_by_pid_keeps_ownerless_sockets_separate() {
    let records = vec![
        SocketRecord {
            pid: 0,
            name: "unknown".into(),
            bindings: vec![PortBinding { address: "0.0.0.0".into(), port: 443, protocol: "TCP".into() }],
        },
        SocketRecord {
            pid: 0,
            name: "unknown".into(),
            bindings: vec![PortBinding { address: "0.0.0.0".into(), port: 80, protocol: "TCP".into() }],
        },
    ];
    let merged = merge_by_pid(records);
    assert_eq!(merged.len(), 2);
}

#[test]
fn scanner_scan_listening_ports_live() {
    // A scan of captured `ss` output: one listener owned by the user, one
    // by a distribution daemon, sorted by port.
    let tcp = "State Recv-Q Send-Q Local Address:Port Peer Address:Port Process\n\
               LISTEN 0 511 0.0.0.0:80 0.0.0.0:* users:((\"nginx\",pid=100,fd=6))\n\
               LISTEN 0 4096 127.0.0.1:3000 0.0.0.0:* users:((\"node\",pid=4242,fd=21))\n";
    let infos = vec![
        (
            100,
            ProcInfo {
                user: "root".into(),
                command_line: "nginx: master process".into(),
                working_directory: "/".into(),
                executable_path: "/usr/sbin/nginx".into(),
                uptime_seconds: 10,
            },
        ),
        (
            4242,
            ProcInfo {
                user: "tester".into(),
                command_line: "node server.js".into(),
                working_directory: "/home/tester/app".into(),
                executable_path: "/usr/local/bin/node".into(),
                uptime_seconds: 5,
            },
        ),
    ];
    let roots = vec![(4242u32, "/home/tester/app".to_string())];
    let processes = scan_listening_ports(tcp, &None, &infos, &roots, &env());
    assert_eq!(processes.len(), 2);
    assert_eq!(processes[0].ports[0].port, 80);
    assert_eq!(processes[0].system_kind, SystemKind::Distro);
    assert_eq!(processes[1].pid, 4242);
    assert_eq!(processes[1].system_kind, SystemKind::User);
    assert!(!processes[1].is_system_service);
    assert_eq!(processes[1].project_root, "/home/tester/app");
}

// --- further cases ---

#[test]
fn parse_ss_output_skips_header_and_merges_nothing() {
    let out = "Netid State Local\nLISTEN 0 4096 0.0.0.0:22 0.0.0.0:* users:((\"sshd\",pid=7,fd=3))\n";
    let records = parse_ss_output(out, "TCP");
    assert_eq!(records.len(), 1);
    assert_eq!(records[0].pid, 7);
    assert_eq!(records[0].bindings[0].port, 22);
}

#[test]
fn merge_by_pid_joins_sockets_of_one_process() {
    let b = |port: u16| PortBinding { address: "*".into(), port, protocol: "TCP".into() };
    let records = vec![
        SocketRecord { pid: 5, name: "a".into(), bindings: vec![b(1)] },
        SocketRecord { pid: 5, name: "a".into(), bindings: vec![b(2), b(1)] },
    ];
    let merged = merge_by_pid(records);
    assert_eq!(merged.len(), 1);
    assert_eq!(merged[0].bindings.len(), 2);
}

#[test]
fn proc_files_are_read() {
    assert_eq!(cmdline_text("node\0server.js\0"), "node server.js");
    assert_eq!(status_uid("Name:\tnode\nUid:\t1000\t1000\t1000\t1000\n"), Some((1000, "1000".to_string())));
    assert_eq!(passwd_user("root:x:0:0::/root:/bin/sh\ntester:x:1000:1000::/home/tester:/bin/sh\n", 1000), Some("tester".to_string()));
    assert_eq!(stat_start_ticks("1 (init) S 0 1 1 0 -1 4194560 0 0 0 0 0 0 0 0 20 0 1 0 42"), 42);
}

#[test]
fn linux_protects_system_folders() {
    assert!(is_protected_path("/opt/tool", &PathLookup::Missing));
    assert!(!is_protected_path("/usr/local/bin/node", &PathLookup::Missing));
    assert!(!is_protected_path("/home/tester/app", &PathLookup::Resolved("/home/tester/app".into())));
    let home = Ok("/home/tester".to_string());
    let _ = LinuxRule;
    assert!(validate_delete_path("/home/tester/app", &PathLookup::Resolved("/home/tester/app".into()), &home).is_ok());
    assert!(validate_delete_path("/usr/lib", &PathLookup::Resolved("/usr/lib".into()), &home).unwrap_err().contains("Protected system path"));
}

#[test]
fn ss_owners_and_getent() {
    assert_eq!(
        parse_ss_owners("users:((\"a b\",pid=1,fd=2),(\"c\",pid=x,fd=3),(\"d\",pid=4))"),
        vec![(1, "a b".to_string()), (4, "d".to_string())]
    );
    assert_eq!(parse_ss_owners("users:()"), Vec::<(u32, String)>::new());
    assert!(parse_ss_line("LISTEN 0 1 0.0.0.0:1 0.0.0.0:* users:()").is_none());
    assert_eq!(getent_user("tester:x:1000:1000::/home/tester:/bin/sh\n"), Some("tester".to_string()));
    assert_eq!(getent_user("\n"), None);
}

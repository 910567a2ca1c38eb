use port_watch::classifier::{SystemKind, UserEnv};
use port_watch::platform::macos::classifier::classify;
use port_watch::platform::macos::guards::{
    is_protected_path, resolve_delete_path, resolve_permanent_delete, validate_permanent_delete,
    MacOsRule,
};
use port_watch::platform::macos::scanner::{
    etime_in_range, merge_by_pid, parse_etime, parse_lsof_output, parse_ps_line, pids_to_inspect,
    read_path_outputs, read_ps_outputs, root_probe, scan_listening_ports, socket_records, split_token,
};
use port_watch::platform::path_validation::{
    assert_delete_allowed, canonical_home, resolve_existing_path, PathLookup,
};
use port_watch::scanner::{PortBinding, PortProcess};

const HOME: &str = "/Users/tester";

fn env() -> UserEnv {
    UserEnv { home: HOME.into(), username: "tester".into() }
}

fn sample_process(executable: &str, user: &str, cwd: &str) -> PortProcess {
    PortProcess {
        pid: 1,
        name: "test".into(),
        user: user.into(),
        ports: vec![PortBinding { address: "*".into(), port: 8080, protocol: "TCP".into() }],
        executable_path: executable.into(),
        script_path: None,
        command_line: String::new(),
        working_directory: cwd.into(),
        project_root: String::new(),
        system_kind: SystemKind::User,
        is_system_service: false,
        uptime_seconds: 0,
    }
}

#[test]
fn classifies_apple_system() {
    let mut p = sample_process("/System/Library/CoreServices/ControlCenter", "ginpachi", "");
    classify(&mut p, &env());
    assert_eq!(p.system_kind, SystemKind::Apple);
    assert!(p.is_system_service);
}

#[test]
fn classifies_user_process() {
    let mut p = sample_process("/usr/local/bin/python3", "tester", &format!("{HOME}/projects/app"));
    classify(&mut p, &env());
    assert_eq!(p.system_kind, SystemKind::User);
    assert!(!p.is_system_service);
}

#[test]
fn blocks_system_paths() {
    assert!(is_protected_path("/System/Library/LaunchDaemons/foo", &PathLookup::Missing));
    assert!(is_protected_path("/usr/bin/python3", &PathLookup::Resolved("/usr/bin/python3.12".into())));
}

#[test]
fn allows_usr_local() {
    assert!(!is_protected_path("/usr/local/bin/node", &PathLookup::Resolved("/usr/local/bin/node".into())));
}

#[test]
fn parse_etime_formats() {
    assert_eq!(parse_etime("05"), 5);
    assert_eq!(parse_etime("04:05"), 245);
    assert_eq!(parse_etime("03:04:05"), 11_045);
    assert_eq!(parse_etime("2-03:04:05"), 183_845);
    assert_eq!(parse_etime(""), 0);
}

#[test]
fn parse_ps_line_with_padded_columns() {
    let (pid, info) = parse_ps_line("  501 root      1-02:03:04 node server.js --port 3000")
        .expect("line should parse");
    assert_eq!(pid, 501);
    assert_eq!(info.user, "root");
    assert_eq!(info.uptime_seconds, 93_784);
    assert_eq!(info.command_line, "node server.js --port 3000");
}

#[test]
fn parse_ps_line_rejects_garbage() {
    assert!(parse_ps_line("ps: etimes: keyword not found").is_none());
    assert!(parse_ps_line("").is_none());
}

#[test]
fn rejects_home_itself() {
    let home = canonical_home(HOME, &None);
    let err = assert_delete_allowed(&MacOsRule, HOME, &home).unwrap_err();
    assert!(err.contains("home directory"));
}

#[test]
fn rejects_protected_home_children() {
    let home = canonical_home(HOME, &None);
    let err = assert_delete_allowed(&MacOsRule, &format!("{HOME}/Documents"), &home).unwrap_err();
    assert!(err.contains("protected user directory"));
    let err = assert_delete_allowed(&MacOsRule, &format!("{HOME}/.ssh"), &home).unwrap_err();
    assert!(err.contains("protected user directory"));
}

#[test]
fn allows_projects_inside_protected_children() {
    let home = canonical_home(HOME, &None);
    assert_delete_allowed(&MacOsRule, &format!("{HOME}/Documents/my-project"), &home).unwrap();
    assert_delete_allowed(&MacOsRule, &format!("{HOME}/Dev/my-project"), &home).unwrap();
}

// --- further cases ---

#[test]
fn delete_refusals_name_their_reason() {
    let home = Ok(HOME.to_string());
    assert_eq!(
        assert_delete_allowed(&MacOsRule, "/tmp/x", &home).unwrap_err(),
        "Only paths under /Users/tester can be deleted: /tmp/x"
    );
    assert_eq!(
        assert_delete_allowed(&MacOsRule, "/Library/Caches", &home).unwrap_err(),
        "Protected system path cannot be deleted: /Library/Caches"
    );
    assert_eq!(
        assert_delete_allowed(&MacOsRule, "/Users/tester/DOCUMENTS", &home).unwrap_err(),
        "/Users/tester/DOCUMENTS is a protected user directory and cannot be deleted"
    );
    assert_eq!(
        assert_delete_allowed(&MacOsRule, "/Users/tester/app", &Err("Failed to resolve home: gone".into())).unwrap_err(),
        "Failed to resolve home: gone"
    );
    // A sibling whose name merely starts like home is not under it.
    assert!(assert_delete_allowed(&MacOsRule, "/Users/tester2/app", &home).is_err());
}

#[test]
fn canonical_home_cases() {
    assert_eq!(canonical_home("", &None).unwrap_err(), "Could not determine user home directory");
    assert_eq!(canonical_home(HOME, &None).unwrap(), HOME);
    assert_eq!(canonical_home(HOME, &Some(Ok("/private/Users/tester".into()))).unwrap(), "/private/Users/tester");
    assert_eq!(canonical_home(HOME, &Some(Err("denied".into()))).unwrap_err(), "Failed to resolve home: denied");
}

#[test]
fn existing_path_errors() {
    assert_eq!(resolve_existing_path("   ", &PathLookup::Missing).unwrap_err(), "Path is empty");
    assert_eq!(resolve_existing_path(" /a ", &PathLookup::Missing).unwrap_err(), "Path does not exist: /a");
    assert_eq!(resolve_existing_path("/a", &PathLookup::Symlink).unwrap_err(), "Symlinks cannot be deleted");
    assert_eq!(resolve_existing_path("/a", &PathLookup::InspectFailed("x".into())).unwrap_err(), "Failed to inspect path: x");
    assert_eq!(resolve_existing_path("/a", &PathLookup::ResolveFailed("y".into())).unwrap_err(), "Failed to resolve path: y");
    assert_eq!(resolve_existing_path("/a", &PathLookup::Resolved("/b".into())).unwrap(), "/b");
}

#[test]
fn permanent_delete_needs_folder_name() {
    let home = Ok(HOME.to_string());
    let path = "/Users/tester/app";
    let lookup = PathLookup::Resolved(path.into());
    assert_eq!(
        validate_permanent_delete(path, "ap", &lookup, &home).unwrap_err(),
        "Confirmation must match folder name \"app\""
    );
    assert_eq!(
        resolve_permanent_delete("/", "", &PathLookup::Resolved("/".into()), &home).unwrap_err(),
        "Could not determine folder basename for confirmation"
    );
    assert_eq!(resolve_permanent_delete(path, "app", &lookup, &home).unwrap(), path);
    assert_eq!(resolve_delete_path(path, &lookup, &home).unwrap(), path);
}

#[test]
fn lsof_output_is_grouped_and_merged() {
    let tcp = "p100\ncnode\nn127.0.0.1:3000\nn*:3001\np200\ncnginx\nn*:80\n";
    let udp = Some("p100\ncnode\nn*:5353\nn1.2.3.4:5->6.7.8.9:10\n".to_string());
    let records = parse_lsof_output(tcp, "TCP");
    assert_eq!(records.len(), 2);
    assert_eq!(records[0].bindings.len(), 2);
    let merged = socket_records(tcp, &udp);
    assert_eq!(merged.len(), 2);
    assert_eq!(merged[0].pid, Some(100));
    assert_eq!(merged[0].bindings.len(), 3);
    assert_eq!(merged[0].bindings[2].protocol, "UDP");
    assert_eq!(pids_to_inspect(&merged), vec![100, 200]);
    assert_eq!(merge_by_pid(records).len(), 2);
}

#[test]
fn macos_scan_assembles_processes() {
    let tcp = "p200\ncnginx\nn*:80\np100\ncnode\nn127.0.0.1:3000\n";
    let ps_outputs = vec![
        "  100 tester 01:00 node /Users/tester/app/server.js\n".to_string(),
        "  200 root 2-00:00:00 nginx\n".to_string(),
    ];
    let path_outputs = vec![
        "p100\nfcwd\nn/Users/tester/app\nftxt\nn/usr/local/bin/node\nftxt\nn/usr/lib/dyld\n".to_string(),
    ];
    let roots = vec![(100u32, "/Users/tester/app".to_string())];
    let out = scan_listening_ports(tcp, &None, &ps_outputs, &path_outputs, &roots, &env());
    assert_eq!(out.len(), 2);
    assert_eq!(out[0].name, "nginx");
    assert_eq!(out[0].uptime_seconds, 172_800);
    assert_eq!(out[1].name, "node");
    assert_eq!(out[1].executable_path, "/usr/local/bin/node");
    assert_eq!(out[1].working_directory, "/Users/tester/app");
    assert_eq!(out[1].script_path, Some("/Users/tester/app/server.js".to_string()));
    assert_eq!(out[1].system_kind, SystemKind::User);
}

#[test]
fn split_token_and_etime_range() {
    assert_eq!(split_token("   abc  def"), ("abc".to_string(), "  def".to_string()));
    assert_eq!(split_token(""), (String::new(), String::new()));
    assert!(etime_in_range("2-03:04:05"));
    assert!(!etime_in_range("999999999999999999-00:00:00"));
}

#[test]
fn batched_outputs_are_read_in_order() {
    let ps = read_ps_outputs(&vec![
        "  100 tester 01:00 node a.js\n".to_string(),
        "  100 tester 02:00 node b.js\n  7 root 00:05 launchd\n".to_string(),
    ]);
    let paths = read_path_outputs(&vec![
        "p100\nftxt\nn/usr/local/bin/node\n".to_string(),
        "p100\nfcwd\nn/Users/tester/app\nftxt\nn/other\n".to_string(),
    ]);
    // The later batch's line for pid 100 wins; paths accumulate.
    assert_eq!(root_probe(100, "node", &ps, &paths), "/Users/tester/app");
    assert_eq!(root_probe(7, "launchd", &ps, &paths), "");
    let out = scan_listening_ports(
        "p100\ncnode\nn*:3000\n",
        &None,
        &vec!["  100 tester 01:00 node a.js\n".to_string(), "  100 tester 02:00 node b.js\n".to_string()],
        &vec!["p100\nftxt\nn/usr/local/bin/node\n".to_string()],
        &vec![],
        &env(),
    );
    assert_eq!(out.len(), 1);
    assert_eq!(out[0].uptime_seconds, 120);
    assert_eq!(out[0].command_line, "node b.js");
    assert_eq!(out[0].executable_path, "/usr/local/bin/node");
}

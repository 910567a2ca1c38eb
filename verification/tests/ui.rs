use port_watch::app_settings::AppSettings;
use port_watch::classifier::SystemKind;
use port_watch::commands::{
    assert_process_action_allowed, open_in_editor_blocking, open_in_finder_blocking,
    open_in_terminal_blocking, open_url, stop_process_blocking,
};
use port_watch::home::{infer_project_root, project_root_candidates};
use port_watch::platform::path_validation::assert_system_actions_allowed;
use port_watch::platform::shell::{
    clipboard_bytes, process_name_from, still_matches, tasklist_name, verify_process_identity,
};
use port_watch::poller::PortPoller;
use port_watch::scanner::{PortBinding, PortProcess};
use port_watch::tray::{
    build_menu, confirm_stop_message, directory_for, header_label, listener_label,
    localhost_url, menu_event, menu_signature, plan_port_action, primary_port, record_signature,
    require_directory, user_listener_count, MenuEvent, PortAction, TrayState,
};

fn process(pid: u32, port: Option<u16>, system: bool) -> PortProcess {
    PortProcess {
        pid,
        name: format!("proc{pid}"),
        user: "u".into(),
        ports: port
            .map(|p| vec![PortBinding { address: "*".into(), port: p, protocol: "TCP".into() }])
            .unwrap_or_default(),
        executable_path: String::new(),
        script_path: None,
        command_line: String::new(),
        working_directory: "/work".into(),
        project_root: String::new(),
        system_kind: if system { SystemKind::System } else { SystemKind::User },
        is_system_service: system,
        uptime_seconds: 0,
    }
}

#[test]
fn settings_read_back() {
    let mut s = AppSettings::new();
    assert!(!s.allow_system_process_actions());
    assert!(!s.use_https_for_localhost());
    assert_eq!(s.preferred_editor(), "cursor");
    s.set_allow_system_process_actions(true);
    s.set_use_https_for_localhost(true);
    s.set_preferred_editor("code".into());
    assert!(s.allow_system_process_actions());
    assert!(s.use_https_for_localhost());
    assert_eq!(s.preferred_editor(), "code");
    assert_eq!(AppSettings::default().preferred_editor(), "cursor");
}

#[test]
fn system_action_gate() {
    assert_eq!(
        assert_system_actions_allowed(true, false).unwrap_err(),
        "System process actions are disabled. Enable them in Settings to continue."
    );
    assert!(assert_system_actions_allowed(true, true).is_ok());
    assert!(assert_system_actions_allowed(false, false).is_ok());
    let mut poller = PortPoller::new();
    poller.begin_scan();
    poller.finish_scan(Ok(vec![process(5, Some(80), false), process(6, Some(81), true)]), 1);
    let settings = AppSettings::new();
    assert!(assert_process_action_allowed(&poller, &settings, 5).is_ok());
    assert!(assert_process_action_allowed(&poller, &settings, 6).is_err());
    assert!(assert_process_action_allowed(&poller, &settings, 99).is_err());
    assert_eq!(stop_process_blocking(&poller, &settings, 0).unwrap_err(), "Invalid PID");
    assert!(stop_process_blocking(&poller, &settings, 5).is_ok());
}

#[test]
fn command_checks() {
    assert_eq!(open_url("  https://localhost:3000 ").unwrap(), "https://localhost:3000");
    assert_eq!(open_url(" ").unwrap_err(), "URL is empty");
    assert_eq!(open_url("file:///etc").unwrap_err(), "URL must start with http:// or https://");
    assert_eq!(open_in_finder_blocking(" /a ", true).unwrap(), "/a");
    assert_eq!(open_in_finder_blocking("", true).unwrap_err(), "Path is empty");
    assert_eq!(open_in_finder_blocking("/a", false).unwrap_err(), "Path does not exist: /a");
    assert_eq!(open_in_terminal_blocking(" ", true).unwrap_err(), "Working directory is empty");
    assert_eq!(open_in_terminal_blocking("/d", false).unwrap_err(), "Directory does not exist: /d");
    assert_eq!(open_in_editor_blocking("/d", true, "code").unwrap(), ("/d".to_string(), "code".to_string()));
    assert_eq!(open_in_editor_blocking("/d", true, "vim").unwrap(), ("/d".to_string(), "cursor".to_string()));
}

#[test]
fn tray_labels_and_links() {
    assert_eq!(localhost_url(3000, false), "http://localhost:3000");
    assert_eq!(localhost_url(8443, true), "https://localhost:8443");
    assert_eq!(listener_label(1), "1 listener");
    assert_eq!(listener_label(0), "0 listeners");
    assert_eq!(listener_label(12), "12 listeners");
    assert_eq!(header_label(2), "Port Watch — 2 listeners");
    let mut p = process(1, Some(80), false);
    assert_eq!(primary_port(&p), Some(80));
    assert_eq!(directory_for(&p), "/work");
    p.project_root = "/proj".into();
    assert_eq!(directory_for(&p), "/proj");
    assert_eq!(primary_port(&process(2, None, false)), None);
}

#[test]
fn tray_menu_lists_user_listeners_by_port() {
    let ps = vec![
        process(1, Some(8080), false),
        process(2, None, false),
        process(3, Some(22), true),
        process(4, Some(3000), false),
    ];
    assert_eq!(user_listener_count(&ps), 3);
    let menu = build_menu(&ps, false, true);
    assert_eq!(menu.header, "Port Watch — 3 listeners");
    assert_eq!(menu.ports.len(), 3);
    assert_eq!(menu.ports[0].title, "3000  ·  proc4");
    assert_eq!(menu.ports[0].open_id, "pw-open:4:3000");
    assert_eq!(menu.ports[0].open_label, "Open localhost:3000");
    assert_eq!(menu.ports[1].title, "8080  ·  proc1");
    assert_eq!(menu.ports[2].title, "proc2");
    assert_eq!(menu.ports[2].open_id, "pw-open:2:0");
    assert_eq!(menu.ports[2].open_label, "Open in browser");
    assert!(!menu.ports[2].has_port && menu.ports[2].has_dir && menu.ports[2].can_stop);
    assert_eq!(menu.ports[2].stop_id, "pw-stop:2");
    assert!(menu.menu_bar_enabled);
}

#[test]
fn tray_signature_changes_with_the_menu() {
    let mut a = process(1, Some(8080), false);
    a.ports.push(PortBinding { address: "127.0.0.1".into(), port: 80, protocol: "TCP".into() });
    let ps = vec![a, process(9, Some(22), true)];
    let sig = menu_signature(&ps, false, false);
    assert_eq!(sig, "1|proc1|*:8080/TCP,127.0.0.1:80/TCP|/work|allow=false|mbm=false");
    let reordered = vec![ps[1].clone(), ps[0].clone()];
    assert_eq!(menu_signature(&reordered, false, false), sig);
    let mut state = TrayState::default();
    assert!(record_signature(&mut state, sig.clone(), 1));
    assert!(!record_signature(&mut state, sig.clone(), 1));
    assert!(record_signature(&mut state, menu_signature(&ps, true, false), 1));
    assert_eq!(state.user_listener_count, 1);
}

#[test]
fn tray_events_and_actions() {
    assert!(matches!(menu_event("tray-quit"), MenuEvent::Quit));
    assert!(matches!(menu_event("tray-refresh"), MenuEvent::Refresh));
    match menu_event("pw-open:42:3000") {
        MenuEvent::Port { action, pid, port } => {
            assert_eq!((action.as_str(), pid, port), ("pw-open", 42, Some(3000)));
        }
        _ => panic!("expected a port action"),
    }
    match menu_event("pw-stop:42") {
        MenuEvent::Port { port, .. } => assert_eq!(port, None),
        _ => panic!("expected a port action"),
    }
    assert!(matches!(menu_event("pw-stop:x"), MenuEvent::Ignored));
    assert!(matches!(menu_event("other:1"), MenuEvent::Ignored));
    let p = Some(process(42, Some(3000), false));
    match plan_port_action("pw-open", 42, Some(3000), &p, true, "code").unwrap() {
        PortAction::OpenUrl(u) => assert_eq!(u, "https://localhost:3000"),
        _ => panic!("expected a URL"),
    }
    assert_eq!(plan_port_action("pw-copy", 42, None, &p, false, "code").unwrap_err(), "No port available");
    match plan_port_action("pw-editor", 42, None, &p, false, "code").unwrap() {
        PortAction::OpenEditor { dir, editor } => assert_eq!((dir.as_str(), editor.as_str()), ("/work", "code")),
        _ => panic!("expected the editor"),
    }
    assert_eq!(
        plan_port_action("pw-finder", 42, None, &None, false, "code").unwrap_err(),
        "No folder available for this process"
    );
    assert!(matches!(plan_port_action("pw-zzz", 1, None, &None, false, ""), Ok(PortAction::Nothing)));
    assert_eq!(require_directory(&p).unwrap(), "/work");
    assert_eq!(confirm_stop_message(&None), "Stop this process? This terminates the process and frees its ports.");
    let sys = Some(process(7, None, true));
    assert_eq!(
        confirm_stop_message(&sys),
        "proc7 is a system service. Stopping it may affect your system.\n\nStop it anyway?"
    );
}

#[test]
fn project_roots() {
    assert_eq!(
        project_root_candidates("/srv/app/src/main.js", true, false),
        vec!["/srv/app/src".to_string(), "/srv/app".to_string(), "/srv".to_string(), "/".to_string()]
    );
    assert_eq!(project_root_candidates("  ", false, false), Vec::<String>::new());
    assert_eq!(infer_project_root("/srv/app/src/", false, false, &vec![false, true]), "/srv/app");
    assert_eq!(infer_project_root("/srv/app/src/", false, false, &vec![]), "/srv/app/src");
    assert_eq!(infer_project_root(" ", false, false, &vec![true]), "");
    assert_eq!(
        project_root_candidates("C:\\a\\b", false, true),
        vec!["C:\\a\\b".to_string(), "C:\\a".to_string(), "C:\\".to_string()]
    );
}

#[test]
fn stopping_checks_the_process_identity() {
    assert_eq!(process_name_from(" node \n"), Some("node".to_string()));
    assert_eq!(process_name_from(" \n"), None);
    assert_eq!(tasklist_name("INFO: none\n\"node.exe\",\"42\",\"Console\"\n"), Some("node.exe".to_string()));
    assert_eq!(tasklist_name("INFO: No tasks are running\n"), None);
    assert!(verify_process_identity(42, &None, &Some("x".into())).is_ok());
    assert!(verify_process_identity(42, &Some("node".into()), &None).is_ok());
    assert!(verify_process_identity(42, &Some("node".into()), &Some("node.exe".into())).is_ok());
    assert_eq!(
        verify_process_identity(42, &Some("node".into()), &Some("nginx".into())).unwrap_err(),
        "PID 42 now belongs to \"nginx\", not \"node\" — the process list was stale. Refresh and try again."
    );
    assert!(still_matches(&Some("x".into()), &None));
    assert!(!still_matches(&None, &Some("x".into())));
    assert!(!still_matches(&Some("nginx".into()), &Some("node".into())));
}

#[test]
fn clipboard_is_utf16le_with_bom() {
    assert_eq!(clipboard_bytes("A"), vec![0xFF, 0xFE, 0x41, 0x00]);
    assert_eq!(clipboard_bytes("é"), vec![0xFF, 0xFE, 0xE9, 0x00]);
    assert_eq!(clipboard_bytes("😀"), vec![0xFF, 0xFE, 0x3D, 0xD8, 0x00, 0xDE]);
    let s = "C:\\ünï 😀";
    let mut expected = vec![0xFF, 0xFE];
    for unit in s.encode_utf16() {
        expected.extend_from_slice(&unit.to_le_bytes());
    }
    assert_eq!(clipboard_bytes(s), expected);
}

#[test]
fn tray_signature_ignores_socket_order_and_services() {
    let mut a = process(1, Some(8080), false);
    a.ports.push(PortBinding { address: "127.0.0.1".into(), port: 80, protocol: "TCP".into() });
    let b = process(2, Some(3000), false);
    let sig = menu_signature(&vec![a.clone(), b.clone()], false, true);
    let mut a2 = a.clone();
    a2.ports.reverse();
    let rearranged = vec![process(9, Some(22), true), b, process(8, None, true), a2];
    assert_eq!(menu_signature(&rearranged, false, true), sig);
}

use port_watch::poller::{poll_wait, PollStep, PollerInner, PortPoller};
use port_watch::scanner::{PortBinding, PortProcess};
use port_watch::classifier::SystemKind;

fn process(pid: u32, system: bool) -> PortProcess {
    PortProcess {
        pid,
        name: "p".into(),
        user: "u".into(),
        ports: vec![PortBinding { address: "*".into(), port: 3000, protocol: "TCP".into() }],
        executable_path: String::new(),
        script_path: None,
        command_line: String::new(),
        working_directory: String::new(),
        project_root: String::new(),
        system_kind: if system { SystemKind::System } else { SystemKind::User },
        is_system_service: system,
        uptime_seconds: 0,
    }
}

#[test]
fn scan_complete_when_last_scan_at_set() {
    let inner = PollerInner { last_scan_at: Some(1_000), ..PollerInner::default() };
    assert!(inner.last_scan_at.is_some());
}

#[test]
fn scan_incomplete_before_first_scan() {
    let inner = PollerInner::default();
    assert!(inner.last_scan_at.is_none());
}

// --- further cases ---

#[test]
fn one_scan_at_a_time() {
    let mut p = PortPoller::new();
    assert_eq!(p.begin_scan(), Some(false));
    assert_eq!(p.begin_scan(), None);
    let payload = p.finish_scan(Ok(vec![process(7, false)]), 10);
    assert_eq!(payload.processes.len(), 1);
    assert!(payload.error.is_none());
    assert_eq!(p.begin_scan(), Some(false));
}

#[test]
fn failed_scan_keeps_last_result() {
    let mut p = PortPoller::new();
    p.begin_scan();
    p.finish_scan(Ok(vec![process(7, true)]), 10);
    p.begin_scan();
    let payload = p.finish_scan(Err("lsof failed".into()), 20);
    assert_eq!(payload.processes.len(), 1);
    assert_eq!(payload.error, Some("lsof failed".to_string()));
    assert_eq!(p.snapshot().len(), 1);
    assert_eq!(p.is_system_service(7), Some(true));
    assert_eq!(p.is_system_service(8), None);
    assert_eq!(p.find_by_pid(7).map(|x| x.pid), Some(7));
}

#[test]
fn cache_and_waiting() {
    let mut p = PortPoller::new();
    let c = p.read_cache();
    assert!(!c.scan_complete && !c.in_flight && !c.payload.scanning);
    let w = p.wait_step(false, 0);
    assert!(w.trigger_scan && w.reply.is_none());
    p.begin_scan();
    assert!(p.read_cache().payload.scanning);
    let w = p.wait_step(true, 30_000);
    assert!(!w.trigger_scan);
    assert_eq!(w.reply.unwrap().error, Some("Scan timed out before completing".to_string()));
    p.finish_scan(Ok(vec![]), 5);
    let w = p.wait_step(false, 0);
    assert!(!w.trigger_scan);
    let reply = w.reply.unwrap();
    assert!(!reply.scanning && reply.error.is_none());
}

#[test]
fn settings_restart_the_loop() {
    let mut p = PortPoller::new();
    assert_eq!(p.generation(), 0);
    assert_eq!(p.set_scan_settings(3000, false), None);
    assert_eq!(p.set_scan_settings(10_000, false), Some(1));
    assert_eq!(p.set_scan_settings(10_000, false), None);
    assert_eq!(p.poll_step(0), PollStep::Stop);
    assert_eq!(p.poll_step(1), PollStep::Scan);
    p.set_refresh_paused(true);
    assert_eq!(p.poll_step(1), PollStep::Idle);
    p.set_refresh_paused(false);
    assert_eq!(p.set_scan_settings(0, true), Some(2));
    assert_eq!(p.poll_step(2), PollStep::Idle);
    assert!(p.is_current(2) && !p.is_current(1));
    assert_eq!(p.interval_ms(), 0);
}

#[test]
fn waits_between_scans() {
    assert_eq!(poll_wait(3000, 500), 2500);
    assert_eq!(poll_wait(3000, 2950), 100);
    assert_eq!(poll_wait(3000, 9000), 100);
    assert_eq!(poll_wait(0, 0), 100);
}

use port_watch::platform::linux::shell::{terminal_step, TerminalOutcome, TerminalPlan};
use port_watch::platform::shell::{
    stop_step, taskkill_step, StopAction, StopStep, TaskkillStep, STOP_GRACE_MS,
};

fn some(s: &str) -> Option<String> {
    Some(s.to_string())
}

#[test]
fn graceful_stop_escalates_only_while_the_name_matches() {
    let expected = some("node");
    let (s, a) = stop_step(42, StopStep::Start, false, &expected, &some("node")).unwrap();
    assert_eq!((s, a), (StopStep::AfterTerm, StopAction::SendTerm));
    let (s, a) = stop_step(42, s, false, &expected, &some("node")).unwrap();
    assert_eq!((s, a), (StopStep::AfterGrace, StopAction::Wait(2000)));
    assert_eq!(STOP_GRACE_MS, 2000);
    assert_eq!(
        stop_step(42, s, false, &expected, &some("node")).unwrap(),
        (StopStep::Finished, StopAction::SendKill)
    );
    // Reused by another process, or gone: no KILL.
    assert_eq!(
        stop_step(42, s, false, &expected, &some("bash")).unwrap(),
        (StopStep::Finished, StopAction::Done)
    );
    assert_eq!(stop_step(42, s, false, &expected, &None).unwrap(), (StopStep::Finished, StopAction::Done));
    // No name expected: still running means KILL.
    assert_eq!(stop_step(42, s, false, &None, &some("x")).unwrap(), (StopStep::Finished, StopAction::SendKill));
    assert_eq!(
        stop_step(42, StopStep::Finished, false, &expected, &None).unwrap(),
        (StopStep::Finished, StopAction::Done)
    );
}

#[test]
fn forced_stop_kills_at_once() {
    assert_eq!(
        stop_step(7, StopStep::Start, true, &some("node"), &some("node")).unwrap(),
        (StopStep::Finished, StopAction::SendKill)
    );
}

#[test]
fn stale_pid_is_refused_before_any_signal() {
    let err = stop_step(7, StopStep::Start, true, &some("node"), &some("python")).unwrap_err();
    assert_eq!(
        err,
        "PID 7 now belongs to \"python\", not \"node\" — the process list was stale. Refresh and try again."
    );
}

#[test]
fn taskkill_falls_back_to_force_after_rechecking() {
    let expected = some("node");
    let (s, a) = taskkill_step(9, TaskkillStep::Start, false, &expected, &some("node.exe"), true).unwrap();
    assert_eq!((s, a), (TaskkillStep::AfterGraceful, StopAction::SendTerm));
    assert_eq!(
        taskkill_step(9, s, false, &expected, &None, true).unwrap(),
        (TaskkillStep::Finished, StopAction::Done)
    );
    let (s2, a2) = taskkill_step(9, s, false, &expected, &some("node"), false).unwrap();
    assert_eq!((s2, a2), (TaskkillStep::AfterForced, StopAction::SendKill));
    assert!(taskkill_step(9, s, false, &expected, &some("cmd"), false).is_err());
    assert_eq!(
        taskkill_step(9, s2, false, &expected, &None, false).unwrap_err(),
        "taskkill failed for PID 9"
    );
    assert_eq!(
        taskkill_step(9, TaskkillStep::Start, true, &expected, &None, true).unwrap(),
        (TaskkillStep::AfterForced, StopAction::SendKill)
    );
}

fn launch(plan: TerminalPlan) -> (u32, String, Vec<String>, bool, bool) {
    match plan {
        TerminalPlan::Launch { attempt, command } => {
            (attempt, command.program, command.args, command.in_dir, command.probe)
        }
        TerminalPlan::Opened => panic!("opened"),
        TerminalPlan::Failed(m) => panic!("{m}"),
    }
}

#[test]
fn terminals_are_tried_in_order() {
    let t = some("alacritty");
    let cwd = "/home/t/app";
    let first = launch(terminal_step(0, None, &t, cwd));
    assert_eq!(first, (0, "alacritty".into(), vec!["--working-directory".into(), cwd.into()], false, true));
    let bare = launch(terminal_step(0, Some(TerminalOutcome::ExitedWithError), &t, cwd));
    assert_eq!(bare, (1, "alacritty".into(), vec![], true, false));
    let next = launch(terminal_step(0, Some(TerminalOutcome::SpawnFailed), &t, cwd));
    assert_eq!(next, (2, "xdg-terminal-exec".into(), vec!["--dir".into(), cwd.into()], false, false));
    assert_eq!(launch(terminal_step(2, Some(TerminalOutcome::SpawnFailed), &t, cwd)).1, "gnome-terminal");
    assert_eq!(launch(terminal_step(3, Some(TerminalOutcome::SpawnFailed), &t, cwd)).2, vec!["--workdir", cwd]);
    let xterm = launch(terminal_step(4, Some(TerminalOutcome::SpawnFailed), &t, cwd));
    assert_eq!(xterm, (5, "xterm".into(), vec!["-e".into(), "bash".into(), "--noprofile".into(), "--norc".into()], true, false));
    match terminal_step(5, Some(TerminalOutcome::SpawnFailed), &t, cwd) {
        TerminalPlan::Failed(m) => assert_eq!(m, "Could not open a terminal at: /home/t/app"),
        _ => panic!("expected a failure"),
    }
    assert!(matches!(terminal_step(3, Some(TerminalOutcome::Started), &t, cwd), TerminalPlan::Opened));
}

#[test]
fn unset_terminal_goes_to_the_list() {
    assert_eq!(launch(terminal_step(0, None, &None, "/x")).0, 2);
    assert_eq!(launch(terminal_step(0, None, &some(""), "/x")).0, 2);
}

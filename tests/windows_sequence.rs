use daemon_forge::windows::{mutex_name, WinCall, WindowsDaemonizer};
use daemon_forge::{Action, Answer, DaemonError, ForgeDaemon, IoError, Stdio};

fn ordinary(c: &WinCall) -> Answer {
    match c {
        WinCall::CreateMutex { .. } => Answer::Mutex { handle: 77, existed: false },
        WinCall::GetPid => Answer::Number(600),
        _ => Answer::Done,
    }
}

fn drive(
    config: ForgeDaemon,
    relaunched: bool,
    respond: &dyn Fn(&WinCall) -> Answer,
) -> (Vec<WinCall>, Action<WinCall>) {
    let (mut d, mut action) = WindowsDaemonizer::begin(config, relaunched);
    let mut calls = Vec::new();
    loop {
        match action {
            Action::Call(c) => {
                let answer = respond(&c);
                calls.push(c);
                assert!(d.is_running());
                action = d.step(answer);
            }
            other => return (calls, other),
        }
    }
}

#[test]
fn launcher_relaunches_with_marker_and_exits() {
    let config = ForgeDaemon::new().clear_env(true).env("K", "V").stdout(Stdio::RedirectToFile(5));
    let (calls, end) = drive(config, false, &ordinary);
    assert!(matches!(end, Action::ExitParent));
    assert_eq!(calls.len(), 1);
    match &calls[0] {
        WinCall::Relaunch { clear_env, env, stdin, stdout, stderr } => {
            assert!(*clear_env);
            assert_eq!(
                env,
                &vec![
                    ("K".to_string(), "V".to_string()),
                    ("__DAEMONIZED_INTERNAL_FLAG".to_string(), "1".to_string()),
                ]
            );
            assert_eq!(*stdin, Stdio::Devnull);
            assert_eq!(*stdout, Stdio::RedirectToFile(5));
            assert_eq!(*stderr, Stdio::Devnull);
        }
        other => panic!("unexpected call {:?}", other),
    }
}

#[test]
fn launcher_spawn_failure_is_io() {
    let respond = |_: &WinCall| Answer::Failed(2);
    let (_, end) = drive(ForgeDaemon::new(), false, &respond);
    assert!(matches!(end, Action::Abort(DaemonError::Io(IoError::Os(2)))));
}

#[test]
fn child_without_name_or_pid_file_takes_no_lock() {
    let (calls, end) = drive(ForgeDaemon::new().working_directory("C:\\svc"), true, &ordinary);
    assert!(matches!(end, Action::Finish));
    assert!(!calls.iter().any(|c| matches!(c, WinCall::CreateMutex { .. })));
    match &calls[0] {
        WinCall::ChangeDir { path } => assert_eq!(path, "C:\\svc"),
        other => panic!("unexpected call {:?}", other),
    }
    // a second, concurrent instance is not stopped either
    let (_, again) = drive(ForgeDaemon::new(), true, &ordinary);
    assert!(matches!(again, Action::Finish));
}

#[test]
fn child_with_name_fails_when_mutex_exists() {
    let respond = |c: &WinCall| match c {
        WinCall::CreateMutex { .. } => Answer::Mutex { handle: 9, existed: true },
        other => ordinary(other),
    };
    let config = ForgeDaemon::new().name("Svc").stderr(Stdio::RedirectToFile(3));
    let (calls, end) = drive(config, true, &respond);
    assert!(matches!(end, Action::Abort(DaemonError::TargetLocked)));
    assert!(matches!(calls[1], WinCall::CloseHandle { handle: 9 }));
    assert!(matches!(
        calls[2],
        WinCall::Report { fd: 3, error: DaemonError::TargetLocked }
    ));
    assert_eq!(calls.len(), 3);
}

#[test]
fn child_with_pid_file_only_also_locks() {
    let respond = |c: &WinCall| match c {
        WinCall::CreateMutex { .. } => Answer::Mutex { handle: 9, existed: true },
        other => ordinary(other),
    };
    let (calls, end) = drive(ForgeDaemon::new().pid_file("C:\\a"), true, &respond);
    assert!(matches!(end, Action::Abort(DaemonError::TargetLocked)));
    match &calls[0] {
        WinCall::CreateMutex { name } => assert_eq!(name, "Global\\DaemonForge_433A5C61"),
        other => panic!("unexpected call {:?}", other),
    }
}

#[test]
fn child_full_run_writes_pid_file() {
    let config = ForgeDaemon::new().name("Svc").pid_file("C:\\svc.pid");
    let (calls, end) = drive(config, true, &ordinary);
    assert!(matches!(end, Action::Finish));
    match &calls[0] {
        WinCall::CreateMutex { name } => assert_eq!(name, "Global\\DaemonForge_Svc"),
        other => panic!("unexpected call {:?}", other),
    }
    assert!(matches!(calls[1], WinCall::ChangeDir { .. }));
    assert!(matches!(calls[2], WinCall::GetPid));
    match &calls[3] {
        WinCall::WritePidFile { path, text } => {
            assert_eq!(path, "C:\\svc.pid");
            assert_eq!(text, "600");
        }
        other => panic!("unexpected call {:?}", other),
    }
    assert!(matches!(calls[4], WinCall::RunPayload));
    assert_eq!(calls.len(), 5);
}

#[test]
fn mutex_failure_is_win32_error_reported_to_stdout_file() {
    let respond = |c: &WinCall| match c {
        WinCall::CreateMutex { .. } => Answer::Failed(5),
        other => ordinary(other),
    };
    let config = ForgeDaemon::new().name("Svc").stdout(Stdio::RedirectToFile(4));
    let (calls, end) = drive(config, true, &respond);
    assert!(matches!(end, Action::Abort(DaemonError::Win32Error(5))));
    assert!(matches!(calls[1], WinCall::Report { fd: 4, error: DaemonError::Win32Error(5) }));
}

#[test]
fn child_failure_without_report_file_aborts_at_once() {
    let respond = |c: &WinCall| match c {
        WinCall::ChangeDir { .. } => Answer::Failed(3),
        other => ordinary(other),
    };
    let (calls, end) = drive(ForgeDaemon::new(), true, &respond);
    assert_eq!(calls.len(), 1);
    assert!(matches!(end, Action::Abort(DaemonError::Io(IoError::Os(3)))));
}

#[test]
fn payload_failure_is_not_reported() {
    let respond = |c: &WinCall| match c {
        WinCall::RunPayload => Answer::PayloadFailed(DaemonError::TargetLocked),
        other => ordinary(other),
    };
    let config = ForgeDaemon::new().stderr(Stdio::RedirectToFile(3));
    let (calls, end) = drive(config, true, &respond);
    assert!(matches!(end, Action::Abort(DaemonError::TargetLocked)));
    assert!(!calls.iter().any(|c| matches!(c, WinCall::Report { .. })));
}

#[test]
fn mutex_names() {
    assert_eq!(
        mutex_name(&ForgeDaemon::new().name("MyUniqueService")),
        Some("Global\\DaemonForge_MyUniqueService".to_string())
    );
    assert_eq!(
        mutex_name(&ForgeDaemon::new().pid_file("/\u{e9}")),
        Some("Global\\DaemonForge_2FC3A9".to_string())
    );
    assert_eq!(mutex_name(&ForgeDaemon::new()), None);
}

#[test]
fn bad_env_value_fails_before_relaunch() {
    let (calls, end) = drive(ForgeDaemon::new().env("K", "a\0b"), false, &ordinary);
    assert!(calls.is_empty());
    assert!(matches!(end, Action::Abort(DaemonError::EnvError(_))));
}

use daemon_forge::posix::{Call, PosixDaemonizer};
use daemon_forge::{Action, Answer, DaemonError, ForgeDaemon, Group, IoError, PrivilegeFailure, Stdio, User};

fn ordinary(c: &Call) -> Answer {
    match c {
        Call::Fork => Answer::Child,
        Call::OpenNull => Answer::Opened(10),
        Call::OpenPidFile { .. } => Answer::Opened(20),
        Call::GetPid => Answer::Number(4321),
        Call::FindUser { .. } => Answer::Number(1000),
        Call::FindGroup { .. } => Answer::Number(100),
        _ => Answer::Done,
    }
}

fn drive(
    config: ForgeDaemon,
    supervised: bool,
    respond: &dyn Fn(&Call) -> Answer,
) -> (Vec<Call>, Action<Call>) {
    let (mut d, mut action) = PosixDaemonizer::begin(config, supervised, "/tmp");
    let mut calls = Vec::new();
    loop {
        match action {
            Action::Call(c) => {
                let answer = respond(&c);
                calls.push(c);
                assert!(d.is_running());
                action = d.step(answer);
            }
            other => return (calls, other),
        }
    }
}

fn full_config() -> ForgeDaemon {
    ForgeDaemon::new()
        .pid_file("/run/svc.pid")
        .working_directory("/srv")
        .stdout(Stdio::RedirectToFile(7))
        .stderr(Stdio::Keep)
        .clear_env(true)
        .env("A", "1")
        .env("B", "2")
        .chroot("/jail")
        .user(User::from("svc"))
        .group(Group::from("svcgrp"))
}

fn describe(c: &Call) -> String {
    match c {
        Call::Fork => "fork".to_string(),
        Call::NewSession => "setsid".to_string(),
        Call::OpenNull => "open-null".to_string(),
        Call::Duplicate { from, onto } => format!("dup {} {}", from, onto),
        Call::Close { fd } => format!("close {}", fd),
        Call::NotifyReady => "notify".to_string(),
        Call::ClearEnv => "clearenv".to_string(),
        Call::SetEnv { key, value } => format!("setenv {}={}", key, value),
        Call::SetUmask { mask } => format!("umask {:o}", mask),
        Call::ChangeDir { path } => format!("chdir {}", path),
        Call::ChangeRoot { path } => format!("chroot {}", path),
        Call::OpenPidFile { path } => format!("open-pid {}", path),
        Call::Lock { fd } => format!("lock {}", fd),
        Call::GetPid => "getpid".to_string(),
        Call::WritePid { fd, text } => format!("write {} {}", fd, text),
        Call::FindUser { name } => format!("find-user {}", name),
        Call::FindGroup { name } => format!("find-group {}", name),
        Call::ChangeOwner { path, uid, gid } => format!("chown {} {} {}", path, uid, gid),
        Call::RunPayload => "payload".to_string(),
        Call::SetGroup { gid } => format!("setgid {}", gid),
        Call::SetUser { uid } => format!("setuid {}", uid),
    }
}

#[test]
fn full_sequence_in_order() {
    let (calls, end) = drive(full_config(), false, &ordinary);
    let got: Vec<String> = calls.iter().map(describe).collect();
    let want = vec![
        "fork", "setsid", "open-null", "dup 10 0", "close 10", "dup 7 1", "fork", "clearenv",
        "setenv A=1", "setenv B=2", "umask 27", "chdir /srv", "chroot /jail", "chdir /",
        "open-pid /run/svc.pid", "lock 20", "getpid", "write 20 4321", "payload",
        "find-group svcgrp", "setgid 100", "find-user svc", "setuid 1000",
    ];
    assert_eq!(got, want);
    assert!(matches!(end, Action::Finish));
}

#[test]
fn busy_lock_fails_without_writing() {
    let respond = |c: &Call| match c {
        Call::Lock { .. } => Answer::Busy,
        other => ordinary(other),
    };
    let (calls, end) = drive(full_config(), false, &respond);
    assert!(matches!(end, Action::Abort(DaemonError::TargetLocked)));
    assert!(!calls.iter().any(|c| matches!(c, Call::WritePid { .. })));
    assert!(!calls.iter().any(|c| matches!(c, Call::RunPayload)));
    assert!(matches!(calls.last(), Some(Call::Lock { fd: 20 })));
}

#[test]
fn free_lock_writes_new_pid() {
    let respond = |c: &Call| match c {
        Call::GetPid => Answer::Number(98765),
        other => ordinary(other),
    };
    let (calls, end) = drive(ForgeDaemon::new().pid_file("/run/a.pid"), false, &respond);
    assert!(matches!(end, Action::Finish));
    let written: Vec<&String> = calls
        .iter()
        .filter_map(|c| match c {
            Call::WritePid { text, .. } => Some(text),
            _ => None,
        })
        .collect();
    assert_eq!(written, vec!["98765"]);
}

#[test]
fn redirected_output_is_bound_once_before_payload() {
    let (calls, _) = drive(full_config(), false, &ordinary);
    let onto_stdout: Vec<usize> = calls
        .iter()
        .enumerate()
        .filter(|(_, c)| matches!(c, Call::Duplicate { onto: 1, .. }))
        .map(|(i, _)| i)
        .collect();
    assert_eq!(onto_stdout.len(), 1);
    assert!(matches!(calls[onto_stdout[0]], Call::Duplicate { from: 7, onto: 1 }));
    let payload = calls.iter().position(|c| matches!(c, Call::RunPayload)).unwrap();
    assert!(onto_stdout[0] < payload);
}

#[test]
fn chroot_is_followed_by_root_directory() {
    let (calls, _) = drive(full_config(), false, &ordinary);
    let at = calls.iter().position(|c| matches!(c, Call::ChangeRoot { .. })).unwrap();
    match &calls[at + 1] {
        Call::ChangeDir { path } => assert_eq!(path, "/"),
        other => panic!("unexpected call {:?}", other),
    }
    let later_dirs = calls[at + 2..].iter().filter(|c| matches!(c, Call::ChangeDir { .. })).count();
    assert_eq!(later_dirs, 0);
}

#[test]
fn group_lookup_failure_skips_user_switch() {
    let respond = |c: &Call| match c {
        Call::FindGroup { .. } => Answer::NotFound,
        other => ordinary(other),
    };
    let (calls, end) = drive(full_config(), false, &respond);
    match end {
        Action::Abort(DaemonError::PrivilegeError(PrivilegeFailure::GroupNotFound(n))) => {
            assert_eq!(n, "svcgrp")
        }
        other => panic!("unexpected end {:?}", other),
    }
    assert!(!calls.iter().any(|c| matches!(c, Call::FindUser { .. } | Call::SetUser { .. })));
}

#[test]
fn parent_of_each_fork_exits() {
    let respond = |c: &Call| match c {
        Call::Fork => Answer::Parent,
        other => ordinary(other),
    };
    let (calls, end) = drive(ForgeDaemon::new(), false, &respond);
    assert_eq!(calls.len(), 1);
    assert!(matches!(end, Action::ExitParent));
}

#[test]
fn detaches_with_double_fork_and_session() {
    let (calls, _) = drive(ForgeDaemon::new(), false, &ordinary);
    assert!(matches!(calls[0], Call::Fork));
    assert!(matches!(calls[1], Call::NewSession));
    let forks = calls.iter().filter(|c| matches!(c, Call::Fork)).count();
    assert_eq!(forks, 2);
    let second = calls.iter().rposition(|c| matches!(c, Call::Fork)).unwrap();
    let payload = calls.iter().position(|c| matches!(c, Call::RunPayload)).unwrap();
    assert!(second < payload);
}

#[test]
fn cleared_env_sets_exactly_the_pairs() {
    let (calls, _) = drive(full_config(), false, &ordinary);
    let env: Vec<String> = calls
        .iter()
        .filter(|c| matches!(c, Call::ClearEnv | Call::SetEnv { .. }))
        .map(describe)
        .collect();
    assert_eq!(env, vec!["clearenv", "setenv A=1", "setenv B=2"]);
}

#[test]
fn supervised_run_skips_forks() {
    let (calls, end) = drive(ForgeDaemon::new().stdin(Stdio::Keep), true, &ordinary);
    assert!(matches!(end, Action::Finish));
    assert!(!calls.iter().any(|c| matches!(c, Call::Fork | Call::NewSession)));
    let notify = calls.iter().position(|c| matches!(c, Call::NotifyReady)).unwrap();
    let last_dup = calls.iter().rposition(|c| matches!(c, Call::Duplicate { .. })).unwrap();
    assert!(last_dup < notify);
}

#[test]
fn named_daemon_locks_under_temp_dir() {
    let (calls, _) = drive(ForgeDaemon::new().name("svc"), false, &ordinary);
    let paths: Vec<&String> = calls
        .iter()
        .filter_map(|c| match c {
            Call::OpenPidFile { path } => Some(path),
            _ => None,
        })
        .collect();
    assert_eq!(paths, vec!["/tmp/daemon-svc.pid"]);
}

#[test]
fn no_lock_without_name_or_pid_file() {
    let (calls, end) = drive(ForgeDaemon::new(), false, &ordinary);
    assert!(matches!(end, Action::Finish));
    assert!(!calls.iter().any(|c| matches!(c, Call::OpenPidFile { .. } | Call::Lock { .. })));
}

#[test]
fn chown_uses_resolved_ids() {
    let config = ForgeDaemon::new()
        .pid_file("/run/o.pid")
        .user(User::from("svc"))
        .chown_pid_file(true);
    let (calls, _) = drive(config, false, &ordinary);
    let chown: Vec<String> = calls
        .iter()
        .filter(|c| matches!(c, Call::ChangeOwner { .. }))
        .map(describe)
        .collect();
    assert_eq!(chown, vec![format!("chown /run/o.pid 1000 {}", u32::MAX)]);
}

#[test]
fn fork_failure_names_the_call() {
    let respond = |c: &Call| match c {
        Call::Fork => Answer::Failed(11),
        other => ordinary(other),
    };
    let (_, end) = drive(ForgeDaemon::new(), false, &respond);
    assert_eq!(
        match end {
            Action::Abort(e) => e,
            other => panic!("unexpected end {:?}", other),
        },
        DaemonError::SyscallError { call: "fork", errno: 11 }
    );
}

#[test]
fn setsid_failure_names_the_call() {
    let respond = |c: &Call| match c {
        Call::NewSession => Answer::Failed(1),
        other => ordinary(other),
    };
    let (_, end) = drive(ForgeDaemon::new(), false, &respond);
    assert!(matches!(
        end,
        Action::Abort(DaemonError::SyscallError { call: "setsid", errno: 1 })
    ));
}

#[test]
fn null_device_failure_is_io() {
    let respond = |c: &Call| match c {
        Call::OpenNull => Answer::Failed(2),
        other => ordinary(other),
    };
    let (_, end) = drive(ForgeDaemon::new(), false, &respond);
    assert!(matches!(end, Action::Abort(DaemonError::Io(IoError::Os(2)))));
}

#[test]
fn chdir_failure_is_io() {
    let respond = |c: &Call| match c {
        Call::ChangeDir { .. } => Answer::Failed(20),
        other => ordinary(other),
    };
    let (_, end) = drive(ForgeDaemon::new(), false, &respond);
    assert!(matches!(end, Action::Abort(DaemonError::Io(IoError::Os(20)))));
}

#[test]
fn chroot_failure_is_privilege_error() {
    let respond = |c: &Call| match c {
        Call::ChangeRoot { .. } => Answer::Failed(1),
        other => ordinary(other),
    };
    let (_, end) = drive(full_config(), false, &respond);
    assert!(matches!(
        end,
        Action::Abort(DaemonError::PrivilegeError(PrivilegeFailure::ChangeRoot(1)))
    ));
}

#[test]
fn switch_failures_are_privilege_errors() {
    let respond = |c: &Call| match c {
        Call::SetUser { .. } => Answer::Failed(1),
        other => ordinary(other),
    };
    let (_, end) = drive(full_config(), false, &respond);
    assert!(matches!(
        end,
        Action::Abort(DaemonError::PrivilegeError(PrivilegeFailure::SetUser(1)))
    ));
    let respond = |c: &Call| match c {
        Call::SetGroup { .. } => Answer::Failed(1),
        other => ordinary(other),
    };
    let (calls, end) = drive(full_config(), false, &respond);
    assert!(matches!(
        end,
        Action::Abort(DaemonError::PrivilegeError(PrivilegeFailure::SetGroup(1)))
    ));
    assert!(!calls.iter().any(|c| matches!(c, Call::SetUser { .. })));
}

#[test]
fn unknown_user_is_privilege_error() {
    let respond = |c: &Call| match c {
        Call::FindUser { .. } => Answer::NotFound,
        other => ordinary(other),
    };
    let (_, end) = drive(full_config(), false, &respond);
    match end {
        Action::Abort(DaemonError::PrivilegeError(PrivilegeFailure::UserNotFound(n))) => {
            assert_eq!(n, "svc")
        }
        other => panic!("unexpected end {:?}", other),
    }
}

#[test]
fn chown_failure_is_privilege_error() {
    let config = ForgeDaemon::new().pid_file("/run/o.pid").chown_pid_file(true);
    let respond = |c: &Call| match c {
        Call::ChangeOwner { .. } => Answer::Failed(1),
        other => ordinary(other),
    };
    let (_, end) = drive(config, false, &respond);
    assert!(matches!(
        end,
        Action::Abort(DaemonError::PrivilegeError(PrivilegeFailure::ChangeOwner(1)))
    ));
}

#[test]
fn payload_failure_propagates_and_skips_drop() {
    let respond = |c: &Call| match c {
        Call::RunPayload => Answer::PayloadFailed(DaemonError::EnvError("X".to_string())),
        other => ordinary(other),
    };
    let (calls, end) = drive(full_config(), false, &respond);
    match end {
        Action::Abort(e) => assert_eq!(e, DaemonError::EnvError("X".to_string())),
        other => panic!("unexpected end {:?}", other),
    }
    assert!(!calls.iter().any(|c| matches!(c, Call::FindGroup { .. } | Call::SetGroup { .. })));
}

#[test]
fn bad_env_name_fails_before_forking() {
    let (calls, end) = drive(ForgeDaemon::new().env("A=B", "1"), false, &ordinary);
    assert!(calls.is_empty());
    match end {
        Action::Abort(DaemonError::EnvError(k)) => assert_eq!(k, "A=B"),
        other => panic!("unexpected end {:?}", other),
    }
}

#[test]
fn nul_in_directory_is_invalid_path() {
    let (calls, end) = drive(ForgeDaemon::new().working_directory("/a\0b"), false, &ordinary);
    assert!(calls.is_empty());
    assert!(matches!(end, Action::Abort(DaemonError::Io(IoError::InvalidPath(_)))));
}

#[test]
fn null_device_opened_on_its_target_is_kept() {
    // standard input was closed on entry, so the null device opens as 0
    let respond = |c: &Call| match c {
        Call::OpenNull => Answer::Opened(0),
        other => ordinary(other),
    };
    let config = ForgeDaemon::new().stdout(Stdio::Keep).stderr(Stdio::Keep);
    let (calls, end) = drive(config, false, &respond);
    assert!(matches!(end, Action::Finish));
    let got: Vec<String> = calls.iter().take(4).map(describe).collect();
    assert_eq!(got, vec!["fork", "setsid", "open-null", "fork"]);
    assert!(!calls.iter().any(|c| matches!(c, Call::Duplicate { .. } | Call::Close { .. })));
}

#[test]
fn null_device_opened_elsewhere_is_moved_and_closed() {
    let respond = |c: &Call| match c {
        Call::OpenNull => Answer::Opened(2),
        other => ordinary(other),
    };
    let config = ForgeDaemon::new().stdout(Stdio::Keep).stderr(Stdio::Keep);
    let (calls, _) = drive(config, false, &respond);
    let got: Vec<String> = calls.iter().take(5).map(describe).collect();
    assert_eq!(got, vec!["fork", "setsid", "open-null", "dup 2 0", "close 2"]);
}

use daemon_forge::posix::lock_path;
use daemon_forge::text::decimal_string;
use daemon_forge::{DaemonError, ForgeDaemon, Group, IoError, Stdio, User};

fn pairs(d: &ForgeDaemon) -> Vec<(String, String)> {
    d.environment().clone()
}

fn p(k: &str, v: &str) -> (String, String) {
    (k.to_string(), v.to_string())
}

#[test]
fn defaults() {
    let d = ForgeDaemon::new();
    assert_eq!(d.get_name(), None);
    assert_eq!(d.pid_file_path(), None);
    assert_eq!(d.working_directory_path(), "/");
    assert_eq!(d.streams(), (Stdio::Devnull, Stdio::Devnull, Stdio::Devnull));
    assert!(!d.clears_env());
    assert!(pairs(&d).is_empty());
    assert_eq!(d.file_mask(), Some(0o027));
    assert_eq!(d.user_name(), None);
    assert_eq!(d.group_name(), None);
    assert_eq!(d.chroot_path(), None);
    assert!(!d.chowns_pid_file());
    assert_eq!(Stdio::devnull(), Stdio::Devnull);
}

#[test]
fn setters_record_values() {
    let d = ForgeDaemon::new()
        .name("svc")
        .pid_file("/run/svc.pid")
        .working_directory("/srv")
        .stdin(Stdio::Keep)
        .stdout(Stdio::RedirectToFile(4))
        .stderr(Stdio::RedirectToFile(5))
        .clear_env(true)
        .user(User::from("www"))
        .group(Group::from(33u32))
        .umask(0o077)
        .chroot("/jail")
        .chown_pid_file(true);
    assert_eq!(d.get_name(), Some("svc"));
    assert_eq!(d.pid_file_path(), Some("/run/svc.pid"));
    assert_eq!(d.working_directory_path(), "/srv");
    assert_eq!(d.streams(), (Stdio::Keep, Stdio::RedirectToFile(4), Stdio::RedirectToFile(5)));
    assert!(d.clears_env());
    assert_eq!(d.user_name(), Some("www"));
    assert_eq!(d.group_name(), Some("33"));
    assert_eq!(d.file_mask(), Some(0o077));
    assert_eq!(d.chroot_path(), Some("/jail"));
    assert!(d.chowns_pid_file());
}

#[test]
fn env_overwrites_in_place() {
    let d = ForgeDaemon::new().env("A", "1").env("B", "2").env("A", "3");
    assert_eq!(pairs(&d), vec![p("A", "3"), p("B", "2")]);
}

#[test]
fn env_opt_sets_only_present_values() {
    let d = ForgeDaemon::new().env_opt("A", Some("1")).env_opt("B", None);
    assert_eq!(pairs(&d), vec![p("A", "1")]);
}

#[test]
fn inherit_env_keeps_configured_values() {
    let d = ForgeDaemon::new()
        .env("A", "mine")
        .inherit_env(vec![p("A", "theirs"), p("C", "c"), p("C", "later")]);
    assert_eq!(pairs(&d), vec![p("A", "mine"), p("C", "c")]);
}

#[test]
fn build_requires_pid_directory() {
    let err = ForgeDaemon::new().pid_file("/missing/x.pid").build(false);
    match err {
        Err(DaemonError::Io(IoError::MissingDirectory(path))) => assert_eq!(path, "/missing/x.pid"),
        _ => panic!("expected a missing directory"),
    }
    assert!(ForgeDaemon::new().pid_file("/run/x.pid").build(true).is_ok());
    assert!(ForgeDaemon::new().build(false).is_ok());
}

#[test]
fn user_and_group_from_names_and_ids() {
    assert_eq!(User::from("www-data").0, "www-data");
    assert_eq!(Group::from("adm").0, "adm");
    assert_eq!(User::from(0u32).0, "0");
    assert_eq!(Group::from(4294967295u32).0, "4294967295");
}

#[test]
fn decimal_rendering() {
    assert_eq!(decimal_string(0), "0");
    assert_eq!(decimal_string(7), "7");
    assert_eq!(decimal_string(10), "10");
    assert_eq!(decimal_string(4321), "4321");
    assert_eq!(decimal_string(u32::MAX), "4294967295");
}

#[test]
fn lock_paths() {
    let pid = ForgeDaemon::new().name("svc").pid_file("/run/p.pid");
    assert_eq!(lock_path(&pid, "/tmp"), Some("/run/p.pid".to_string()));
    let named = ForgeDaemon::new().name("svc");
    assert_eq!(lock_path(&named, "/tmp"), Some("/tmp/daemon-svc.pid".to_string()));
    assert_eq!(lock_path(&named, "/tmp/"), Some("/tmp/daemon-svc.pid".to_string()));
    assert_eq!(lock_path(&named, ""), Some("daemon-svc.pid".to_string()));
    assert_eq!(lock_path(&ForgeDaemon::new(), "/tmp"), None);
}

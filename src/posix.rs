//! The POSIX daemonization sequence.
//!
//! The sequence is fixed by the configuration before anything runs (its
//! plan): double fork with a new session and stream redirection in between,
//! or, under a supervisor, redirection and a readiness notice; then the
//! environment, the file-creation mask, the working directory and optional
//! chroot; then the pid-file lock; then the payload; then the group and user
//! switch. The executor walks the plan one call at a time and stops at the
//! first failure.

use vstd::prelude::*;
use crate::daemon::{unique_keys, DaemonModel, ForgeDaemon};
use crate::error::{DaemonError, IoError, PrivilegeFailure};
use crate::machine::{answer_code, code_of, Action, Answer, Status};
use crate::stdio::Stdio;
use crate::text::{decimal, decimal_string};
use vstd::string::StrSliceExecFns;
use crate::text::contains_char;

verus! {

/// One step of the POSIX sequence, as planned before any call is made.
#[derive(Clone, Copy, Debug, PartialEq, Eq, Structural)]
pub enum Step {
    /// Fork; the parent exits with status 0.
    Fork,
    /// Start a new session, leaving the controlling terminal.
    NewSession,
    /// Open the null device for reading and writing.
    OpenNull { stream: i32 },
    /// Duplicate the null-device descriptor onto `stream`.
    DupNull { stream: i32 },
    /// Close the temporary null-device descriptor.
    CloseNull { stream: i32 },
    /// Duplicate the open file `fd` onto `stream`.
    DupFile { fd: i32, stream: i32 },
    /// Tell the supervisor that the service is ready (best effort).
    NotifyReady,
    /// Wipe the process environment.
    ClearEnv,
    /// Set the configured environment pair at `index`.
    SetEnv { index: usize },
    /// Apply the file-creation mask.
    SetUmask { mask: u32 },
    /// Change to the configured working directory.
    EnterDirectory,
    /// Change the root directory to the configured one.
    ChangeRoot,
    /// Change to `/` inside the new root.
    EnterRoot,
    /// Open (create if missing, without truncating) the pid file.
    OpenPidFile,
    /// Take an exclusive, non-blocking advisory lock on the pid file.
    LockPidFile,
    /// Ask for this process's id.
    QueryPid,
    /// Replace the pid file's content with the decimal process id.
    WritePid,
    /// Look up the user id that the pid file is handed to.
    FindOwner,
    /// Look up the group id that the pid file is handed to.
    FindOwnerGroup,
    /// Change the owner of the pid file.
    ChangeOwner,
    /// Run the payload, exactly once.
    RunPayload,
    /// Look up the group to switch to.
    FindGroup,
    /// Switch the group id.
    SetGroup,
    /// Look up the user to switch to.
    FindUser,
    /// Switch the user id.
    SetUser,
}

/// The descriptors of standard input, output and error.
pub const STDIN_FD: i32 = 0;
pub const STDOUT_FD: i32 = 1;
pub const STDERR_FD: i32 = 2;

/// Binding one stream.
pub open spec fn stream_steps(b: Stdio, stream: i32) -> Seq<Step> {
    match b {
        Stdio::Devnull => seq![
            Step::OpenNull { stream },
            Step::DupNull { stream },
            Step::CloseNull { stream },
        ],
        Stdio::RedirectToFile(fd) => seq![Step::DupFile { fd, stream }],
        Stdio::Keep => Seq::empty(),
    }
}

/// Binding the three streams, in order.
pub open spec fn redirect_steps(m: DaemonModel) -> Seq<Step> {
    stream_steps(m.stdin, STDIN_FD) + stream_steps(m.stdout, STDOUT_FD) + stream_steps(
        m.stderr,
        STDERR_FD,
    )
}

/// Leaving the launcher: double fork around a new session and the
/// redirection, or, under a supervisor, redirection and a readiness notice.
pub open spec fn detach_steps(m: DaemonModel, supervised: bool) -> Seq<Step> {
    if supervised {
        redirect_steps(m) + seq![Step::NotifyReady]
    } else {
        seq![Step::Fork, Step::NewSession] + redirect_steps(m) + seq![Step::Fork]
    }
}

/// Setting each configured pair, in order.
pub open spec fn set_env_steps(n: nat) -> Seq<Step> {
    Seq::new(n, |i: int| Step::SetEnv { index: i as usize })
}

/// Applying the environment policy.
pub open spec fn env_steps(m: DaemonModel) -> Seq<Step> {
    (if m.clear_env {
        seq![Step::ClearEnv]
    } else {
        Seq::empty()
    }) + set_env_steps(m.env.len())
}

/// Mask, working directory, and optional chroot followed by `chdir("/")`.
pub open spec fn context_steps(m: DaemonModel) -> Seq<Step> {
    (match m.umask {
        Some(mask) => seq![Step::SetUmask { mask }],
        None => Seq::empty(),
    }) + seq![Step::EnterDirectory] + (if m.root is Some {
        seq![Step::ChangeRoot, Step::EnterRoot]
    } else {
        Seq::empty()
    })
}

/// Handing the pid file to the configured user and group.
pub open spec fn chown_steps(m: DaemonModel) -> Seq<Step> {
    if m.chown_pid {
        (if m.user is Some {
            seq![Step::FindOwner]
        } else {
            Seq::empty()
        }) + (if m.group is Some {
            seq![Step::FindOwnerGroup]
        } else {
            Seq::empty()
        }) + seq![Step::ChangeOwner]
    } else {
        Seq::empty()
    }
}

/// Locking and writing the pid file, when there is one.
pub open spec fn lock_steps(m: DaemonModel, locked: bool) -> Seq<Step> {
    if locked {
        seq![Step::OpenPidFile, Step::LockPidFile, Step::QueryPid, Step::WritePid]
            + chown_steps(m)
    } else {
        Seq::empty()
    }
}

/// Dropping privileges: the group first, then the user.
pub open spec fn drop_steps(m: DaemonModel) -> Seq<Step> {
    (if m.group is Some {
        seq![Step::FindGroup, Step::SetGroup]
    } else {
        Seq::empty()
    }) + (if m.user is Some {
        seq![Step::FindUser, Step::SetUser]
    } else {
        Seq::empty()
    })
}

/// The whole POSIX sequence for a configuration; `locked` says whether a
/// pid file is to be locked.
pub open spec fn posix_plan(m: DaemonModel, supervised: bool, locked: bool) -> Seq<Step> {
    detach_steps(m, supervised) + env_steps(m) + context_steps(m) + lock_steps(m, locked)
        + seq![Step::RunPayload] + drop_steps(m)
}

fn push_stream(v: &mut Vec<Step>, b: Stdio, stream: i32)
    ensures
        final(v)@ == old(v)@ + stream_steps(b, stream),
{
    match b {
        Stdio::Devnull => {
            v.push(Step::OpenNull { stream });
            v.push(Step::DupNull { stream });
            v.push(Step::CloseNull { stream });
        },
        Stdio::RedirectToFile(fd) => {
            v.push(Step::DupFile { fd, stream });
        },
        Stdio::Keep => {},
    }
    assert(final(v)@ =~= old(v)@ + stream_steps(b, stream));
}

fn push_detach(v: &mut Vec<Step>, config: &ForgeDaemon, supervised: bool)
    ensures
        final(v)@ == old(v)@ + detach_steps(config@, supervised),
{
    let (stdin, stdout, stderr) = config.streams();
    if !supervised {
        v.push(Step::Fork);
        v.push(Step::NewSession);
    }
    push_stream(v, stdin, STDIN_FD);
    push_stream(v, stdout, STDOUT_FD);
    push_stream(v, stderr, STDERR_FD);
    if supervised {
        v.push(Step::NotifyReady);
    } else {
        v.push(Step::Fork);
    }
    assert(final(v)@ =~= old(v)@ + detach_steps(config@, supervised));
}

fn push_env(v: &mut Vec<Step>, config: &ForgeDaemon)
    ensures
        final(v)@ == old(v)@ + env_steps(config@),
{
    if config.clears_env() {
        v.push(Step::ClearEnv);
    }
    let ghost before = v@;
    let n = config.environment().len();
    let mut i: usize = 0;
    while i < n
        invariant
            i <= n,
            n == config@.env.len(),
            v@ == before + set_env_steps(i as nat),
        decreases n - i,
    {
        v.push(Step::SetEnv { index: i });
        assert(set_env_steps((i + 1) as nat) =~= set_env_steps(i as nat).push(
            Step::SetEnv { index: i },
        ));
        i = i + 1;
    }
    assert(final(v)@ =~= old(v)@ + env_steps(config@));
}

fn push_context(v: &mut Vec<Step>, config: &ForgeDaemon)
    ensures
        final(v)@ == old(v)@ + context_steps(config@),
{
    match config.file_mask() {
        Some(mask) => v.push(Step::SetUmask { mask }),
        None => {},
    }
    v.push(Step::EnterDirectory);
    if config.chroot_path().is_some() {
        v.push(Step::ChangeRoot);
        v.push(Step::EnterRoot);
    }
    assert(final(v)@ =~= old(v)@ + context_steps(config@));
}

fn push_lock(v: &mut Vec<Step>, config: &ForgeDaemon, locked: bool)
    ensures
        final(v)@ == old(v)@ + lock_steps(config@, locked),
{
    if locked {
        v.push(Step::OpenPidFile);
        v.push(Step::LockPidFile);
        v.push(Step::QueryPid);
        v.push(Step::WritePid);
        if config.chowns_pid_file() {
            if config.user_name().is_some() {
                v.push(Step::FindOwner);
            }
            if config.group_name().is_some() {
                v.push(Step::FindOwnerGroup);
            }
            v.push(Step::ChangeOwner);
        }
    }
    assert(final(v)@ =~= old(v)@ + lock_steps(config@, locked));
}

fn push_drop(v: &mut Vec<Step>, config: &ForgeDaemon)
    ensures
        final(v)@ == old(v)@ + drop_steps(config@),
{
    if config.group_name().is_some() {
        v.push(Step::FindGroup);
        v.push(Step::SetGroup);
    }
    if config.user_name().is_some() {
        v.push(Step::FindUser);
        v.push(Step::SetUser);
    }
    assert(final(v)@ =~= old(v)@ + drop_steps(config@));
}

/// Lays out the POSIX sequence for `config`.
pub fn plan_posix(config: &ForgeDaemon, supervised: bool, locked: bool) -> (r: Vec<Step>)
    ensures
        r@ == posix_plan(config@, supervised, locked),
{
    let mut v: Vec<Step> = Vec::new();
    push_detach(&mut v, config, supervised);
    push_env(&mut v, config);
    push_context(&mut v, config);
    push_lock(&mut v, config, locked);
    v.push(Step::RunPayload);
    push_drop(&mut v, config);
    assert(v@ =~= posix_plan(config@, supervised, locked));
    v
}


/// A call that the runner performs for the POSIX sequence.
#[derive(Debug)]
pub enum Call {
    /// `fork()`; answer `Parent`, `Child` or `Failed`.
    Fork,
    /// `setsid()`; answer `Done` or `Failed`.
    NewSession,
    /// Open the null device read-write; answer `Opened` or `Failed`.
    OpenNull,
    /// `dup2(from, onto)`; answer `Done` or `Failed`.
    Duplicate { from: i32, onto: i32 },
    /// `close(fd)`; the answer is not looked at.
    Close { fd: i32 },
    /// Send the one-shot readiness notice to the supervisor and forget its
    /// socket; the answer is not looked at.
    NotifyReady,
    /// Wipe the environment where the platform allows it; the answer is not
    /// looked at.
    ClearEnv,
    /// Set one environment variable, overwriting; the answer is not looked at.
    SetEnv { key: String, value: String },
    /// `umask(mask)`; the answer is not looked at.
    SetUmask { mask: u32 },
    /// `chdir(path)`; answer `Done` or `Failed`.
    ChangeDir { path: String },
    /// `chroot(path)`; answer `Done` or `Failed`.
    ChangeRoot { path: String },
    /// Open for writing, creating it if missing and keeping its content;
    /// answer `Opened` or `Failed`. The descriptor is never closed: it holds
    /// the lock until the process ends.
    OpenPidFile { path: String },
    /// `flock(fd, LOCK_EX | LOCK_NB)`; answer `Done`, `Busy` or `Failed`.
    Lock { fd: i32 },
    /// `getpid()`; answer `Number`.
    GetPid,
    /// Truncate the file to nothing and write `text`; answer `Done` or
    /// `Failed`.
    WritePid { fd: i32, text: String },
    /// Look up an account by name; answer `Number` (its user id) or
    /// `NotFound`.
    FindUser { name: String },
    /// Look up a group by name; answer `Number` (its group id) or `NotFound`.
    FindGroup { name: String },
    /// `chown(path, uid, gid)`, where `u32::MAX` leaves an id unchanged;
    /// answer `Done` or `Failed`.
    ChangeOwner { path: String, uid: u32, gid: u32 },
    /// Run the payload; answer `Done` or `PayloadFailed`.
    RunPayload,
    /// `setgid(gid)`; answer `Done` or `Failed`.
    SetGroup { gid: u32 },
    /// `setuid(uid)`; answer `Done` or `Failed`.
    SetUser { uid: u32 },
}

/// Values learnt from earlier answers.
#[derive(Clone, Copy, Debug, PartialEq, Eq, Structural)]
pub struct Registers {
    pub null_fd: i32,
    pub pid_fd: i32,
    pub pid: u32,
    pub owner_uid: u32,
    pub owner_gid: u32,
    pub gid: u32,
    pub uid: u32,
}

/// The value `chown` reads as "leave this id unchanged".
pub const UNCHANGED_ID: u32 = 0xffff_ffff;

pub open spec fn initial_registers() -> Registers {
    Registers {
        null_fd: -1i32,
        pid_fd: -1i32,
        pid: 0,
        owner_uid: UNCHANGED_ID,
        owner_gid: UNCHANGED_ID,
        gid: 0,
        uid: 0,
    }
}

/// A POSIX sequence as mathematical values.
pub struct PosixState {
    pub config: DaemonModel,
    pub supervised: bool,
    /// The pid file to lock, if any.
    pub lock: Option<Seq<char>>,
    pub plan: Seq<Step>,
    /// The index of the step whose call was handed out last.
    pub pc: nat,
    pub status: Status,
    pub regs: Registers,
}

/// `file` joined under `dir`, with one separator.
pub open spec fn join(dir: Seq<char>, file: Seq<char>) -> Seq<char> {
    if dir.len() == 0 {
        file
    } else if dir.last() == '/' {
        dir + file
    } else {
        dir + seq!['/'] + file
    }
}

/// The file that holds the lock: the pid file, else one derived from the
/// name under the temporary directory, else none.
pub open spec fn lock_path_of(m: DaemonModel, temp_dir: Seq<char>) -> Option<Seq<char>> {
    match m.pid_file {
        Some(p) => Some(p),
        None => match m.name {
            Some(n) => Some(join(temp_dir, "daemon-"@ + n + ".pid"@)),
            None => None,
        },
    }
}

pub open spec fn has_nul(s: Seq<char>) -> bool {
    s.contains('\0')
}

/// A pair that the environment can hold.
pub open spec fn env_pair_ok(k: Seq<char>, v: Seq<char>) -> bool {
    k.len() > 0 && !k.contains('=') && !has_nul(k) && !has_nul(v)
}

pub open spec fn opt_ok(o: Option<Seq<char>>) -> bool {
    match o {
        Some(s) => !has_nul(s),
        None => true,
    }
}

/// Every value that the sequence hands to the system can be handed over.
pub open spec fn config_ok(m: DaemonModel, lock: Option<Seq<char>>) -> bool {
    &&& forall|i: int| 0 <= i < m.env.len() ==> env_pair_ok(#[trigger] m.env[i].0, m.env[i].1)
    &&& !has_nul(m.directory)
    &&& opt_ok(m.root)
    &&& opt_ok(lock)
    &&& opt_ok(m.user)
    &&& opt_ok(m.group)
}

/// `e` names a value of the configuration that cannot be handed over.
pub open spec fn describes_problem(e: DaemonError, m: DaemonModel, lock: Option<Seq<char>>) -> bool {
    ||| e matches DaemonError::EnvError(k) && exists|i: int|
        0 <= i < m.env.len() && #[trigger] m.env[i].0 == k@ && !env_pair_ok(k@, m.env[i].1)
    ||| e matches DaemonError::Io(IoError::InvalidPath(p)) && has_nul(p@) && (p@ == m.directory
        || m.root == Some(p@) || lock == Some(p@))
    ||| e matches DaemonError::PrivilegeError(PrivilegeFailure::UserNotFound(n)) && has_nul(n@)
        && m.user == Some(n@)
    ||| e matches DaemonError::PrivilegeError(PrivilegeFailure::GroupNotFound(n)) && has_nul(n@)
        && m.group == Some(n@)
}

/// The call that performs step `s` in state `st`.
pub open spec fn realizes(c: Call, s: Step, st: PosixState) -> bool {
    let m = st.config;
    let r = st.regs;
    match s {
        Step::Fork => c is Fork,
        Step::NewSession => c is NewSession,
        Step::OpenNull { .. } => c is OpenNull,
        Step::DupNull { stream } => c matches Call::Duplicate { from, onto } && from == r.null_fd
            && onto == stream && from != onto,
        Step::CloseNull { stream } => c matches Call::Close { fd } && fd == r.null_fd && fd
            != stream,
        Step::DupFile { fd, stream } => c matches Call::Duplicate { from, onto } && from == fd
            && onto == stream,
        Step::NotifyReady => c is NotifyReady,
        Step::ClearEnv => c is ClearEnv,
        Step::SetEnv { index } => c matches Call::SetEnv { key, value } && index < m.env.len()
            && key@ == m.env[index as int].0 && value@ == m.env[index as int].1,
        Step::SetUmask { mask } => c matches Call::SetUmask { mask: k } && k == mask,
        Step::EnterDirectory => c matches Call::ChangeDir { path } && path@ == m.directory,
        Step::ChangeRoot => c matches Call::ChangeRoot { path } && m.root == Some(path@),
        Step::EnterRoot => c matches Call::ChangeDir { path } && path@ == seq!['/'],
        Step::OpenPidFile => c matches Call::OpenPidFile { path } && st.lock == Some(path@),
        Step::LockPidFile => c matches Call::Lock { fd } && fd == r.pid_fd,
        Step::QueryPid => c is GetPid,
        Step::WritePid => c matches Call::WritePid { fd, text } && fd == r.pid_fd && text@
            == decimal(r.pid as nat),
        Step::FindOwner => c matches Call::FindUser { name } && m.user == Some(name@),
        Step::FindOwnerGroup => c matches Call::FindGroup { name } && m.group == Some(name@),
        Step::ChangeOwner => c matches Call::ChangeOwner { path, uid, gid } && st.lock == Some(
            path@,
        ) && uid == r.owner_uid && gid == r.owner_gid,
        Step::RunPayload => c is RunPayload,
        Step::FindGroup => c matches Call::FindGroup { name } && m.group == Some(name@),
        Step::SetGroup => c matches Call::SetGroup { gid } && gid == r.gid,
        Step::FindUser => c matches Call::FindUser { name } && m.user == Some(name@),
        Step::SetUser => c matches Call::SetUser { uid } && uid == r.uid,
    }
}

/// The answer lets the sequence go on past step `s`.
pub open spec fn advances(s: Step, a: Answer) -> bool {
    match s {
        Step::Fork => a is Child,
        Step::OpenNull { .. } | Step::OpenPidFile => a is Opened,
        Step::QueryPid | Step::FindOwner | Step::FindOwnerGroup | Step::FindGroup
        | Step::FindUser => a is Number,
        Step::CloseNull { .. } | Step::NotifyReady | Step::ClearEnv | Step::SetEnv { .. }
        | Step::SetUmask { .. } => true,
        _ => a is Done,
    }
}

/// The answer says this process is the parent of a fork.
pub open spec fn exits(s: Step, a: Answer) -> bool {
    s is Fork && a is Parent
}

/// `e` is the error with which step `s` fails on answer `a`.
pub open spec fn fails_with(s: Step, a: Answer, st: PosixState, e: DaemonError) -> bool {
    let m = st.config;
    let code = code_of(a);
    match s {
        Step::Fork => e matches DaemonError::SyscallError { call, errno } && call@ == "fork"@
            && errno == code,
        Step::NewSession => e matches DaemonError::SyscallError { call, errno } && call@
            == "setsid"@ && errno == code,
        Step::ChangeRoot => e matches DaemonError::PrivilegeError(PrivilegeFailure::ChangeRoot(c))
            && c == code,
        Step::LockPidFile => e is TargetLocked,
        Step::FindOwner | Step::FindUser => e matches DaemonError::PrivilegeError(
            PrivilegeFailure::UserNotFound(n),
        ) && m.user == Some(n@),
        Step::FindOwnerGroup | Step::FindGroup => e matches DaemonError::PrivilegeError(
            PrivilegeFailure::GroupNotFound(n),
        ) && m.group == Some(n@),
        Step::ChangeOwner => e matches DaemonError::PrivilegeError(
            PrivilegeFailure::ChangeOwner(c),
        ) && c == code,
        Step::SetGroup => e matches DaemonError::PrivilegeError(PrivilegeFailure::SetGroup(c))
            && c == code,
        Step::SetUser => e matches DaemonError::PrivilegeError(PrivilegeFailure::SetUser(c))
            && c == code,
        Step::RunPayload => match a {
            Answer::PayloadFailed(p) => e == p,
            _ => e matches DaemonError::Io(IoError::Os(c)) && c == code,
        },
        _ => e matches DaemonError::Io(IoError::Os(c)) && c == code,
    }
}

/// The registers after step `s` was answered with `a`.
pub open spec fn record(r: Registers, s: Step, a: Answer) -> Registers {
    match a {
        Answer::Opened(fd) => match s {
            Step::OpenNull { .. } => Registers { null_fd: fd, ..r },
            Step::OpenPidFile => Registers { pid_fd: fd, ..r },
            _ => r,
        },
        Answer::Number(n) => match s {
            Step::QueryPid => Registers { pid: n, ..r },
            Step::FindOwner => Registers { owner_uid: n, ..r },
            Step::FindOwnerGroup => Registers { owner_gid: n, ..r },
            Step::FindGroup => Registers { gid: n, ..r },
            Step::FindUser => Registers { uid: n, ..r },
            _ => r,
        },
        _ => r,
    }
}

/// A state that the sequence can be in.
pub open spec fn well_formed(st: PosixState) -> bool {
    &&& unique_keys(st.config.env)
    &&& st.pc < st.plan.len() || (st.plan.len() == 0 && st.pc == 0 && st.status == Status::Failed)
    &&& st.plan.len() > 0 ==> st.plan == posix_plan(st.config, st.supervised, st.lock is Some)
        && config_ok(st.config, st.lock)
    &&& st.status == Status::Running ==> !touches_own_stream(st.plan[st.pc as int], st.regs)
}

/// Step `s` would duplicate the null device onto itself, or close the stream
/// it is meant to bind. That happens when the stream was closed on entry, so
/// that opening the null device returned the stream's own descriptor: the
/// stream is then bound already, and both steps are passed over.
pub open spec fn touches_own_stream(s: Step, r: Registers) -> bool {
    match s {
        Step::DupNull { stream } => r.null_fd == stream,
        Step::CloseNull { stream } => r.null_fd == stream,
        _ => false,
    }
}

/// The step that follows step `pc`, passing over the duplication and close
/// of a null device that opened on its target stream.
pub open spec fn next_pc(p: Seq<Step>, pc: nat, r: Registers) -> nat {
    if pc + 1 < p.len() && touches_own_stream(p[pc as int + 1], r) {
        pc + 3
    } else {
        pc + 1
    }
}

/// The steps up to the current one, in order: each was performed by the call
/// handed out for it, or passed over as described at `touches_own_stream`.
pub open spec fn reached(st: PosixState) -> Seq<Step> {
    if st.plan.len() == 0 {
        Seq::empty()
    } else {
        st.plan.take(st.pc as int + 1)
    }
}

/// The POSIX daemonization sequence for one configuration.
pub struct PosixDaemonizer {
    config: ForgeDaemon,
    supervised: bool,
    lock: Option<String>,
    plan: Vec<Step>,
    pc: usize,
    status: Status,
    regs: Registers,
}

impl View for PosixDaemonizer {
    type V = PosixState;

    closed spec fn view(&self) -> PosixState {
        PosixState {
            config: self.config@,
            supervised: self.supervised,
            lock: crate::daemon::opt_view(self.lock),
            plan: self.plan@,
            pc: self.pc as nat,
            status: self.status,
            regs: self.regs,
        }
    }
}


/// What step `s` needs of the configuration before its call can be formed.
pub open spec fn step_fits(s: Step, m: DaemonModel, locked: bool) -> bool {
    match s {
        Step::SetEnv { index } => index < m.env.len(),
        Step::ChangeRoot => m.root is Some,
        Step::OpenPidFile | Step::ChangeOwner => locked,
        Step::FindOwner | Step::FindUser => m.user is Some,
        Step::FindOwnerGroup | Step::FindGroup => m.group is Some,
        _ => true,
    }
}

pub open spec fn all_fit(p: Seq<Step>, m: DaemonModel, locked: bool) -> bool {
    forall|k: int| 0 <= k < p.len() ==> step_fits(#[trigger] p[k], m, locked)
}

proof fn lemma_fit_concat(a: Seq<Step>, b: Seq<Step>, m: DaemonModel, locked: bool)
    requires
        all_fit(a, m, locked),
        all_fit(b, m, locked),
    ensures
        all_fit(a + b, m, locked),
{
    assert forall|k: int| 0 <= k < (a + b).len() implies step_fits(
        #[trigger] (a + b)[k],
        m,
        locked,
    ) by {
        if k < a.len() {
            assert((a + b)[k] == a[k]);
        } else {
            assert((a + b)[k] == b[k - a.len()]);
        }
    }
}

/// Every planned step can be formed from the configuration.
pub proof fn lemma_plan_fits(m: DaemonModel, supervised: bool, locked: bool)
    ensures
        all_fit(posix_plan(m, supervised, locked), m, locked),
{
    let r = redirect_steps(m);
    assert(all_fit(stream_steps(m.stdin, STDIN_FD), m, locked));
    assert(all_fit(stream_steps(m.stdout, STDOUT_FD), m, locked));
    assert(all_fit(stream_steps(m.stderr, STDERR_FD), m, locked));
    lemma_fit_concat(stream_steps(m.stdin, STDIN_FD), stream_steps(m.stdout, STDOUT_FD), m, locked);
    lemma_fit_concat(
        stream_steps(m.stdin, STDIN_FD) + stream_steps(m.stdout, STDOUT_FD),
        stream_steps(m.stderr, STDERR_FD),
        m,
        locked,
    );
    if supervised {
        lemma_fit_concat(r, seq![Step::NotifyReady], m, locked);
    } else {
        lemma_fit_concat(seq![Step::Fork, Step::NewSession], r, m, locked);
        lemma_fit_concat(seq![Step::Fork, Step::NewSession] + r, seq![Step::Fork], m, locked);
    }
    let d = detach_steps(m, supervised);
    let c: Seq<Step> = if m.clear_env {
        seq![Step::ClearEnv]
    } else {
        Seq::empty()
    };
    assert(all_fit(c, m, locked));
    assert(all_fit(set_env_steps(m.env.len()), m, locked));
    lemma_fit_concat(c, set_env_steps(m.env.len()), m, locked);
    let e = env_steps(m);
    lemma_fit_concat(d, e, m, locked);
    let u: Seq<Step> = match m.umask {
        Some(mask) => seq![Step::SetUmask { mask }],
        None => Seq::empty(),
    };
    let rt: Seq<Step> = if m.root is Some {
        seq![Step::ChangeRoot, Step::EnterRoot]
    } else {
        Seq::empty()
    };
    assert(all_fit(u, m, locked));
    assert(all_fit(rt, m, locked));
    lemma_fit_concat(u, seq![Step::EnterDirectory], m, locked);
    lemma_fit_concat(u + seq![Step::EnterDirectory], rt, m, locked);
    lemma_fit_concat(d + e, context_steps(m), m, locked);
    let ou: Seq<Step> = if m.user is Some {
        seq![Step::FindOwner]
    } else {
        Seq::empty()
    };
    let og: Seq<Step> = if m.group is Some {
        seq![Step::FindOwnerGroup]
    } else {
        Seq::empty()
    };
    assert(all_fit(ou, m, locked));
    assert(all_fit(og, m, locked));
    let w = seq![Step::OpenPidFile, Step::LockPidFile, Step::QueryPid, Step::WritePid];
    if locked {
        lemma_fit_concat(ou, og, m, locked);
        lemma_fit_concat(ou + og, seq![Step::ChangeOwner], m, locked);
        assert(all_fit(chown_steps(m), m, locked));
        lemma_fit_concat(w, chown_steps(m), m, locked);
    }
    assert(all_fit(lock_steps(m, locked), m, locked));
    lemma_fit_concat(d + e + context_steps(m), lock_steps(m, locked), m, locked);
    lemma_fit_concat(
        d + e + context_steps(m) + lock_steps(m, locked),
        seq![Step::RunPayload],
        m,
        locked,
    );
    let gs: Seq<Step> = if m.group is Some {
        seq![Step::FindGroup, Step::SetGroup]
    } else {
        Seq::empty()
    };
    let us: Seq<Step> = if m.user is Some {
        seq![Step::FindUser, Step::SetUser]
    } else {
        Seq::empty()
    };
    assert(all_fit(gs, m, locked));
    assert(all_fit(us, m, locked));
    lemma_fit_concat(gs, us, m, locked);
    lemma_fit_concat(
        d + e + context_steps(m) + lock_steps(m, locked) + seq![Step::RunPayload],
        drop_steps(m),
        m,
        locked,
    );
}

/// The file that holds the lock, with the temporary directory `temp_dir`.
pub fn lock_path(config: &ForgeDaemon, temp_dir: &str) -> (r: Option<String>)
    ensures
        crate::daemon::opt_view(r) == lock_path_of(config@, temp_dir@),
{
    match config.pid_file_path() {
        Some(p) => Some(String::from_str(p)),
        None => match config.get_name() {
            Some(n) => {
                let mut file = String::from_str("daemon-");
                file.append(n);
                file.append(".pid");
                let mut path = String::from_str(temp_dir);
                let len = temp_dir.unicode_len();
                proof {
                    reveal_strlit("/");
                }
                if len > 0 && temp_dir.get_char(len - 1) != '/' {
                    path.append("/");
                }
                path.append(file.as_str());
                assert(path@ =~= join(temp_dir@, "daemon-"@ + n@ + ".pid"@));
                Some(path)
            },
            None => None,
        },
    }
}

fn opt_has_nul(o: Option<&str>) -> (r: bool)
    ensures
        r == !opt_ok(match o {
            Some(s) => Some(s@),
            None => None,
        }),
{
    match o {
        Some(s) => contains_char(s, '\0'),
        None => false,
    }
}

/// Checks every value that the sequence will hand to the system.
fn validate(config: &ForgeDaemon, lock: &Option<String>) -> (r: Result<(), DaemonError>)
    ensures
        r is Ok <==> config_ok(config@, crate::daemon::opt_view(*lock)),
        r matches Err(e) ==> describes_problem(e, config@, crate::daemon::opt_view(*lock)),
{
    let ghost m = config@;
    let ghost lk = crate::daemon::opt_view(*lock);
    let env = config.environment();
    let mut i: usize = 0;
    while i < env.len()
        invariant
            m == config@,
            lk == crate::daemon::opt_view(*lock),
            crate::daemon::pairs_view(env@) == m.env,
            i <= env@.len(),
            forall|j: int| 0 <= j < i ==> env_pair_ok(#[trigger] m.env[j].0, m.env[j].1),
        decreases env@.len() - i,
    {
        let key = env[i].0.as_str();
        let value = env[i].1.as_str();
        assert(m.env[i as int] == (key@, value@));
        if key.unicode_len() == 0 || contains_char(key, '=') || contains_char(key, '\0')
            || contains_char(value, '\0') {
            assert(!env_pair_ok(m.env[i as int].0, m.env[i as int].1));
            return Err(DaemonError::EnvError(String::from_str(key)));
        }
        i = i + 1;
    }
    let dir = config.working_directory_path();
    if contains_char(dir, '\0') {
        return Err(DaemonError::Io(IoError::InvalidPath(String::from_str(dir))));
    }
    match config.chroot_path() {
        Some(p) => {
            if contains_char(p, '\0') {
                return Err(DaemonError::Io(IoError::InvalidPath(String::from_str(p))));
            }
        },
        None => {},
    }
    match lock {
        Some(p) => {
            if contains_char(p.as_str(), '\0') {
                return Err(DaemonError::Io(IoError::InvalidPath(p.clone())));
            }
        },
        None => {},
    }
    match config.user_name() {
        Some(n) => {
            if contains_char(n, '\0') {
                return Err(
                    DaemonError::PrivilegeError(PrivilegeFailure::UserNotFound(String::from_str(n))),
                );
            }
        },
        None => {},
    }
    match config.group_name() {
        Some(n) => {
            if contains_char(n, '\0') {
                return Err(
                    DaemonError::PrivilegeError(
                        PrivilegeFailure::GroupNotFound(String::from_str(n)),
                    ),
                );
            }
        },
        None => {},
    }
    Ok(())
}


fn record_answer(r: Registers, s: Step, a: &Answer) -> (out: Registers)
    ensures
        out == record(r, s, *a),
{
    match a {
        Answer::Opened(fd) => match s {
            Step::OpenNull { .. } => Registers { null_fd: *fd, ..r },
            Step::OpenPidFile => Registers { pid_fd: *fd, ..r },
            _ => r,
        },
        Answer::Number(n) => match s {
            Step::QueryPid => Registers { pid: *n, ..r },
            Step::FindOwner => Registers { owner_uid: *n, ..r },
            Step::FindOwnerGroup => Registers { owner_gid: *n, ..r },
            Step::FindGroup => Registers { gid: *n, ..r },
            Step::FindUser => Registers { uid: *n, ..r },
            _ => r,
        },
        _ => r,
    }
}

fn step_advances(s: Step, a: &Answer) -> (r: bool)
    ensures
        r == advances(s, *a),
{
    match s {
        Step::Fork => matches!(a, Answer::Child),
        Step::OpenNull { .. } | Step::OpenPidFile => matches!(a, Answer::Opened(_)),
        Step::QueryPid | Step::FindOwner | Step::FindOwnerGroup | Step::FindGroup
        | Step::FindUser => matches!(a, Answer::Number(_)),
        Step::CloseNull { .. } | Step::NotifyReady | Step::ClearEnv | Step::SetEnv { .. }
        | Step::SetUmask { .. } => true,
        _ => matches!(a, Answer::Done),
    }
}

impl PosixDaemonizer {
    /// Whether the sequence waits for the answer to a call.
    pub fn is_running(&self) -> (r: bool)
        ensures
            r == (self@.status == Status::Running),
    {
        self.status == Status::Running
    }

    /// The call that performs the current step.
    fn issue(&self) -> (c: Call)
        requires
            well_formed(self@),
            self@.status == Status::Running,
            self@.plan.len() > 0,
        ensures
            realizes(c, self@.plan[self@.pc as int], self@),
    {
        let ghost st = self@;
        proof {
            lemma_plan_fits(st.config, st.supervised, st.lock is Some);
            assert(step_fits(st.plan[st.pc as int], st.config, st.lock is Some));
        }
        let r = self.regs;
        match self.plan[self.pc] {
            Step::Fork => Call::Fork,
            Step::NewSession => Call::NewSession,
            Step::OpenNull { .. } => Call::OpenNull,
            Step::DupNull { stream } => Call::Duplicate { from: r.null_fd, onto: stream },
            Step::CloseNull { .. } => Call::Close { fd: r.null_fd },
            Step::DupFile { fd, stream } => Call::Duplicate { from: fd, onto: stream },
            Step::NotifyReady => Call::NotifyReady,
            Step::ClearEnv => Call::ClearEnv,
            Step::SetEnv { index } => {
                let env = self.config.environment();
                let key = env[index].0.clone();
                let value = env[index].1.clone();
                assert(crate::daemon::pairs_view(env@)[index as int] == (key@, value@));
                Call::SetEnv { key, value }
            },
            Step::SetUmask { mask } => Call::SetUmask { mask },
            Step::EnterDirectory => Call::ChangeDir {
                path: String::from_str(self.config.working_directory_path()),
            },
            Step::ChangeRoot => Call::ChangeRoot {
                path: String::from_str(self.config.chroot_path().unwrap()),
            },
            Step::EnterRoot => {
                proof {
                    reveal_strlit("/");
                    assert("/"@ =~= seq!['/']);
                }
                Call::ChangeDir { path: String::from_str("/") }
            },
            Step::OpenPidFile => {
                let path = self.lock.as_ref().unwrap().clone();
                Call::OpenPidFile { path }
            },
            Step::LockPidFile => Call::Lock { fd: r.pid_fd },
            Step::QueryPid => Call::GetPid,
            Step::WritePid => Call::WritePid { fd: r.pid_fd, text: decimal_string(r.pid) },
            Step::FindOwner | Step::FindUser => Call::FindUser {
                name: String::from_str(self.config.user_name().unwrap()),
            },
            Step::FindOwnerGroup | Step::FindGroup => Call::FindGroup {
                name: String::from_str(self.config.group_name().unwrap()),
            },
            Step::ChangeOwner => {
                let path = self.lock.as_ref().unwrap().clone();
                Call::ChangeOwner { path, uid: r.owner_uid, gid: r.owner_gid }
            },
            Step::RunPayload => Call::RunPayload,
            Step::SetGroup => Call::SetGroup { gid: r.gid },
            Step::SetUser => Call::SetUser { uid: r.uid },
        }
    }

    /// The error with which the current step fails on `a`.
    fn failure(&self, a: Answer) -> (e: DaemonError)
        requires
            well_formed(self@),
            self@.plan.len() > 0,
        ensures
            fails_with(self@.plan[self@.pc as int], a, self@, e),
    {
        let ghost st = self@;
        proof {
            lemma_plan_fits(st.config, st.supervised, st.lock is Some);
            assert(step_fits(st.plan[st.pc as int], st.config, st.lock is Some));
        }
        let code = answer_code(&a);
        match self.plan[self.pc] {
            Step::Fork => DaemonError::SyscallError { call: "fork", errno: code },
            Step::NewSession => DaemonError::SyscallError { call: "setsid", errno: code },
            Step::ChangeRoot => DaemonError::PrivilegeError(PrivilegeFailure::ChangeRoot(code)),
            Step::LockPidFile => DaemonError::TargetLocked,
            Step::FindOwner | Step::FindUser => DaemonError::PrivilegeError(
                PrivilegeFailure::UserNotFound(String::from_str(self.config.user_name().unwrap())),
            ),
            Step::FindOwnerGroup | Step::FindGroup => DaemonError::PrivilegeError(
                PrivilegeFailure::GroupNotFound(
                    String::from_str(self.config.group_name().unwrap()),
                ),
            ),
            Step::ChangeOwner => DaemonError::PrivilegeError(PrivilegeFailure::ChangeOwner(code)),
            Step::SetGroup => DaemonError::PrivilegeError(PrivilegeFailure::SetGroup(code)),
            Step::SetUser => DaemonError::PrivilegeError(PrivilegeFailure::SetUser(code)),
            Step::RunPayload => match a {
                Answer::PayloadFailed(p) => p,
                _ => DaemonError::Io(IoError::Os(code)),
            },
            _ => DaemonError::Io(IoError::Os(code)),
        }
    }

    /// Starts the sequence for `config`. `supervised` says whether a service
    /// supervisor announced its notification socket; `temp_dir` is the
    /// system's temporary directory, under which a named daemon without a
    /// pid file keeps its lock file.
    ///
    /// Every value that will be handed to the system is checked first; if one
    /// cannot be handed over, the sequence fails before its first call.
    pub fn begin(config: ForgeDaemon, supervised: bool, temp_dir: &str) -> (r: (
        PosixDaemonizer,
        Action<Call>,
    ))
        ensures
            well_formed(r.0@),
            r.0@.config == config@,
            r.0@.supervised == supervised,
            r.0@.lock == lock_path_of(config@, temp_dir@),
            r.0@.pc == 0,
            r.0@.regs == initial_registers(),
            config_ok(config@, r.0@.lock) ==> {
                &&& r.0@.plan == posix_plan(config@, supervised, r.0@.lock is Some)
                &&& r.0@.status == Status::Running
                &&& r.1 matches Action::Call(c) && realizes(c, r.0@.plan[0], r.0@)
                &&& reached(r.0@) == seq![r.0@.plan[0]]
            },
            !config_ok(config@, r.0@.lock) ==> {
                &&& r.0@.plan.len() == 0
                &&& reached(r.0@).len() == 0
                &&& r.0@.status == Status::Failed
                &&& r.1 matches Action::Abort(e) && describes_problem(e, config@, r.0@.lock)
            },
    {
        let lock = lock_path(&config, temp_dir);
        let checked = validate(&config, &lock);
        // the names of the environment pairs are distinct
        let _ = config.environment();
        let regs = Registers {
            null_fd: -1,
            pid_fd: -1,
            pid: 0,
            owner_uid: UNCHANGED_ID,
            owner_gid: UNCHANGED_ID,
            gid: 0,
            uid: 0,
        };
        match checked {
            Err(e) => {
                let d = PosixDaemonizer {
                    config,
                    supervised,
                    lock,
                    plan: Vec::new(),
                    pc: 0,
                    status: Status::Failed,
                    regs,
                };
                (d, Action::Abort(e))
            },
            Ok(()) => {
                let plan = plan_posix(&config, supervised, lock.is_some());
                proof {
                    let m = config@;
                    let before = detach_steps(m, supervised) + env_steps(m) + context_steps(m)
                        + lock_steps(m, lock.is_some());
                    assert((before + seq![Step::RunPayload]).len() > 0);
                }
                let d = PosixDaemonizer {
                    config,
                    supervised,
                    lock,
                    plan,
                    pc: 0,
                    status: Status::Running,
                    regs,
                };
                let c = d.issue();
                assert(d.plan@.take(1) =~= seq![d.plan@[0]]);
                (d, Action::Call(c))
            },
        }
    }

    /// Moves to the step after the current one, whose call is handed out.
    #[verifier::rlimit(60)]
    fn advance(&mut self) -> (r: Action<Call>)
        requires
            well_formed(old(self)@),
            old(self)@.status == Status::Running,
            old(self)@.pc + 1 < old(self)@.plan.len(),
        ensures
            ({
                let st = old(self)@;
                let nx = final(self)@;
                &&& well_formed(nx)
                &&& nx.config == st.config
                &&& nx.supervised == st.supervised
                &&& nx.lock == st.lock
                &&& nx.plan == st.plan
                &&& nx.regs == st.regs
                &&& nx.pc == next_pc(st.plan, st.pc, st.regs)
                &&& nx.pc < st.plan.len()
                &&& nx.pc == st.pc + 3 ==> st.plan[st.pc as int + 1] is DupNull
                    && st.plan[st.pc as int + 2] is CloseNull
                &&& nx.status == Status::Running
                &&& r matches Action::Call(c) && realizes(c, st.plan[nx.pc as int], nx)
                &&& reached(nx) == reached(st) + st.plan.subrange(st.pc as int + 1, nx.pc as int + 1)
            }),
    {
        // bounds the step index by the largest `usize`
        let _len = self.plan.len();
        let ghost st = self@;
        let ghost pc0 = self.pc as int;
        let ghost p = self.plan@;
        proof {
            crate::posix_lemmas::lemma_dup_null_then_close(st.config, st.supervised, st.lock is Some, pc0);
            crate::posix_lemmas::lemma_dup_null_then_close(
                st.config,
                st.supervised,
                st.lock is Some,
                pc0 + 1,
            );
        }
        let skip = match self.plan[self.pc + 1] {
            Step::DupNull { stream } => stream == self.regs.null_fd,
            Step::CloseNull { stream } => stream == self.regs.null_fd,
            _ => false,
        };
        if skip {
            proof {
                // a close is reached only right after its duplication, which
                // did not touch its own stream; so this is a duplication, and
                // its close follows
                assert(p[pc0 + 1] is DupNull);
                crate::posix_lemmas::lemma_dup_null_then_close(
                    st.config,
                    st.supervised,
                    st.lock is Some,
                    pc0 + 2,
                );
                crate::posix_lemmas::lemma_dup_null_then_close(
                    st.config,
                    st.supervised,
                    st.lock is Some,
                    pc0 + 3,
                );
                assert(!touches_own_stream(p[pc0 + 3], st.regs));
            }
            self.pc = self.pc + 3;
        } else {
            self.pc = self.pc + 1;
        }
        assert(p.take(self.pc as int + 1) =~= p.take(pc0 + 1) + p.subrange(
            pc0 + 1,
            self.pc as int + 1,
        ));
        Action::Call(self.issue())
    }

    /// Takes the answer to the call handed out last and decides what comes
    /// next: the call of the following step, the parent's exit after a fork,
    /// the end of the sequence, or its failure.
    pub fn step(&mut self, answer: Answer) -> (r: Action<Call>)
        requires
            well_formed(old(self)@),
            old(self)@.status == Status::Running,
        ensures
            ({
                let st = old(self)@;
                let s = st.plan[st.pc as int];
                let nx = final(self)@;
                &&& well_formed(nx)
                &&& nx.config == st.config
                &&& nx.supervised == st.supervised
                &&& nx.lock == st.lock
                &&& nx.plan == st.plan
                &&& nx.regs == record(st.regs, s, answer)
                &&& exits(s, answer) ==> nx.pc == st.pc && nx.status == Status::Exited
                    && r is ExitParent
                &&& !exits(s, answer) && !advances(s, answer) ==> {
                    &&& nx.pc == st.pc
                    &&& nx.status == Status::Failed
                    &&& r matches Action::Abort(e) && fails_with(s, answer, st, e)
                }
                &&& advances(s, answer) && st.pc + 1 == st.plan.len() ==> nx.pc == st.pc
                    && nx.status == Status::Finished && r is Finish
                &&& advances(s, answer) && st.pc + 1 < st.plan.len() ==> {
                    &&& nx.pc == next_pc(st.plan, st.pc, nx.regs)
                    &&& nx.pc < st.plan.len()
                    &&& nx.pc == st.pc + 3 ==> st.plan[st.pc as int + 1] is DupNull
                        && st.plan[st.pc as int + 2] is CloseNull
                    &&& nx.status == Status::Running
                    &&& r matches Action::Call(c) && realizes(c, st.plan[nx.pc as int], nx)
                    &&& reached(nx) == reached(st) + st.plan.subrange(
                        st.pc as int + 1,
                        nx.pc as int + 1,
                    )
                }
                &&& !(r is Call) ==> reached(nx) == reached(st)
            }),
    {
        assert(self.pc < self.plan@.len());
        let s = self.plan[self.pc];
        if matches!(s, Step::Fork) && matches!(answer, Answer::Parent) {
            self.status = Status::Exited;
            return Action::ExitParent;
        }
        if !step_advances(s, &answer) {
            let e = self.failure(answer);
            self.status = Status::Failed;
            return Action::Abort(e);
        }
        self.regs = record_answer(self.regs, s, &answer);
        if self.pc == self.plan.len() - 1 {
            self.status = Status::Finished;
            return Action::Finish;
        }
        self.advance()
    }
}

} // verus!

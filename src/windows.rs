//! The Windows daemonization sequence.
//!
//! Windows has no daemon concept: the launcher relaunches its own executable
//! as a detached process that carries a marker variable, and exits. The
//! relaunched process recognizes the marker and does the work itself: it
//! takes a machine-wide named mutex when a name or a pid file is configured,
//! changes directory, writes the pid file, and runs the payload. As no parent
//! watches it, its setup failures are written to the configured error stream
//! before it gives up.

use vstd::prelude::*;
use crate::daemon::{pairs_view, unique_keys, DaemonModel, ForgeDaemon};
use crate::error::{DaemonError, IoError};
use crate::machine::{answer_code, code_of, Action, Answer, Status};
use crate::posix::env_pair_ok;
use crate::stdio::Stdio;
use crate::text::{append_hex, contains_char, decimal, decimal_string, hex_upper};
use vstd::utf8::encode_utf8;
use vstd::string::StrSliceExecFns;

verus! {

/// One step of the Windows sequence.
#[derive(Clone, Copy, Debug, PartialEq, Eq, Structural)]
pub enum WinStep {
    /// Start the detached copy of this program; the launcher then exits.
    Relaunch,
    /// Create the machine-wide named mutex.
    AcquireMutex,
    /// Change to the configured working directory.
    EnterDirectory,
    /// Ask for this process's id.
    QueryPid,
    /// Create or truncate the pid file and write the decimal process id.
    WritePidFile,
    /// Run the payload, exactly once.
    RunPayload,
}

/// A call that the runner performs for the Windows sequence.
#[derive(Debug)]
pub enum WinCall {
    /// Start this executable again with the same arguments, detached and
    /// without a console window, and without waiting for it. Its environment
    /// is the inherited one (emptied first if `clear_env`) with `env` set on
    /// top; each stream is mapped from its binding. Answer `Done` or `Failed`.
    Relaunch {
        clear_env: bool,
        env: Vec<(String, String)>,
        stdin: Stdio,
        stdout: Stdio,
        stderr: Stdio,
    },
    /// `CreateMutexW` with initial ownership; answer `Mutex` or `Failed`.
    /// A handle that is kept is never closed: it holds the lock until the
    /// process ends.
    CreateMutex { name: String },
    /// `CloseHandle(handle)`; the answer is not looked at.
    CloseHandle { handle: u64 },
    /// Change the working directory; answer `Done` or `Failed`.
    ChangeDir { path: String },
    /// Ask for this process's id; answer `Number`.
    GetPid,
    /// Create or truncate `path` and write `text`; answer `Done` or `Failed`.
    WritePidFile { path: String, text: String },
    /// Run the payload; answer `Done` or `PayloadFailed`.
    RunPayload,
    /// Write a line about `error` to the open file `fd` and flush it, as best
    /// one can; the answer is not looked at.
    Report { fd: i32, error: DaemonError },
}

/// The variable that marks the relaunched process.
pub open spec fn marker_var() -> Seq<char> {
    "__DAEMONIZED_INTERNAL_FLAG"@
}

/// The namespace of the named mutexes.
pub open spec fn mutex_prefix() -> Seq<char> {
    "Global\\DaemonForge_"@
}

/// The name of the mutex that keeps one instance: from the daemon's name,
/// else from the upper-case hexadecimal of the pid-file path's bytes.
pub open spec fn mutex_name_of(m: DaemonModel) -> Option<Seq<char>> {
    match m.name {
        Some(n) => Some(mutex_prefix() + n),
        None => match m.pid_file {
            Some(p) => Some(mutex_prefix() + hex_upper(encode_utf8(p))),
            None => None,
        },
    }
}

/// The environment the relaunched process gets on top of the inherited one.
pub open spec fn relaunch_env(m: DaemonModel) -> Seq<(Seq<char>, Seq<char>)> {
    m.env.push((marker_var(), "1"@))
}

/// The file that setup failures of the relaunched process are written to:
/// the error stream's file, else the output stream's file.
pub open spec fn report_fd(m: DaemonModel) -> Option<i32> {
    match m.stderr {
        Stdio::RedirectToFile(fd) => Some(fd),
        _ => match m.stdout {
            Stdio::RedirectToFile(fd) => Some(fd),
            _ => None,
        },
    }
}

/// The Windows sequence: in the launcher only the relaunch; in the
/// relaunched process the optional mutex, the directory, the optional pid
/// file and the payload.
pub open spec fn windows_plan(m: DaemonModel, relaunched: bool) -> Seq<WinStep> {
    if !relaunched {
        seq![WinStep::Relaunch]
    } else {
        (if m.name is Some || m.pid_file is Some {
            seq![WinStep::AcquireMutex]
        } else {
            Seq::empty()
        }) + seq![WinStep::EnterDirectory] + (if m.pid_file is Some {
            seq![WinStep::QueryPid, WinStep::WritePidFile]
        } else {
            Seq::empty()
        }) + seq![WinStep::RunPayload]
    }
}

/// Where a Windows sequence stands besides its step.
#[derive(Clone, Copy, Debug, PartialEq, Eq, Structural)]
pub enum Phase {
    /// Waiting for the answer to the current step's call.
    Working,
    /// The mutex already existed; waiting for its handle to be closed.
    Closing,
    /// Waiting for the failure report to be written.
    Reporting,
}

/// A Windows sequence as mathematical values.
pub struct WindowsState {
    pub config: DaemonModel,
    pub relaunched: bool,
    pub plan: Seq<WinStep>,
    pub pc: nat,
    pub status: Status,
    pub phase: Phase,
    pub pid: u32,
    /// The error that ends the sequence once it is reported.
    pub pending: Option<DaemonError>,
}

/// The call that performs step `s` in state `st`.
pub open spec fn win_realizes(c: WinCall, s: WinStep, st: WindowsState) -> bool {
    let m = st.config;
    match s {
        WinStep::Relaunch => c matches WinCall::Relaunch { clear_env, env, stdin, stdout, stderr }
            && clear_env == m.clear_env && pairs_view(env@) == relaunch_env(m) && stdin == m.stdin
            && stdout == m.stdout && stderr == m.stderr,
        WinStep::AcquireMutex => c matches WinCall::CreateMutex { name } && mutex_name_of(m)
            == Some(name@),
        WinStep::EnterDirectory => c matches WinCall::ChangeDir { path } && path@ == m.directory,
        WinStep::QueryPid => c is GetPid,
        WinStep::WritePidFile => c matches WinCall::WritePidFile { path, text } && m.pid_file
            == Some(path@) && text@ == decimal(st.pid as nat),
        WinStep::RunPayload => c is RunPayload,
    }
}

/// The answer lets the sequence go on past step `s`.
pub open spec fn win_advances(s: WinStep, a: Answer) -> bool {
    match s {
        WinStep::AcquireMutex => a matches Answer::Mutex { existed, .. } && !existed,
        WinStep::QueryPid => a is Number,
        _ => a is Done,
    }
}

/// The answer says the mutex is held by another instance.
pub open spec fn mutex_existed(s: WinStep, a: Answer) -> bool {
    &&& s is AcquireMutex
    &&& a matches Answer::Mutex { existed, .. } && existed
}

/// `e` is the error with which step `s` fails on answer `a`.
pub open spec fn win_fails_with(s: WinStep, a: Answer, e: DaemonError) -> bool {
    match s {
        WinStep::AcquireMutex => e matches DaemonError::Win32Error(c) && c == code_of(a) as u32,
        WinStep::RunPayload => match a {
            Answer::PayloadFailed(p) => e == p,
            _ => e matches DaemonError::Io(IoError::Os(c)) && c == code_of(a),
        },
        _ => e matches DaemonError::Io(IoError::Os(c)) && c == code_of(a),
    }
}

/// Every value that the sequence hands over can be handed over.
pub open spec fn win_config_ok(m: DaemonModel) -> bool {
    forall|i: int| 0 <= i < m.env.len() ==> env_pair_ok(#[trigger] m.env[i].0, m.env[i].1)
}

/// `e` names an environment pair that cannot be handed over.
pub open spec fn describes_env_problem(e: DaemonError, m: DaemonModel) -> bool {
    e matches DaemonError::EnvError(k) && exists|i: int|
        0 <= i < m.env.len() && #[trigger] m.env[i].0 == k@ && !env_pair_ok(k@, m.env[i].1)
}

/// A state that the sequence can be in.
pub open spec fn win_well_formed(st: WindowsState) -> bool {
    &&& unique_keys(st.config.env)
    &&& st.pc < st.plan.len() || (st.plan.len() == 0 && st.pc == 0 && st.status == Status::Failed)
    &&& st.plan.len() > 0 ==> st.plan == windows_plan(st.config, st.relaunched) && win_config_ok(
        st.config,
    )
    &&& st.phase == Phase::Closing ==> st.plan.len() > 0 && st.plan[st.pc as int]
        == WinStep::AcquireMutex
    &&& st.phase == Phase::Reporting <==> st.pending is Some
    &&& st.phase == Phase::Reporting ==> report_fd(st.config) is Some
}

/// The Windows daemonization sequence for one configuration.
pub struct WindowsDaemonizer {
    config: ForgeDaemon,
    relaunched: bool,
    plan: Vec<WinStep>,
    pc: usize,
    status: Status,
    phase: Phase,
    pid: u32,
    pending: Option<DaemonError>,
}

impl View for WindowsDaemonizer {
    type V = WindowsState;

    closed spec fn view(&self) -> WindowsState {
        WindowsState {
            config: self.config@,
            relaunched: self.relaunched,
            plan: self.plan@,
            pc: self.pc as nat,
            status: self.status,
            phase: self.phase,
            pid: self.pid,
            pending: self.pending,
        }
    }
}

/// The name of the mutex that keeps one instance, if any.
pub fn mutex_name(config: &ForgeDaemon) -> (r: Option<String>)
    ensures
        crate::daemon::opt_view(r) == mutex_name_of(config@),
{
    match config.get_name() {
        Some(n) => {
            let mut s = String::from_str("Global\\DaemonForge_");
            s.append(n);
            Some(s)
        },
        None => match config.pid_file_path() {
            Some(p) => {
                let mut s = String::from_str("Global\\DaemonForge_");
                append_hex(&mut s, p.as_bytes());
                Some(s)
            },
            None => None,
        },
    }
}

fn plan_windows(config: &ForgeDaemon, relaunched: bool) -> (r: Vec<WinStep>)
    ensures
        r@ == windows_plan(config@, relaunched),
{
    let mut v: Vec<WinStep> = Vec::new();
    if !relaunched {
        v.push(WinStep::Relaunch);
    } else {
        if config.get_name().is_some() || config.pid_file_path().is_some() {
            v.push(WinStep::AcquireMutex);
        }
        v.push(WinStep::EnterDirectory);
        if config.pid_file_path().is_some() {
            v.push(WinStep::QueryPid);
            v.push(WinStep::WritePidFile);
        }
        v.push(WinStep::RunPayload);
    }
    assert(v@ =~= windows_plan(config@, relaunched));
    v
}

fn copy_pairs(v: &Vec<(String, String)>) -> (r: Vec<(String, String)>)
    ensures
        pairs_view(r@) == pairs_view(v@),
{
    let mut out: Vec<(String, String)> = Vec::new();
    let mut i: usize = 0;
    while i < v.len()
        invariant
            i <= v@.len(),
            pairs_view(out@) == pairs_view(v@.subrange(0, i as int)),
        decreases v@.len() - i,
    {
        out.push((v[i].0.clone(), v[i].1.clone()));
        proof {
            assert(pairs_view(v@.subrange(0, i + 1)) =~= pairs_view(v@.subrange(0, i as int)).push(
                (v@[i as int].0@, v@[i as int].1@),
            ));
        }
        i = i + 1;
    }
    assert(v@.subrange(0, v@.len() as int) =~= v@);
    out
}

fn win_validate(config: &ForgeDaemon) -> (r: Result<(), DaemonError>)
    ensures
        r is Ok <==> win_config_ok(config@),
        r matches Err(e) ==> describes_env_problem(e, config@),
{
    let env = config.environment();
    let mut i: usize = 0;
    while i < env.len()
        invariant
            pairs_view(env@) == config@.env,
            i <= env@.len(),
            forall|j: int|
                0 <= j < i ==> env_pair_ok(#[trigger] config@.env[j].0, config@.env[j].1),
        decreases env@.len() - i,
    {
        let key = env[i].0.as_str();
        let value = env[i].1.as_str();
        assert(config@.env[i as int] == (key@, value@));
        if key.unicode_len() == 0 || contains_char(key, '=') || contains_char(key, '\0')
            || contains_char(value, '\0') {
            assert(!env_pair_ok(config@.env[i as int].0, config@.env[i as int].1));
            return Err(DaemonError::EnvError(String::from_str(key)));
        }
        i = i + 1;
    }
    Ok(())
}


/// A failure at the current step is written to the report file first: in
/// the relaunched process, for any step but the payload, when there is one.
pub open spec fn will_report(st: WindowsState) -> bool {
    &&& st.relaunched
    &&& st.plan[st.pc as int] != WinStep::RunPayload
    &&& report_fd(st.config) is Some
}

/// The sequence gives up with `e`: through a report, or at once.
pub open spec fn gives_up(st: WindowsState, nx: WindowsState, r: Action<WinCall>, e: DaemonError) -> bool {
    if will_report(st) {
        &&& nx.status == Status::Running
        &&& nx.phase == Phase::Reporting
        &&& nx.pending == Some(e)
        &&& r matches Action::Call(WinCall::Report { fd, error }) && report_fd(st.config) == Some(
            fd,
        ) && error == e
    } else {
        &&& nx.status == Status::Failed
        &&& nx.phase == st.phase
        &&& nx.pending == st.pending
        &&& r matches Action::Abort(x) && x == e
    }
}

fn report_target(config: &ForgeDaemon) -> (r: Option<i32>)
    ensures
        r == report_fd(config@),
{
    let (_, stdout, stderr) = config.streams();
    match stderr {
        Stdio::RedirectToFile(fd) => Some(fd),
        _ => match stdout {
            Stdio::RedirectToFile(fd) => Some(fd),
            _ => None,
        },
    }
}

impl WindowsDaemonizer {
    /// Whether the sequence waits for the answer to a call.
    pub fn is_running(&self) -> (r: bool)
        ensures
            r == (self@.status == Status::Running),
    {
        self.status == Status::Running
    }

    fn issue(&self) -> (c: WinCall)
        requires
            win_well_formed(self@),
            self@.plan.len() > 0,
        ensures
            win_realizes(c, self@.plan[self@.pc as int], self@),
    {
        match self.plan[self.pc] {
            WinStep::Relaunch => {
                let mut env = copy_pairs(self.config.environment());
                proof {
                    reveal_strlit("1");
                }
                let ghost before = env@;
                env.push((String::from_str("__DAEMONIZED_INTERNAL_FLAG"), String::from_str("1")));
                assert(pairs_view(env@) =~= pairs_view(before).push(
                    (marker_var(), "1"@),
                ));
                let (stdin, stdout, stderr) = self.config.streams();
                WinCall::Relaunch {
                    clear_env: self.config.clears_env(),
                    env,
                    stdin,
                    stdout,
                    stderr,
                }
            },
            WinStep::AcquireMutex => {
                let name = mutex_name(&self.config);
                WinCall::CreateMutex { name: name.unwrap() }
            },
            WinStep::EnterDirectory => WinCall::ChangeDir {
                path: String::from_str(self.config.working_directory_path()),
            },
            WinStep::QueryPid => WinCall::GetPid,
            WinStep::WritePidFile => WinCall::WritePidFile {
                path: String::from_str(self.config.pid_file_path().unwrap()),
                text: decimal_string(self.pid),
            },
            WinStep::RunPayload => WinCall::RunPayload,
        }
    }

    fn give_up(&mut self, e: DaemonError) -> (r: Action<WinCall>)
        requires
            win_well_formed(old(self)@),
            old(self)@.status == Status::Running,
            old(self)@.phase != Phase::Reporting,
            old(self)@.plan.len() > 0,
        ensures
            gives_up(old(self)@, final(self)@, r, e),
            win_well_formed(final(self)@),
            final(self)@.config == old(self)@.config,
            final(self)@.relaunched == old(self)@.relaunched,
            final(self)@.plan == old(self)@.plan,
            final(self)@.pc == old(self)@.pc,
            final(self)@.pid == old(self)@.pid,
    {
        let target = report_target(&self.config);
        if self.relaunched && !matches!(self.plan[self.pc], WinStep::RunPayload) && target.is_some() {
            let copy = e.duplicate();
            self.pending = Some(e);
            self.phase = Phase::Reporting;
            Action::Call(WinCall::Report { fd: target.unwrap(), error: copy })
        } else {
            self.status = Status::Failed;
            Action::Abort(e)
        }
    }

    /// Starts the sequence for `config`. `relaunched` says whether the marker
    /// variable is present, that is whether this process is the detached
    /// copy. Environment pairs that cannot be handed over fail the sequence
    /// before its first call.
    pub fn begin(config: ForgeDaemon, relaunched: bool) -> (r: (WindowsDaemonizer, Action<WinCall>))
        ensures
            win_well_formed(r.0@),
            r.0@.config == config@,
            r.0@.relaunched == relaunched,
            r.0@.pc == 0,
            r.0@.phase == Phase::Working,
            win_config_ok(config@) ==> {
                &&& r.0@.plan == windows_plan(config@, relaunched)
                &&& r.0@.status == Status::Running
                &&& r.1 matches Action::Call(c) && win_realizes(c, r.0@.plan[0], r.0@)
            },
            !win_config_ok(config@) ==> {
                &&& r.0@.plan.len() == 0
                &&& r.0@.status == Status::Failed
                &&& r.1 matches Action::Abort(e) && describes_env_problem(e, config@)
            },
    {
        let checked = win_validate(&config);
        // the names of the environment pairs are distinct
        let _ = config.environment();
        match checked {
            Err(e) => {
                let d = WindowsDaemonizer {
                    config,
                    relaunched,
                    plan: Vec::new(),
                    pc: 0,
                    status: Status::Failed,
                    phase: Phase::Working,
                    pid: 0,
                    pending: None,
                };
                (d, Action::Abort(e))
            },
            Ok(()) => {
                let plan = plan_windows(&config, relaunched);
                let d = WindowsDaemonizer {
                    config,
                    relaunched,
                    plan,
                    pc: 0,
                    status: Status::Running,
                    phase: Phase::Working,
                    pid: 0,
                    pending: None,
                };
                let c = d.issue();
                (d, Action::Call(c))
            },
        }
    }

    /// Takes the answer to the call handed out last and decides what comes
    /// next.
    pub fn step(&mut self, answer: Answer) -> (r: Action<WinCall>)
        requires
            win_well_formed(old(self)@),
            old(self)@.status == Status::Running,
        ensures
            ({
                let st = old(self)@;
                let s = st.plan[st.pc as int];
                let nx = final(self)@;
                &&& win_well_formed(nx)
                &&& nx.config == st.config
                &&& nx.relaunched == st.relaunched
                &&& nx.plan == st.plan
                &&& st.phase == Phase::Reporting ==> {
                    &&& nx.status == Status::Failed
                    &&& st.pending matches Some(e) && r matches Action::Abort(x) && x == e
                }
                &&& st.phase == Phase::Closing ==> gives_up(st, nx, r, DaemonError::TargetLocked)
                &&& st.phase == Phase::Working && s is Relaunch && answer is Done ==> {
                    &&& nx.status == Status::Exited
                    &&& r is ExitParent
                }
                &&& st.phase == Phase::Working && mutex_existed(s, answer) ==> {
                    &&& nx.status == Status::Running
                    &&& nx.phase == Phase::Closing
                    &&& nx.pc == st.pc
                    &&& answer matches Answer::Mutex { handle, .. } && r matches Action::Call(
                        WinCall::CloseHandle { handle: h },
                    ) && h == handle
                }
                &&& st.phase == Phase::Working && !mutex_existed(s, answer) && !win_advances(
                    s,
                    answer,
                ) ==> exists|e: DaemonError| win_fails_with(s, answer, e) && gives_up(st, nx, r, e)
                &&& st.phase == Phase::Working && !(s is Relaunch) && win_advances(s, answer) ==> {
                    &&& nx.pid == (if s is QueryPid {
                        answer->Number_0
                    } else {
                        st.pid
                    })
                    &&& st.pc + 1 == st.plan.len() ==> nx.status == Status::Finished && r is Finish
                    &&& st.pc + 1 < st.plan.len() ==> {
                        &&& nx.pc == st.pc + 1
                        &&& nx.status == Status::Running
                        &&& nx.phase == Phase::Working
                        &&& r matches Action::Call(c) && win_realizes(c, st.plan[nx.pc as int], nx)
                    }
                }
            }),
    {
        assert(self.pc < self.plan@.len());
        if matches!(self.phase, Phase::Reporting) {
            self.status = Status::Failed;
            let e = self.pending.take().unwrap();
            self.pending = Some(e.duplicate());
            return Action::Abort(e);
        }
        if matches!(self.phase, Phase::Closing) {
            return self.give_up(DaemonError::TargetLocked);
        }
        let s = self.plan[self.pc];
        if matches!(s, WinStep::Relaunch) && matches!(answer, Answer::Done) {
            self.status = Status::Exited;
            return Action::ExitParent;
        }
        match (s, &answer) {
            (WinStep::AcquireMutex, Answer::Mutex { handle, existed: true }) => {
                self.phase = Phase::Closing;
                return Action::Call(WinCall::CloseHandle { handle: *handle });
            },
            _ => {},
        }
        let advanced = match s {
            WinStep::AcquireMutex => matches!(answer, Answer::Mutex { existed: false, .. }),
            WinStep::QueryPid => matches!(answer, Answer::Number(_)),
            _ => matches!(answer, Answer::Done),
        };
        if !advanced {
            let code = answer_code(&answer);
            let e = match s {
                WinStep::AcquireMutex => DaemonError::Win32Error(code as u32),
                WinStep::RunPayload => match answer {
                    Answer::PayloadFailed(p) => p,
                    _ => DaemonError::Io(IoError::Os(code)),
                },
                _ => DaemonError::Io(IoError::Os(code)),
            };
            assert(win_fails_with(s, answer, e));
            return self.give_up(e);
        }
        match answer {
            Answer::Number(p) => {
                if matches!(s, WinStep::QueryPid) {
                    self.pid = p;
                }
            },
            _ => {},
        }
        if self.pc == self.plan.len() - 1 {
            self.status = Status::Finished;
            return Action::Finish;
        }
        self.pc = self.pc + 1;
        Action::Call(self.issue())
    }
}


/// In the relaunched process a named mutex is requested exactly when a name
/// or a pid file is configured, and then under a name derived from them.
/// Without either no instance lock is taken, so concurrent starts do not
/// exclude each other: `TargetLocked` comes only from an already existing
/// mutex (or from the payload itself), never from a failed step.
pub proof fn lemma_windows_single_instance(m: DaemonModel)
    ensures
        ({
            let p = windows_plan(m, true);
            (exists|k: int| 0 <= k < p.len() && #[trigger] p[k] == WinStep::AcquireMutex) <==> (
            m.name is Some || m.pid_file is Some)
        }),
        m.name is Some || m.pid_file is Some ==> mutex_name_of(m) is Some,
        forall|s: WinStep, a: Answer, e: DaemonError|
            #[trigger] win_fails_with(s, a, e) && e is TargetLocked ==> s is RunPayload
                && a == Answer::PayloadFailed(e),
{
    let p = windows_plan(m, true);
    let lk: Seq<WinStep> = if m.name is Some || m.pid_file is Some {
        seq![WinStep::AcquireMutex]
    } else {
        Seq::empty()
    };
    let pf: Seq<WinStep> = if m.pid_file is Some {
        seq![WinStep::QueryPid, WinStep::WritePidFile]
    } else {
        Seq::empty()
    };
    let rest = seq![WinStep::EnterDirectory] + pf + seq![WinStep::RunPayload];
    assert(p =~= lk + rest);
    assert forall|k: int| 0 <= k < rest.len() implies #[trigger] rest[k] != WinStep::AcquireMutex by {
        if k == 0 {
        } else if k < 1 + pf.len() {
            assert(rest[k] == pf[k - 1]);
        } else {
            assert(rest[k] == WinStep::RunPayload);
        }
    }
    if m.name is Some || m.pid_file is Some {
        assert(p[0] == WinStep::AcquireMutex);
    } else {
        assert(p =~= rest);
    }
}

} // verus!

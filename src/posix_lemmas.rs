//! What the POSIX sequence guarantees by its order.

use vstd::prelude::*;
use crate::daemon::{env_map, unique_keys, DaemonModel, EnvSeq};
use crate::machine::{Answer, Status};
use crate::posix::{
    advances, context_steps, detach_steps, drop_steps, env_steps, exits, fails_with, reached,
    lock_steps, chown_steps, posix_plan, redirect_steps, set_env_steps, stream_steps, well_formed,
    PosixState, Step, STDERR_FD, STDIN_FD, STDOUT_FD,
};
use crate::stdio::Stdio;
use crate::text::{all_digits, decimal, decimal_value, lemma_decimal_round_trip};

verus! {

/// Where a step stands in the fixed order of the sequence.
pub open spec fn rank(s: Step) -> int {
    match s {
        Step::Fork | Step::NewSession | Step::OpenNull { .. } | Step::DupNull { .. }
        | Step::CloseNull { .. } | Step::DupFile { .. } | Step::NotifyReady => 0,
        Step::ClearEnv => 10,
        Step::SetEnv { .. } => 11,
        Step::SetUmask { .. } => 20,
        Step::EnterDirectory => 21,
        Step::ChangeRoot => 22,
        Step::EnterRoot => 23,
        Step::OpenPidFile => 30,
        Step::LockPidFile => 31,
        Step::QueryPid => 32,
        Step::WritePid => 33,
        Step::FindOwner => 34,
        Step::FindOwnerGroup => 35,
        Step::ChangeOwner => 36,
        Step::RunPayload => 40,
        Step::FindGroup => 50,
        Step::SetGroup => 51,
        Step::FindUser => 52,
        Step::SetUser => 53,
    }
}

pub open spec fn ranks_sorted(p: Seq<Step>) -> bool {
    forall|i: int, j: int| 0 <= i <= j < p.len() ==> rank(#[trigger] p[i]) <= rank(#[trigger] p[j])
}

pub open spec fn ranks_within(p: Seq<Step>, lo: int, hi: int) -> bool {
    forall|i: int| 0 <= i < p.len() ==> lo <= #[trigger] rank(p[i]) <= hi
}

proof fn lemma_sorted_concat(a: Seq<Step>, b: Seq<Step>, alo: int, t: int, bhi: int)
    requires
        alo <= t <= bhi,
        ranks_sorted(a),
        ranks_sorted(b),
        ranks_within(a, alo, t),
        ranks_within(b, t, bhi),
    ensures
        ranks_sorted(a + b),
        ranks_within(a + b, alo, bhi),
{
    let c = a + b;
    assert forall|i: int, j: int| 0 <= i <= j < c.len() implies rank(#[trigger] c[i]) <= rank(
        #[trigger] c[j],
    ) by {
        if j < a.len() {
            assert(c[i] == a[i] && c[j] == a[j]);
        } else if i >= a.len() {
            assert(c[i] == b[i - a.len()] && c[j] == b[j - a.len()]);
        } else {
            assert(c[i] == a[i] && c[j] == b[j - a.len()]);
        }
    }
    assert forall|i: int| 0 <= i < c.len() implies alo <= #[trigger] rank(c[i]) <= bhi by {
        if i < a.len() {
            assert(c[i] == a[i]);
        } else {
            assert(c[i] == b[i - a.len()]);
        }
    }
}

proof fn lemma_detach_rank(m: DaemonModel, supervised: bool)
    ensures
        ranks_sorted(detach_steps(m, supervised)),
        ranks_within(detach_steps(m, supervised), 0, 0),
{
    let d = detach_steps(m, supervised);
    assert forall|i: int| 0 <= i < d.len() implies 0 <= #[trigger] rank(d[i]) <= 0 by {
        let r = redirect_steps(m);
        let a = stream_steps(m.stdin, STDIN_FD);
        let b = stream_steps(m.stdout, STDOUT_FD);
        let c = stream_steps(m.stderr, STDERR_FD);
        assert forall|k: int| 0 <= k < r.len() implies rank(#[trigger] r[k]) == 0 by {
            if k < a.len() {
                assert(r[k] == a[k]);
            } else if k < a.len() + b.len() {
                assert(r[k] == b[k - a.len()]);
            } else {
                assert(r[k] == c[k - a.len() - b.len()]);
            }
        }
        if supervised {
            if i < r.len() {
                assert(d[i] == r[i]);
            }
        } else {
            if 2 <= i < 2 + r.len() as int {
                assert(d[i] == r[i - 2]);
            }
        }
    }
}

proof fn lemma_env_rank(m: DaemonModel)
    ensures
        ranks_sorted(env_steps(m)),
        ranks_within(env_steps(m), 10, 11),
{
    let c: Seq<Step> = if m.clear_env {
        seq![Step::ClearEnv]
    } else {
        Seq::empty()
    };
    let s = set_env_steps(m.env.len());
    assert(ranks_within(s, 11, 11));
    assert(ranks_within(c, 10, 10));
    lemma_sorted_concat(c, s, 10, 11, 11);
}

proof fn lemma_context_rank(m: DaemonModel)
    ensures
        ranks_sorted(context_steps(m)),
        ranks_within(context_steps(m), 20, 23),
{
    let u: Seq<Step> = match m.umask {
        Some(mask) => seq![Step::SetUmask { mask }],
        None => Seq::empty(),
    };
    let rt: Seq<Step> = if m.root is Some {
        seq![Step::ChangeRoot, Step::EnterRoot]
    } else {
        Seq::empty()
    };
    assert(ranks_within(u, 20, 20));
    assert(ranks_within(seq![Step::EnterDirectory], 21, 21));
    assert(ranks_sorted(rt));
    assert(ranks_within(rt, 22, 23));
    lemma_sorted_concat(u, seq![Step::EnterDirectory], 20, 21, 21);
    lemma_sorted_concat(u + seq![Step::EnterDirectory], rt, 20, 22, 23);
}

proof fn lemma_lock_rank(m: DaemonModel, locked: bool)
    ensures
        ranks_sorted(lock_steps(m, locked)),
        ranks_within(lock_steps(m, locked), 30, 36),
{
    if locked {
        let w = seq![Step::OpenPidFile, Step::LockPidFile, Step::QueryPid, Step::WritePid];
        assert(ranks_sorted(w));
        assert(ranks_within(w, 30, 33));
        if m.chown_pid {
            let ou: Seq<Step> = if m.user is Some {
                seq![Step::FindOwner]
            } else {
                Seq::empty()
            };
            let og: Seq<Step> = if m.group is Some {
                seq![Step::FindOwnerGroup]
            } else {
                Seq::empty()
            };
            assert(ranks_within(ou, 34, 34));
            assert(ranks_within(og, 35, 35));
            assert(ranks_within(seq![Step::ChangeOwner], 36, 36));
            lemma_sorted_concat(ou, og, 34, 35, 35);
            lemma_sorted_concat(ou + og, seq![Step::ChangeOwner], 34, 36, 36);
            lemma_sorted_concat(w, chown_steps(m), 30, 34, 36);
        } else {
            assert(chown_steps(m) =~= Seq::empty());
            assert(lock_steps(m, locked) =~= w);
        }
    }
}

proof fn lemma_drop_rank(m: DaemonModel)
    ensures
        ranks_sorted(drop_steps(m)),
        ranks_within(drop_steps(m), 50, 53),
{
    let gs: Seq<Step> = if m.group is Some {
        seq![Step::FindGroup, Step::SetGroup]
    } else {
        Seq::empty()
    };
    let us: Seq<Step> = if m.user is Some {
        seq![Step::FindUser, Step::SetUser]
    } else {
        Seq::empty()
    };
    assert(ranks_sorted(gs));
    assert(ranks_sorted(us));
    assert(ranks_within(gs, 50, 51));
    assert(ranks_within(us, 52, 53));
    lemma_sorted_concat(gs, us, 50, 52, 53);
}

/// The steps come in the fixed order of the sequence: detachment, the
/// environment, the process context, the pid-file lock, the payload, then
/// the group and user switch.
pub proof fn lemma_plan_sorted(m: DaemonModel, supervised: bool, locked: bool)
    ensures
        ranks_sorted(posix_plan(m, supervised, locked)),
{
    lemma_detach_rank(m, supervised);
    lemma_env_rank(m);
    lemma_context_rank(m);
    lemma_lock_rank(m, locked);
    lemma_drop_rank(m);
    let d = detach_steps(m, supervised);
    let e = env_steps(m);
    let c = context_steps(m);
    let l = lock_steps(m, locked);
    lemma_sorted_concat(d, e, 0, 10, 11);
    lemma_sorted_concat(d + e, c, 0, 20, 23);
    lemma_sorted_concat(d + e + c, l, 0, 30, 36);
    assert(ranks_within(seq![Step::RunPayload], 40, 40));
    lemma_sorted_concat(d + e + c + l, seq![Step::RunPayload], 0, 40, 40);
    lemma_sorted_concat(d + e + c + l + seq![Step::RunPayload], drop_steps(m), 0, 50, 53);
}

/// With both a group and a user configured, a failed group lookup ends the
/// sequence before the user was looked up or switched: the sequence fails
/// with `GroupNotFound`, and no user step is among the steps reached.
pub proof fn lemma_no_user_switch_after_group_failure(st: PosixState, answer: Answer)
    requires
        well_formed(st),
        st.status == Status::Running,
        st.config.group is Some,
        st.config.user is Some,
        st.plan[st.pc as int] == Step::FindGroup,
        !(answer is Number),
    ensures
        !advances(Step::FindGroup, answer),
        !exits(Step::FindGroup, answer),
        forall|k: int|
            0 <= k < reached(st).len() ==> !(#[trigger] reached(st)[k] is FindUser) && !(
            reached(st)[k] is SetUser),
{
    lemma_plan_sorted(st.config, st.supervised, st.lock is Some);
    assert forall|k: int| 0 <= k < reached(st).len() implies !(
    #[trigger] reached(st)[k] is FindUser) && !(reached(st)[k] is SetUser) by {
        assert(reached(st)[k] == st.plan[k]);
        assert(rank(st.plan[k]) <= rank(st.plan[st.pc as int]));
    }
}

/// When the pid-file lock is held by another process, the sequence fails with
/// `TargetLocked` and has never asked to write the pid file: the other
/// process's pid file keeps its content.
pub proof fn lemma_busy_lock_keeps_pid_file(st: PosixState, answer: Answer)
    requires
        well_formed(st),
        st.status == Status::Running,
        st.plan[st.pc as int] == Step::LockPidFile,
        answer is Busy,
    ensures
        !advances(Step::LockPidFile, answer),
        !exits(Step::LockPidFile, answer),
        forall|e| fails_with(Step::LockPidFile, answer, st, e) <==> e is TargetLocked,
        forall|k: int| 0 <= k < reached(st).len() ==> #[trigger] reached(st)[k] != Step::WritePid,
{
    lemma_plan_sorted(st.config, st.supervised, st.lock is Some);
    assert forall|k: int| 0 <= k < reached(st).len() implies #[trigger] reached(st)[k]
        != Step::WritePid by {
        assert(reached(st)[k] == st.plan[k]);
        assert(rank(st.plan[k]) <= rank(st.plan[st.pc as int]));
    }
}


/// The sequence split at the payload, with the rank bounds of each part.
proof fn lemma_plan_layout(m: DaemonModel, supervised: bool, locked: bool)
    ensures
        ({
            let d = detach_steps(m, supervised);
            let e = env_steps(m);
            let c = context_steps(m);
            let l = lock_steps(m, locked);
            let p = posix_plan(m, supervised, locked);
            &&& p == d + e + c + l + seq![Step::RunPayload] + drop_steps(m)
            &&& ranks_within(d + e + c, 0, 23)
            &&& ranks_within(d + e + c + l, 0, 36)
            &&& ranks_within(l, 30, 36)
            &&& ranks_within(drop_steps(m), 50, 53)
            &&& ranks_sorted(p)
        }),
{
    lemma_detach_rank(m, supervised);
    lemma_env_rank(m);
    lemma_context_rank(m);
    lemma_lock_rank(m, locked);
    lemma_drop_rank(m);
    let d = detach_steps(m, supervised);
    let e = env_steps(m);
    let c = context_steps(m);
    let l = lock_steps(m, locked);
    lemma_sorted_concat(d, e, 0, 10, 11);
    lemma_sorted_concat(d + e, c, 0, 20, 23);
    lemma_sorted_concat(d + e + c, l, 0, 30, 36);
    lemma_plan_sorted(m, supervised, locked);
}

/// In a sequence in rank order, a step of lower rank comes first.
proof fn lemma_locate(p: Seq<Step>, i: int, j: int)
    requires
        ranks_sorted(p),
        0 <= i < p.len(),
        0 <= j < p.len(),
        rank(p[i]) < rank(p[j]),
    ensures
        i < j,
{
    if j <= i {
        assert(rank(p[j]) <= rank(p[i]));
    }
}

/// The payload step occurs exactly once, after the pid-file steps and before
/// the privilege drop.
pub proof fn lemma_payload_once(m: DaemonModel, supervised: bool, locked: bool)
    ensures
        ({
            let p = posix_plan(m, supervised, locked);
            let k = p.len() - drop_steps(m).len() - 1;
            &&& 0 <= k < p.len()
            &&& p[k] == Step::RunPayload
            &&& forall|j: int| 0 <= j < p.len() && #[trigger] p[j] == Step::RunPayload ==> j == k
        }),
{
    lemma_plan_layout(m, supervised, locked);
    let a = detach_steps(m, supervised) + env_steps(m) + context_steps(m) + lock_steps(m, locked);
    let dr = drop_steps(m);
    let p = posix_plan(m, supervised, locked);
    let k = p.len() - dr.len() - 1;
    assert(k == a.len());
    assert(p[k] == Step::RunPayload);
    assert forall|j: int| 0 <= j < p.len() && #[trigger] p[j] == Step::RunPayload implies j
        == k by {
        if j < k {
            assert(p[j] == a[j]);
        } else if j > k {
            assert(p[j] == dr[j - k - 1]);
        }
    }
}

/// Once the lock is held and the process id `pid` is learnt, the next step
/// writes the pid file, whose new content is the decimal rendering of `pid`:
/// digits only, reading back as `pid`.
#[verifier::rlimit(40)]
pub proof fn lemma_pid_file_holds_new_pid(st: PosixState, pid: u32)
    requires
        well_formed(st),
        st.status == Status::Running,
        st.plan[st.pc as int] == Step::QueryPid,
    ensures
        advances(Step::QueryPid, Answer::Number(pid)),
        st.pc + 1 < st.plan.len(),
        st.plan[st.pc as int + 1] == Step::WritePid,
        crate::posix::record(st.regs, Step::QueryPid, Answer::Number(pid)).pid == pid,
        all_digits(decimal(pid as nat)),
        decimal_value(decimal(pid as nat)) == pid,
{
    let m = st.config;
    let locked = st.lock is Some;
    lemma_plan_layout(m, st.supervised, locked);
    lemma_decimal_round_trip(pid as nat);
    let pre = detach_steps(m, st.supervised) + env_steps(m) + context_steps(m);
    let l = lock_steps(m, locked);
    let p = st.plan;
    let a = pre + l;
    let pc = st.pc as int;
    if pc < pre.len() {
        assert(p[pc] == a[pc] && a[pc] == pre[pc]);
    } else if pc >= a.len() {
        if pc > a.len() {
            assert(p[pc] == drop_steps(m)[pc - a.len() - 1]);
        }
    } else {
        assert(p[pc] == a[pc] && a[pc] == l[pc - pre.len()]);
    }
    assert(locked);
    let w = seq![Step::OpenPidFile, Step::LockPidFile, Step::QueryPid, Step::WritePid];
    assert(l == w + chown_steps(m));
    let b = pre.len() as int;
    assert(p[b + 1] == Step::LockPidFile) by {
        assert(p[b + 1] == a[b + 1] && a[b + 1] == l[1] && l[1] == w[1]);
    }
    assert(p[b + 3] == Step::WritePid) by {
        assert(p[b + 3] == a[b + 3] && a[b + 3] == l[3] && l[3] == w[3]);
    }
    lemma_locate(p, b + 1, pc);
    lemma_locate(p, pc, b + 3);
    assert(pc == b + 2);
}

/// With a chroot configured, changing the root is immediately followed by
/// changing to `/` inside it, and the configured working directory is
/// entered before the root changes.
pub proof fn lemma_chroot_enters_new_root(m: DaemonModel, supervised: bool, locked: bool)
    requires
        m.root is Some,
    ensures
        ({
            let p = posix_plan(m, supervised, locked);
            &&& exists|k: int| 0 <= k < p.len() && #[trigger] p[k] == Step::ChangeRoot
            &&& forall|k: int|
                0 <= k < p.len() && #[trigger] p[k] == Step::ChangeRoot ==> k + 1 < p.len()
                    && p[k + 1] == Step::EnterRoot
            &&& forall|k: int, j: int|
                0 <= k < p.len() && 0 <= j < p.len() && #[trigger] p[k] == Step::ChangeRoot
                    && #[trigger] p[j] == Step::EnterDirectory ==> j < k
        }),
{
    lemma_plan_layout(m, supervised, locked);
    let p = posix_plan(m, supervised, locked);
    let de = detach_steps(m, supervised) + env_steps(m);
    let c = context_steps(m);
    let u: Seq<Step> = match m.umask {
        Some(mask) => seq![Step::SetUmask { mask }],
        None => Seq::empty(),
    };
    let b = de.len() + u.len() as int;
    let a = de + c + lock_steps(m, locked);
    assert(c == u + seq![Step::EnterDirectory] + seq![Step::ChangeRoot, Step::EnterRoot]);
    assert(p[b] == Step::EnterDirectory) by {
        assert(p[b] == a[b] && a[b] == (de + c)[b] && (de + c)[b] == c[b - de.len()]);
    }
    assert(p[b + 1] == Step::ChangeRoot) by {
        assert(p[b + 1] == a[b + 1] && a[b + 1] == (de + c)[b + 1] && (de + c)[b + 1] == c[b
            + 1 - de.len()]);
    }
    assert(p[b + 2] == Step::EnterRoot) by {
        assert(p[b + 2] == a[b + 2] && a[b + 2] == (de + c)[b + 2] && (de + c)[b + 2] == c[b
            + 2 - de.len()]);
    }
    assert forall|k: int| 0 <= k < p.len() && #[trigger] p[k] == Step::ChangeRoot implies k
        + 1 < p.len() && p[k + 1] == Step::EnterRoot by {
        lemma_locate(p, b, k);
        lemma_locate(p, k, b + 2);
    }
    assert forall|k: int, j: int|
        0 <= k < p.len() && 0 <= j < p.len() && #[trigger] p[k] == Step::ChangeRoot
            && #[trigger] p[j] == Step::EnterDirectory implies j < k by {
        lemma_locate(p, j, k);
    }
}

/// Without a supervisor the process forks, starts a new session, binds its
/// three streams and forks again, before any other step; the parent of each
/// fork exits at once. The payload runs only after the second fork.
pub proof fn lemma_double_fork(m: DaemonModel, locked: bool)
    ensures
        ({
            let p = posix_plan(m, false, locked);
            let r = redirect_steps(m);
            &&& p[0] == Step::Fork
            &&& p[1] == Step::NewSession
            &&& p.subrange(2, 2 + r.len() as int) == r
            &&& p[2 + r.len() as int] == Step::Fork
            &&& forall|k: int|
                0 <= k < p.len() && #[trigger] p[k] == Step::RunPayload ==> (2 + r.len() as int) < k
        }),
        exits(Step::Fork, Answer::Parent),
{
    lemma_plan_layout(m, false, locked);
    let p = posix_plan(m, false, locked);
    let r = redirect_steps(m);
    let d = detach_steps(m, false);
    let a = d + env_steps(m) + context_steps(m) + lock_steps(m, locked);
    assert(d == seq![Step::Fork, Step::NewSession] + r + seq![Step::Fork]);
    assert forall|k: int| 0 <= k < d.len() implies #[trigger] p[k] == d[k] by {
        assert(p[k] == a[k]);
    }
    assert(p[0] == d[0]);
    assert(p[1] == d[1]);
    assert(p[2 + r.len() as int] == d[2 + r.len() as int]);
    assert(p.subrange(2, 2 + r.len() as int) =~= r) by {
        assert forall|k: int| 0 <= k < r.len() implies p.subrange(2, 2 + r.len() as int)[k] == r[k] by {
            assert(p[2 + k] == d[2 + k]);
        }
    }
    assert forall|k: int| 0 <= k < p.len() && #[trigger] p[k] == Step::RunPayload implies 2
        + r.len() < k by {
        if k <= 2 + r.len() as int {
            assert(p[k] == d[k]);
        }
    }
}


/// Step `s` binds descriptor `stream`.
pub open spec fn binds(s: Step, stream: i32) -> bool {
    match s {
        Step::DupNull { stream: t } => t == stream,
        Step::DupFile { stream: t, .. } => t == stream,
        _ => false,
    }
}

/// The configured binding of descriptor `stream` (0, 1 or 2).
pub open spec fn binding_of(m: DaemonModel, stream: i32) -> Stdio {
    if stream == STDIN_FD {
        m.stdin
    } else if stream == STDOUT_FD {
        m.stdout
    } else {
        m.stderr
    }
}

pub open spec fn every(p: Seq<Step>, f: spec_fn(Step) -> bool) -> bool {
    forall|k: int| 0 <= k < p.len() ==> f(#[trigger] p[k])
}

proof fn lemma_every_concat(a: Seq<Step>, b: Seq<Step>, f: spec_fn(Step) -> bool)
    requires
        every(a, f),
        every(b, f),
    ensures
        every(a + b, f),
{
    assert forall|k: int| 0 <= k < (a + b).len() implies f(#[trigger] (a + b)[k]) by {
        if k < a.len() {
            assert((a + b)[k] == a[k]);
        } else {
            assert((a + b)[k] == b[k - a.len()]);
        }
    }
}

proof fn lemma_every_by_rank(p: Seq<Step>, lo: int, hi: int, f: spec_fn(Step) -> bool)
    requires
        ranks_within(p, lo, hi),
        forall|s: Step| lo <= rank(s) <= hi ==> #[trigger] f(s),
    ensures
        every(p, f),
{
    assert forall|k: int| 0 <= k < p.len() implies f(#[trigger] p[k]) by {
        assert(lo <= rank(p[k]) <= hi);
    }
}

/// A stream bound to an open file is duplicated from that file once, before
/// the payload runs, and no other step binds that stream: what the payload
/// writes to it goes to the file.
pub proof fn lemma_redirected_stream(
    m: DaemonModel,
    supervised: bool,
    locked: bool,
    stream: i32,
    fd: i32,
)
    requires
        0 <= stream <= 2,
        binding_of(m, stream) == Stdio::RedirectToFile(fd),
    ensures
        ({
            let p = posix_plan(m, supervised, locked);
            let dup = Step::DupFile { fd, stream };
            &&& exists|k: int| 0 <= k < p.len() && #[trigger] p[k] == dup
            &&& forall|k: int| 0 <= k < p.len() && binds(#[trigger] p[k], stream) ==> p[k] == dup
            &&& forall|k: int, j: int|
                0 <= k < p.len() && 0 <= j < p.len() && #[trigger] p[k] == dup && #[trigger] p[j]
                    == Step::RunPayload ==> k < j
        }),
{
    lemma_plan_layout(m, supervised, locked);
    lemma_env_rank(m);
    lemma_context_rank(m);
    lemma_lock_rank(m, locked);
    let p = posix_plan(m, supervised, locked);
    let dup = Step::DupFile { fd, stream };
    let f = |s: Step| binds(s, stream) ==> s == dup;
    let s0 = stream_steps(m.stdin, STDIN_FD);
    let s1 = stream_steps(m.stdout, STDOUT_FD);
    let s2 = stream_steps(m.stderr, STDERR_FD);
    assert(every(s0, f));
    assert(every(s1, f));
    assert(every(s2, f));
    lemma_every_concat(s0, s1, f);
    lemma_every_concat(s0 + s1, s2, f);
    let r = redirect_steps(m);
    let d = detach_steps(m, supervised);
    if supervised {
        lemma_every_concat(r, seq![Step::NotifyReady], f);
    } else {
        lemma_every_concat(seq![Step::Fork, Step::NewSession], r, f);
        lemma_every_concat(seq![Step::Fork, Step::NewSession] + r, seq![Step::Fork], f);
    }
    lemma_every_by_rank(env_steps(m), 10, 11, f);
    lemma_every_by_rank(context_steps(m), 20, 23, f);
    lemma_every_by_rank(lock_steps(m, locked), 30, 36, f);
    lemma_every_by_rank(drop_steps(m), 50, 53, f);
    lemma_every_concat(d, env_steps(m), f);
    lemma_every_concat(d + env_steps(m), context_steps(m), f);
    lemma_every_concat(d + env_steps(m) + context_steps(m), lock_steps(m, locked), f);
    let a = d + env_steps(m) + context_steps(m) + lock_steps(m, locked);
    lemma_every_concat(a, seq![Step::RunPayload], f);
    lemma_every_concat(a + seq![Step::RunPayload], drop_steps(m), f);
    // where the duplication stands
    let off: int = if supervised {
        0
    } else {
        2
    };
    let at: int = if stream == STDIN_FD {
        0
    } else if stream == STDOUT_FD {
        s0.len() as int
    } else {
        (s0.len() + s1.len()) as int
    };
    assert(r[at] == dup);
    assert(d[off + at] == dup);
    assert(p[off + at] == a[off + at]);
    assert(p[off + at] == dup);
    assert forall|k: int, j: int|
        0 <= k < p.len() && 0 <= j < p.len() && #[trigger] p[k] == dup && #[trigger] p[j]
            == Step::RunPayload implies k < j by {
        lemma_locate(p, k, j);
    }
}

/// The name of the variable through which a supervisor announces its
/// notification socket.
pub open spec fn notify_var() -> Seq<char> {
    "NOTIFY_SOCKET"@
}

/// What step `s` does to the environment `e`.
pub open spec fn env_effect(e: Map<Seq<char>, Seq<char>>, s: Step, m: DaemonModel) -> Map<
    Seq<char>,
    Seq<char>,
> {
    match s {
        Step::NotifyReady => e.remove(notify_var()),
        Step::ClearEnv => Map::empty(),
        Step::SetEnv { index } => if index < m.env.len() {
            e.insert(m.env[index as int].0, m.env[index as int].1)
        } else {
            e
        },
        _ => e,
    }
}

/// The environment after the steps `p`, starting from `e`.
pub open spec fn apply_env(e: Map<Seq<char>, Seq<char>>, p: Seq<Step>, m: DaemonModel) -> Map<
    Seq<char>,
    Seq<char>,
>
    decreases p.len(),
{
    if p.len() == 0 {
        e
    } else {
        env_effect(apply_env(e, p.drop_last(), m), p.last(), m)
    }
}

proof fn lemma_apply_concat(
    e: Map<Seq<char>, Seq<char>>,
    a: Seq<Step>,
    b: Seq<Step>,
    m: DaemonModel,
)
    ensures
        apply_env(e, a + b, m) == apply_env(apply_env(e, a, m), b, m),
    decreases b.len(),
{
    if b.len() > 0 {
        assert((a + b).drop_last() =~= a + b.drop_last());
        lemma_apply_concat(e, a, b.drop_last(), m);
    } else {
        assert(a + b =~= a);
    }
}

proof fn lemma_apply_neutral(e: Map<Seq<char>, Seq<char>>, p: Seq<Step>, m: DaemonModel)
    requires
        ranks_within(p, 20, 53),
    ensures
        apply_env(e, p, m) == e,
    decreases p.len(),
{
    if p.len() > 0 {
        assert(ranks_within(p.drop_last(), 20, 53));
        lemma_apply_neutral(e, p.drop_last(), m);
        assert(rank(p[p.len() - 1]) >= 20);
    }
}

proof fn lemma_apply_set_env(m: DaemonModel, n: nat)
    requires
        n <= m.env.len() <= usize::MAX,
    ensures
        apply_env(Map::empty(), set_env_steps(n), m) == env_map(m.env.take(n as int)),
    decreases n,
{
    if n > 0 {
        lemma_apply_set_env(m, (n - 1) as nat);
        assert(set_env_steps(n).drop_last() =~= set_env_steps((n - 1) as nat));
        assert(m.env.take(n as int).drop_last() =~= m.env.take(n - 1));
        let last = set_env_steps(n).last();
        assert(last == Step::SetEnv { index: (n - 1) as usize });
        assert(((n - 1) as usize) as int == n - 1);
        assert(m.env.take(n as int).last() == m.env[n - 1]);
    } else {
        assert(m.env.take(0) =~= Seq::<(Seq<char>, Seq<char>)>::empty());
    }
}

/// With `clear_env`, whatever environment the launcher had, the environment
/// when the payload runs is exactly the mapping of the configured pairs.
pub proof fn lemma_cleared_env_is_exact(
    m: DaemonModel,
    supervised: bool,
    locked: bool,
    inherited: Map<Seq<char>, Seq<char>>,
)
    requires
        m.clear_env,
        m.env.len() <= usize::MAX,
    ensures
        ({
            let p = posix_plan(m, supervised, locked);
            let k = p.len() - drop_steps(m).len() - 1;
            &&& p[k] == Step::RunPayload
            &&& apply_env(inherited, p.take(k), m) == env_map(m.env)
        }),
{
    lemma_plan_layout(m, supervised, locked);
    lemma_payload_once(m, supervised, locked);
    let p = posix_plan(m, supervised, locked);
    let d = detach_steps(m, supervised);
    let e = env_steps(m);
    let c = context_steps(m);
    let l = lock_steps(m, locked);
    let a = d + e + c + l;
    let k = p.len() - drop_steps(m).len() - 1;
    assert(p.take(k) =~= a);
    let after_d = apply_env(inherited, d, m);
    lemma_apply_concat(inherited, d, e, m);
    lemma_apply_concat(after_d, seq![Step::ClearEnv], set_env_steps(m.env.len()), m);
    assert(seq![Step::ClearEnv].drop_last() =~= Seq::<Step>::empty());
    assert(apply_env(after_d, seq![Step::ClearEnv], m) == Map::<Seq<char>, Seq<char>>::empty());
    lemma_apply_set_env(m, m.env.len());
    assert(m.env.take(m.env.len() as int) =~= m.env);
    lemma_context_rank(m);
    lemma_lock_rank(m, locked);
    lemma_sorted_concat(c, l, 20, 30, 36);
    lemma_apply_concat(inherited, d + e, c + l, m);
    assert(d + e + (c + l) =~= a);
    lemma_apply_neutral(env_map(m.env), c + l, m);
}

/// With distinct names, the mapping of the pairs holds exactly their names,
/// each with its value.
pub proof fn lemma_env_map_exact(env: EnvSeq)
    requires
        unique_keys(env),
    ensures
        forall|i: int|
            0 <= i < env.len() ==> env_map(env).contains_key(#[trigger] env[i].0) && env_map(
                env,
            )[env[i].0] == env[i].1,
        forall|k: Seq<char>|
            #[trigger] env_map(env).contains_key(k) ==> exists|i: int|
                0 <= i < env.len() && env[i].0 == k,
    decreases env.len(),
{
    if env.len() > 0 {
        let init = env.drop_last();
        assert(unique_keys(init));
        lemma_env_map_exact(init);
        let last = env.last();
        assert forall|i: int|
            0 <= i < env.len() implies env_map(env).contains_key(#[trigger] env[i].0) && env_map(
            env,
        )[env[i].0] == env[i].1 by {
            if i < env.len() - 1 {
                assert(env[i] == init[i]);
                assert(env[i].0 != last.0);
            }
        }
        assert forall|k: Seq<char>| #[trigger] env_map(env).contains_key(k) implies exists|i: int|
            0 <= i < env.len() && env[i].0 == k by {
            if k != last.0 {
                assert(env_map(init).contains_key(k));
                let i = choose|i: int| 0 <= i < init.len() && init[i].0 == k;
                assert(env[i] == init[i]);
            } else {
                assert(env[env.len() - 1].0 == k);
            }
        }
    }
}


/// Every duplication of the null device is directly followed by the close of
/// the temporary descriptor.
pub open spec fn dup_then_close(p: Seq<Step>) -> bool {
    &&& forall|k: int|
        0 <= k < p.len() && (#[trigger] p[k] is DupNull) ==> k + 1 < p.len() && p[k + 1]
            == Step::CloseNull { stream: p[k]->DupNull_stream }
    &&& forall|k: int|
        0 <= k < p.len() && (#[trigger] p[k] is CloseNull) ==> 1 <= k && p[k - 1]
            == Step::DupNull { stream: p[k]->CloseNull_stream }
    &&& forall|k: int|
        0 <= k < p.len() && (#[trigger] p[k] is DupNull) ==> 1 <= k && p[k - 1]
            == Step::OpenNull { stream: p[k]->DupNull_stream }
}

proof fn lemma_dup_then_close_concat(a: Seq<Step>, b: Seq<Step>)
    requires
        dup_then_close(a),
        dup_then_close(b),
    ensures
        dup_then_close(a + b),
{
    let c = a + b;
    assert forall|k: int| 0 <= k < c.len() && (#[trigger] c[k] is DupNull) implies k + 1 < c.len()
        && c[k + 1] == Step::CloseNull { stream: c[k]->DupNull_stream } by {
        if k < a.len() {
            assert(c[k] == a[k]);
            assert(c[k + 1] == a[k + 1]);
        } else {
            assert(c[k] == b[k - a.len()]);
            assert(c[k + 1] == b[k + 1 - a.len()]);
        }
    }
    assert forall|k: int| 0 <= k < c.len() && (#[trigger] c[k] is CloseNull) implies 1 <= k
        && c[k - 1] == Step::DupNull { stream: c[k]->CloseNull_stream } by {
        if k < a.len() {
            assert(c[k] == a[k]);
            assert(c[k - 1] == a[k - 1]);
        } else {
            assert(c[k] == b[k - a.len()]);
            assert(c[k - 1] == b[k - 1 - a.len()]);
        }
    }
    assert forall|k: int| 0 <= k < c.len() && (#[trigger] c[k] is DupNull) implies 1 <= k
        && c[k - 1] == Step::OpenNull { stream: c[k]->DupNull_stream } by {
        if k < a.len() {
            assert(c[k] == a[k]);
            assert(c[k - 1] == a[k - 1]);
        } else {
            assert(c[k] == b[k - a.len()]);
            assert(c[k - 1] == b[k - 1 - a.len()]);
        }
    }
}

proof fn lemma_no_dup_by_rank(p: Seq<Step>, lo: int, hi: int)
    requires
        ranks_within(p, lo, hi),
        1 <= lo,
    ensures
        dup_then_close(p),
{
    assert forall|k: int| 0 <= k < p.len() && (#[trigger] p[k] is DupNull) implies k + 1 < p.len()
        && p[k + 1] == Step::CloseNull { stream: p[k]->DupNull_stream } by {
        assert(lo <= rank(p[k]));
    }
    assert forall|k: int| 0 <= k < p.len() && (#[trigger] p[k] is CloseNull) implies 1 <= k
        && p[k - 1] == Step::DupNull { stream: p[k]->CloseNull_stream } by {
        assert(lo <= rank(p[k]));
    }
    assert forall|k: int| 0 <= k < p.len() && (#[trigger] p[k] is DupNull) implies 1 <= k
        && p[k - 1] == Step::OpenNull { stream: p[k]->DupNull_stream } by {
        assert(lo <= rank(p[k]));
    }
}

/// A duplication of the null device onto a stream is directly followed by
/// the close of the temporary descriptor, at least one step comes after that
/// close; every such close directly follows such a duplication, and every
/// such duplication directly follows the opening of the null device.
pub proof fn lemma_dup_null_then_close(m: DaemonModel, supervised: bool, locked: bool, k: int)
    requires
        0 <= k < posix_plan(m, supervised, locked).len(),
    ensures
        ({
            let p = posix_plan(m, supervised, locked);
            &&& p[k] is DupNull ==> k + 2 < p.len() && p[k + 1] == Step::CloseNull {
                stream: p[k]->DupNull_stream,
            } && 1 <= k && p[k - 1] == Step::OpenNull { stream: p[k]->DupNull_stream }
            &&& p[k] is CloseNull ==> 1 <= k && p[k - 1] == Step::DupNull {
                stream: p[k]->CloseNull_stream,
            }
        }),
{
    lemma_plan_layout(m, supervised, locked);
    lemma_payload_once(m, supervised, locked);
    let p = posix_plan(m, supervised, locked);
    let s0 = stream_steps(m.stdin, STDIN_FD);
    let s1 = stream_steps(m.stdout, STDOUT_FD);
    let s2 = stream_steps(m.stderr, STDERR_FD);
    assert(dup_then_close(s0));
    assert(dup_then_close(s1));
    assert(dup_then_close(s2));
    lemma_dup_then_close_concat(s0, s1);
    lemma_dup_then_close_concat(s0 + s1, s2);
    let r = redirect_steps(m);
    let d = detach_steps(m, supervised);
    if supervised {
        assert(dup_then_close(seq![Step::NotifyReady]));
        lemma_dup_then_close_concat(r, seq![Step::NotifyReady]);
    } else {
        assert(dup_then_close(seq![Step::Fork, Step::NewSession]));
        assert(dup_then_close(seq![Step::Fork]));
        lemma_dup_then_close_concat(seq![Step::Fork, Step::NewSession], r);
        lemma_dup_then_close_concat(seq![Step::Fork, Step::NewSession] + r, seq![Step::Fork]);
    }
    lemma_env_rank(m);
    lemma_context_rank(m);
    lemma_lock_rank(m, locked);
    lemma_drop_rank(m);
    lemma_no_dup_by_rank(env_steps(m), 10, 11);
    lemma_no_dup_by_rank(context_steps(m), 20, 23);
    lemma_no_dup_by_rank(lock_steps(m, locked), 30, 36);
    lemma_no_dup_by_rank(drop_steps(m), 50, 53);
    assert(ranks_within(seq![Step::RunPayload], 40, 40));
    lemma_no_dup_by_rank(seq![Step::RunPayload], 40, 40);
    lemma_dup_then_close_concat(d, env_steps(m));
    lemma_dup_then_close_concat(d + env_steps(m), context_steps(m));
    lemma_dup_then_close_concat(d + env_steps(m) + context_steps(m), lock_steps(m, locked));
    let a = d + env_steps(m) + context_steps(m) + lock_steps(m, locked);
    lemma_dup_then_close_concat(a, seq![Step::RunPayload]);
    lemma_dup_then_close_concat(a + seq![Step::RunPayload], drop_steps(m));
    if p[k] is DupNull {
        assert(k + 1 < p.len() && p[k + 1] == Step::CloseNull { stream: p[k]->DupNull_stream });
        let pk = p.len() - drop_steps(m).len() - 1;
        lemma_locate(p, k + 1, pk);
    }
}

} // verus!

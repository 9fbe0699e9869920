//! The daemon's configuration, accumulated by chained setters and then
//! handed, as a whole, to one of the daemonization sequences.

use vstd::prelude::*;
use crate::error::{DaemonError, IoError};
use crate::stdio::Stdio;
use crate::types::{Group, User};

verus! {

/// An environment as an ordered list of (name, value) pairs.
pub type EnvSeq = Seq<(Seq<char>, Seq<char>)>;

/// No name occurs twice.
pub open spec fn unique_keys(env: EnvSeq) -> bool {
    forall|i: int, j: int|
        0 <= i < env.len() && 0 <= j < env.len() && i != j ==> env[i].0 != env[j].0
}

/// Some pair carries the name `k`.
pub open spec fn has_key(env: EnvSeq, k: Seq<char>) -> bool {
    exists|i: int| 0 <= i < env.len() && env[i].0 == k
}

/// `env` with `k` set to `v`: the pair of that name is replaced in place, or
/// a new pair is added at the end.
pub open spec fn with_var(env: EnvSeq, k: Seq<char>, v: Seq<char>) -> EnvSeq {
    if has_key(env, k) {
        let i = choose|i: int| 0 <= i < env.len() && env[i].0 == k;
        env.update(i, (k, v))
    } else {
        env.push((k, v))
    }
}

/// `env` with every pair of `vars` whose name it lacks added at the end, in
/// order; the first of several pairs with one name wins.
pub open spec fn with_defaults(env: EnvSeq, vars: EnvSeq) -> EnvSeq
    decreases vars.len(),
{
    if vars.len() == 0 {
        env
    } else {
        let before = with_defaults(env, vars.drop_last());
        if has_key(before, vars.last().0) {
            before
        } else {
            before.push(vars.last())
        }
    }
}

/// The mapping from names to values that a list of pairs describes.
pub open spec fn env_map(env: EnvSeq) -> Map<Seq<char>, Seq<char>>
    decreases env.len(),
{
    if env.len() == 0 {
        Map::empty()
    } else {
        env_map(env.drop_last()).insert(env.last().0, env.last().1)
    }
}

/// The characters of each string of each pair.
pub open spec fn pairs_view(v: Seq<(String, String)>) -> EnvSeq {
    v.map_values(|p: (String, String)| (p.0@, p.1@))
}

pub open spec fn opt_view(o: Option<String>) -> Option<Seq<char>> {
    match o {
        Some(s) => Some(s@),
        None => None,
    }
}

pub open spec fn user_view(o: Option<User>) -> Option<Seq<char>> {
    match o {
        Some(u) => Some(u.0@),
        None => None,
    }
}

pub open spec fn group_view(o: Option<Group>) -> Option<Seq<char>> {
    match o {
        Some(g) => Some(g.0@),
        None => None,
    }
}

/// What a configuration holds, as plain mathematical values.
pub struct DaemonModel {
    pub name: Option<Seq<char>>,
    pub directory: Seq<char>,
    pub pid_file: Option<Seq<char>>,
    pub stdin: Stdio,
    pub stdout: Stdio,
    pub stderr: Stdio,
    pub clear_env: bool,
    pub env: EnvSeq,
    pub user: Option<Seq<char>>,
    pub group: Option<Seq<char>>,
    pub umask: Option<u32>,
    pub root: Option<Seq<char>>,
    pub chown_pid: bool,
}

/// The configuration of a daemon.
///
/// Defaults: no name, the filesystem root as working directory, no pid file,
/// every stream bound to the null device, the inherited environment, no
/// identity change, the file-creation mask `0o027`, no chroot.
#[derive(Debug)]
pub struct ForgeDaemon {
    name: Option<String>,
    directory: String,
    pid_file: Option<String>,
    stdin: Stdio,
    stdout: Stdio,
    stderr: Stdio,
    clear_env: bool,
    env_vars: Vec<(String, String)>,
    user: Option<User>,
    group: Option<Group>,
    umask: Option<u32>,
    root: Option<String>,
    chown_pid: bool,
}

impl View for ForgeDaemon {
    type V = DaemonModel;

    closed spec fn view(&self) -> DaemonModel {
        DaemonModel {
            name: opt_view(self.name),
            directory: self.directory@,
            pid_file: opt_view(self.pid_file),
            stdin: self.stdin,
            stdout: self.stdout,
            stderr: self.stderr,
            clear_env: self.clear_env,
            env: pairs_view(self.env_vars@),
            user: user_view(self.user),
            group: group_view(self.group),
            umask: self.umask,
            root: opt_view(self.root),
            chown_pid: self.chown_pid,
        }
    }
}

impl ForgeDaemon {
    #[verifier::type_invariant]
    spec fn inv(&self) -> bool {
        unique_keys(pairs_view(self.env_vars@))
    }

    /// A configuration with every default.
    pub fn new() -> (r: ForgeDaemon)
        ensures
            r@.name is None,
            r@.directory == seq!['/'],
            r@.pid_file is None,
            r@.stdin == Stdio::Devnull,
            r@.stdout == Stdio::Devnull,
            r@.stderr == Stdio::Devnull,
            !r@.clear_env,
            r@.env.len() == 0,
            r@.user is None,
            r@.group is None,
            r@.umask == Some(0o027u32),
            r@.root is None,
            !r@.chown_pid,
    {
        proof {
            reveal_strlit("/");
        }
        let r = ForgeDaemon {
            name: None,
            directory: String::from_str("/"),
            pid_file: None,
            stdin: Stdio::devnull(),
            stdout: Stdio::devnull(),
            stderr: Stdio::devnull(),
            clear_env: false,
            env_vars: Vec::new(),
            user: None,
            group: None,
            umask: Some(0o027),
            root: None,
            chown_pid: false,
        };
        assert(pairs_view(r.env_vars@) =~= Seq::empty());
        r
    }
}

fn opt_str(o: &Option<String>) -> (r: Option<&str>)
    ensures
        match r {
            Some(s) => opt_view(*o) == Some(s@),
            None => o is None,
        },
{
    match o {
        Some(s) => Some(s.as_str()),
        None => None,
    }
}

impl ForgeDaemon {
    /// The daemon's name, if set.
    pub fn get_name(&self) -> (r: Option<&str>)
        ensures
            match r {
                Some(s) => self@.name == Some(s@),
                None => self@.name is None,
            },
    {
        opt_str(&self.name)
    }

    /// The pid-file path, if set.
    pub fn pid_file_path(&self) -> (r: Option<&str>)
        ensures
            match r {
                Some(s) => self@.pid_file == Some(s@),
                None => self@.pid_file is None,
            },
    {
        opt_str(&self.pid_file)
    }

    /// The configured environment pairs, in the order they were first set;
    /// no name occurs twice.
    pub fn environment(&self) -> (r: &Vec<(String, String)>)
        ensures
            pairs_view(r@) == self@.env,
            unique_keys(self@.env),
    {
        proof {
            use_type_invariant(self);
        }
        &self.env_vars
    }

    /// The working directory.
    pub fn working_directory_path(&self) -> (r: &str)
        ensures
            r@ == self@.directory,
    {
        self.directory.as_str()
    }

    /// The bindings of standard input, output and error.
    pub fn streams(&self) -> (r: (Stdio, Stdio, Stdio))
        ensures
            r == (self@.stdin, self@.stdout, self@.stderr),
    {
        (self.stdin, self.stdout, self.stderr)
    }

    /// Whether the inherited environment is wiped before the pairs are set.
    pub fn clears_env(&self) -> (r: bool)
        ensures
            r == self@.clear_env,
    {
        self.clear_env
    }

    /// The account to switch to, if set.
    pub fn user_name(&self) -> (r: Option<&str>)
        ensures
            match r {
                Some(s) => self@.user == Some(s@),
                None => self@.user is None,
            },
    {
        match &self.user {
            Some(u) => Some(u.0.as_str()),
            None => None,
        }
    }

    /// The group to switch to, if set.
    pub fn group_name(&self) -> (r: Option<&str>)
        ensures
            match r {
                Some(s) => self@.group == Some(s@),
                None => self@.group is None,
            },
    {
        match &self.group {
            Some(g) => Some(g.0.as_str()),
            None => None,
        }
    }

    /// The file-creation mask to apply, if any.
    pub fn file_mask(&self) -> (r: Option<u32>)
        ensures
            r == self@.umask,
    {
        self.umask
    }

    /// The new root directory, if set.
    pub fn chroot_path(&self) -> (r: Option<&str>)
        ensures
            match r {
                Some(s) => self@.root == Some(s@),
                None => self@.root is None,
            },
    {
        opt_str(&self.root)
    }

    /// Whether the pid file is handed to the configured user and group.
    pub fn chowns_pid_file(&self) -> (r: bool)
        ensures
            r == self@.chown_pid,
    {
        self.chown_pid
    }
}


/// Sets `key` to `value` in `vars`, in place if the name is there.
fn set_var(vars: &mut Vec<(String, String)>, key: &str, value: &str)
    requires
        unique_keys(pairs_view(old(vars)@)),
    ensures
        pairs_view(final(vars)@) == with_var(pairs_view(old(vars)@), key@, value@),
        unique_keys(pairs_view(final(vars)@)),
{
    let ghost env = pairs_view(vars@);
    let k = String::from_str(key);
    let mut i: usize = 0;
    while i < vars.len()
        invariant
            env == pairs_view(vars@),
            env == pairs_view(old(vars)@),
            unique_keys(env),
            k@ == key@,
            i <= vars@.len(),
            forall|j: int| 0 <= j < i ==> env[j].0 != key@,
        decreases vars@.len() - i,
    {
        assert(env[i as int] == (vars@[i as int].0@, vars@[i as int].1@));
        if vars[i].0 == k {
            proof {
                assert(has_key(env, key@));
                let c = choose|c: int| 0 <= c < env.len() && env[c].0 == key@;
                assert(c == i);
                assert(with_var(env, key@, value@) == env.update(i as int, (key@, value@)));
            }
            vars.set(i, (k, String::from_str(value)));
            assert(pairs_view(vars@) =~= env.update(i as int, (key@, value@)));
            return;
        }
        i = i + 1;
    }
    assert(!has_key(env, key@));
    vars.push((k, String::from_str(value)));
    assert(pairs_view(vars@) =~= env.push((key@, value@)));
}

/// Adds `key` with `value` to `vars` unless the name is there.
fn add_default(vars: &mut Vec<(String, String)>, key: &String, value: &String)
    requires
        unique_keys(pairs_view(old(vars)@)),
    ensures
        pairs_view(final(vars)@) == (if has_key(pairs_view(old(vars)@), key@) {
            pairs_view(old(vars)@)
        } else {
            pairs_view(old(vars)@).push((key@, value@))
        }),
        unique_keys(pairs_view(final(vars)@)),
{
    let ghost env = pairs_view(vars@);
    let mut i: usize = 0;
    while i < vars.len()
        invariant
            env == pairs_view(vars@),
            unique_keys(env),
            i <= vars@.len(),
            forall|j: int| 0 <= j < i ==> env[j].0 != key@,
        decreases vars@.len() - i,
    {
        assert(env[i as int] == (vars@[i as int].0@, vars@[i as int].1@));
        if vars[i].0 == *key {
            return;
        }
        i = i + 1;
    }
    vars.push((key.clone(), value.clone()));
    assert(pairs_view(vars@) =~= env.push((key@, value@)));
}

impl ForgeDaemon {
    /// Sets the daemon's name. It keys the lock when no pid file is set (a
    /// lock file under the temporary directory, or the Windows mutex).
    pub fn name(self, name: &str) -> (r: ForgeDaemon)
        ensures
            r@ == (DaemonModel { name: Some(name@), ..self@ }),
    {
        proof {
            use_type_invariant(&self);
        }
        ForgeDaemon { name: Some(String::from_str(name)), ..self }
    }

    /// Sets the pid file, which also keys the lock.
    pub fn pid_file(self, path: &str) -> (r: ForgeDaemon)
        ensures
            r@ == (DaemonModel { pid_file: Some(path@), ..self@ }),
    {
        proof {
            use_type_invariant(&self);
        }
        ForgeDaemon { pid_file: Some(String::from_str(path)), ..self }
    }

    /// Sets the working directory.
    pub fn working_directory(self, path: &str) -> (r: ForgeDaemon)
        ensures
            r@ == (DaemonModel { directory: path@, ..self@ }),
    {
        proof {
            use_type_invariant(&self);
        }
        ForgeDaemon { directory: String::from_str(path), ..self }
    }

    /// Binds standard input.
    pub fn stdin(self, stdio: Stdio) -> (r: ForgeDaemon)
        ensures
            r@ == (DaemonModel { stdin: stdio, ..self@ }),
    {
        proof {
            use_type_invariant(&self);
        }
        ForgeDaemon { stdin: stdio, ..self }
    }

    /// Binds standard output.
    pub fn stdout(self, stdio: Stdio) -> (r: ForgeDaemon)
        ensures
            r@ == (DaemonModel { stdout: stdio, ..self@ }),
    {
        proof {
            use_type_invariant(&self);
        }
        ForgeDaemon { stdout: stdio, ..self }
    }

    /// Binds standard error.
    pub fn stderr(self, stdio: Stdio) -> (r: ForgeDaemon)
        ensures
            r@ == (DaemonModel { stderr: stdio, ..self@ }),
    {
        proof {
            use_type_invariant(&self);
        }
        ForgeDaemon { stderr: stdio, ..self }
    }

    /// If `clear`, the inherited environment is wiped before the configured
    /// pairs are set.
    pub fn clear_env(self, clear: bool) -> (r: ForgeDaemon)
        ensures
            r@ == (DaemonModel { clear_env: clear, ..self@ }),
    {
        proof {
            use_type_invariant(&self);
        }
        ForgeDaemon { clear_env: clear, ..self }
    }

    /// Sets an environment variable, overwriting an earlier value of it.
    pub fn env(self, key: &str, value: &str) -> (r: ForgeDaemon)
        ensures
            r@ == (DaemonModel { env: with_var(self@.env, key@, value@), ..self@ }),
    {
        proof {
            use_type_invariant(&self);
        }
        let mut vars = self.env_vars;
        set_var(&mut vars, key, value);
        ForgeDaemon { env_vars: vars, ..self }
    }

    /// Sets an environment variable only if `value` is present.
    pub fn env_opt(self, key: &str, value: Option<&str>) -> (r: ForgeDaemon)
        ensures
            r@ == (match value {
                Some(v) => DaemonModel { env: with_var(self@.env, key@, v@), ..self@ },
                None => self@,
            }),
    {
        match value {
            Some(v) => self.env(key, v),
            None => self,
        }
    }

    /// Takes the given variables (the current process environment) into the
    /// configuration, keeping every value already configured.
    pub fn inherit_env(self, vars: Vec<(String, String)>) -> (r: ForgeDaemon)
        ensures
            r@ == (DaemonModel { env: with_defaults(self@.env, pairs_view(vars@)), ..self@ }),
    {
        proof {
            use_type_invariant(&self);
        }
        let mut env = self.env_vars;
        let ghost start = pairs_view(env@);
        let mut i: usize = 0;
        while i < vars.len()
            invariant
                i <= vars@.len(),
                unique_keys(pairs_view(env@)),
                pairs_view(env@) == with_defaults(start, pairs_view(vars@.subrange(0, i as int))),
            decreases vars@.len() - i,
        {
            add_default(&mut env, &vars[i].0, &vars[i].1);
            proof {
                let done = pairs_view(vars@.subrange(0, i + 1));
                assert(done.drop_last() =~= pairs_view(vars@.subrange(0, i as int)));
                assert(done.last() == (vars@[i as int].0@, vars@[i as int].1@));
            }
            i = i + 1;
        }
        assert(vars@.subrange(0, vars@.len() as int) =~= vars@);
        ForgeDaemon { env_vars: env, ..self }
    }

    /// Checks the configuration before starting: a pid file's directory must
    /// exist. `pid_dir_exists` says whether it does.
    pub fn build(self, pid_dir_exists: bool) -> (r: Result<ForgeDaemon, DaemonError>)
        ensures
            self@.pid_file is Some && !pid_dir_exists <==> r is Err,
            r matches Ok(d) ==> d@ == self@,
            r matches Err(e) ==> e matches DaemonError::Io(IoError::MissingDirectory(p)) && self@.pid_file
                == Some(p@),
    {
        match self.pid_file_path() {
            Some(p) => {
                if !pid_dir_exists {
                    return Err(DaemonError::Io(IoError::MissingDirectory(String::from_str(p))));
                }
            },
            None => {},
        }
        Ok(self)
    }

    /// Sets the account to switch to after the payload.
    pub fn user(self, user: User) -> (r: ForgeDaemon)
        ensures
            r@ == (DaemonModel { user: Some(user.0@), ..self@ }),
    {
        proof {
            use_type_invariant(&self);
        }
        ForgeDaemon { user: Some(user), ..self }
    }

    /// Sets the group to switch to after the payload.
    pub fn group(self, group: Group) -> (r: ForgeDaemon)
        ensures
            r@ == (DaemonModel { group: Some(group.0@), ..self@ }),
    {
        proof {
            use_type_invariant(&self);
        }
        ForgeDaemon { group: Some(group), ..self }
    }

    /// Sets the file-creation mask.
    pub fn umask(self, mask: u32) -> (r: ForgeDaemon)
        ensures
            r@ == (DaemonModel { umask: Some(mask), ..self@ }),
    {
        proof {
            use_type_invariant(&self);
        }
        ForgeDaemon { umask: Some(mask), ..self }
    }

    /// Sets the directory to change root to.
    pub fn chroot(self, path: &str) -> (r: ForgeDaemon)
        ensures
            r@ == (DaemonModel { root: Some(path@), ..self@ }),
    {
        proof {
            use_type_invariant(&self);
        }
        ForgeDaemon { root: Some(String::from_str(path)), ..self }
    }

    /// If `chown`, the pid file is handed to the configured user and group.
    pub fn chown_pid_file(self, chown: bool) -> (r: ForgeDaemon)
        ensures
            r@ == (DaemonModel { chown_pid: chown, ..self@ }),
    {
        proof {
            use_type_invariant(&self);
        }
        ForgeDaemon { chown_pid: chown, ..self }
    }
}

} // verus!

//! The one error value that every failed daemonization step reports.

use vstd::prelude::*;

verus! {

/// Why an input/output step failed.
#[derive(Clone, Debug, PartialEq, Eq)]
pub enum IoError {
    /// The operating system refused the call with this error code.
    Os(i32),
    /// A path holds a NUL character and cannot be handed to the system.
    InvalidPath(String),
    /// The directory that should hold the pid file does not exist.
    MissingDirectory(String),
}

/// Why changing the process identity, root or file ownership failed.
#[derive(Clone, Debug, PartialEq, Eq)]
pub enum PrivilegeFailure {
    /// No account has this name.
    UserNotFound(String),
    /// No group has this name.
    GroupNotFound(String),
    /// Switching the user id failed with this error code.
    SetUser(i32),
    /// Switching the group id failed with this error code.
    SetGroup(i32),
    /// Changing the root directory failed with this error code.
    ChangeRoot(i32),
    /// Changing the owner of the pid file failed with this error code.
    ChangeOwner(i32),
}

/// Why the daemonization failed.
#[derive(Clone, Debug, PartialEq, Eq)]
pub enum DaemonError {
    /// File creation, redirection or directory change failed.
    Io(IoError),
    /// The pid-file lock or the named mutex is held by another instance.
    TargetLocked,
    /// Dropping privileges, changing root or changing ownership failed.
    PrivilegeError(PrivilegeFailure),
    /// The named variable cannot be placed in the environment: its name is
    /// empty or holds `=` or NUL, or its value holds NUL.
    EnvError(String),
    /// A Windows API call failed with this error code.
    Win32Error(u32),
    /// A process-control system call (`fork`, `setsid`) failed.
    SyscallError { call: &'static str, errno: i32 },
}

impl IoError {
    /// An equal copy.
    pub fn duplicate(&self) -> (r: IoError)
        ensures
            r == *self,
    {
        match self {
            IoError::Os(c) => IoError::Os(*c),
            IoError::InvalidPath(p) => IoError::InvalidPath(p.clone()),
            IoError::MissingDirectory(p) => IoError::MissingDirectory(p.clone()),
        }
    }
}

impl PrivilegeFailure {
    /// An equal copy.
    pub fn duplicate(&self) -> (r: PrivilegeFailure)
        ensures
            r == *self,
    {
        match self {
            PrivilegeFailure::UserNotFound(n) => PrivilegeFailure::UserNotFound(n.clone()),
            PrivilegeFailure::GroupNotFound(n) => PrivilegeFailure::GroupNotFound(n.clone()),
            PrivilegeFailure::SetUser(c) => PrivilegeFailure::SetUser(*c),
            PrivilegeFailure::SetGroup(c) => PrivilegeFailure::SetGroup(*c),
            PrivilegeFailure::ChangeRoot(c) => PrivilegeFailure::ChangeRoot(*c),
            PrivilegeFailure::ChangeOwner(c) => PrivilegeFailure::ChangeOwner(*c),
        }
    }
}

impl DaemonError {
    /// An equal copy.
    pub fn duplicate(&self) -> (r: DaemonError)
        ensures
            r == *self,
    {
        match self {
            DaemonError::Io(e) => DaemonError::Io(e.duplicate()),
            DaemonError::TargetLocked => DaemonError::TargetLocked,
            DaemonError::PrivilegeError(p) => DaemonError::PrivilegeError(p.duplicate()),
            DaemonError::EnvError(k) => DaemonError::EnvError(k.clone()),
            DaemonError::Win32Error(c) => DaemonError::Win32Error(*c),
            DaemonError::SyscallError { call, errno } => DaemonError::SyscallError {
                call: *call,
                errno: *errno,
            },
        }
    }
}

/// The result of a daemonization step.
pub type DaemonResult<T> = Result<T, DaemonError>;

} // verus!

//! Turning a foreground process into a detached, single-instance background
//! service.
//!
//! The daemonization sequences are modelled as verified planners and
//! executors: the library decides every operating-system call, in order, and
//! how each answer is interpreted, while a thin runner performs the calls.

pub mod daemon;
pub mod error;
pub mod machine;
pub mod posix;
pub mod posix_lemmas;
pub mod stdio;
pub mod text;
pub mod types;
pub mod windows;

pub use daemon::ForgeDaemon;
pub use error::{DaemonError, DaemonResult, IoError, PrivilegeFailure};
pub use machine::{Action, Answer};
pub use stdio::Stdio;
pub use types::{Group, User};

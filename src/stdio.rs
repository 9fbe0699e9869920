//! How each of the three standard streams is bound in the daemon.

use vstd::prelude::*;

verus! {

/// The binding of one standard stream (input, output or error).
#[derive(Clone, Copy, Debug, PartialEq, Eq, Structural)]
pub enum Stdio {
    /// Bound to the null device. The default.
    Devnull,
    /// Bound to an already open file, given by its descriptor (a handle
    /// value on Windows). The caller keeps that file open.
    RedirectToFile(i32),
    /// Left as it is; useful when debugging.
    Keep,
}

impl Stdio {
    /// A binding that discards everything.
    pub fn devnull() -> (r: Stdio)
        ensures
            r == Stdio::Devnull,
    {
        Stdio::Devnull
    }
}

} // verus!

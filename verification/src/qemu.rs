//! The exit codes the emulator's debug-exit device accepts. Writing them to
//! the port is I/O and happens outside this crate.

use vstd::prelude::*;

verus! {

/// How the kernel leaves the emulator: written to the debug-exit port.
#[derive(Debug, Clone, Copy, PartialEq, Eq, Structural)]
pub enum QemuExitCode {
    Success,
    Failed,
}

impl QemuExitCode {
    /// The word the debug-exit device expects for this outcome.
    pub fn code(self) -> (c: u32)
        ensures
            self is Success ==> c == 0x10,
            self is Failed ==> c == 0x11,
    {
        match self {
            QemuExitCode::Success => 0x10,
            QemuExitCode::Failed => 0x11,
        }
    }
}

} // verus!

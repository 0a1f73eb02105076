//! The codes with which a test run ends QEMU.
use vstd::prelude::*;

verus! {

/// How a test run ends, as told to QEMU's debug exit device.
#[derive(Clone, Copy, Debug, PartialEq, Eq, Structural)]
pub enum QemuExitCode {
    Success,
    Failed,
}

/// The number written to the exit device for `code`.
pub open spec fn exit_code_number(code: QemuExitCode) -> u32 {
    match code {
        QemuExitCode::Success => 0x10,
        QemuExitCode::Failed => 0x11,
    }
}

impl QemuExitCode {
    /// The number written to the exit device for this code.
    pub fn number(self) -> (n: u32)
        ensures
            n == exit_code_number(self),
    {
        match self {
            QemuExitCode::Success => 0x10,
            QemuExitCode::Failed => 0x11,
        }
    }
}

} // verus!

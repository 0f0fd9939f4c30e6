use vstd::prelude::*;

verus! {

/// The exit statuses that the image reports to the emulator.
#[derive(Debug, Clone, Copy, PartialEq, Eq, Structural)]
pub enum QemuExitCode {
    Success,
    Failed,
}

/// The I/O ports that the emulator's exit device listens on.
#[derive(Debug, Clone, Copy, PartialEq, Eq, Structural)]
pub enum QemuPort {
    ExitPort,
}

impl QemuExitCode {
    /// The value written to the exit port for this status.
    pub fn code(self) -> (r: u16)
        ensures
            r == (match self {
                QemuExitCode::Success => 0x10u16,
                QemuExitCode::Failed => 0x11u16,
            }),
    {
        match self {
            QemuExitCode::Success => 0x10,
            QemuExitCode::Failed => 0x11,
        }
    }
}

impl QemuPort {
    /// The port address.
    pub fn address(self) -> (r: u16)
        ensures
            r == 0xf4,
    {
        match self {
            QemuPort::ExitPort => 0xf4,
        }
    }
}

} // verus!

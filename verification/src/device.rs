//! What is exchanged with a digitizer board: its commands and its answers.
use vstd::prelude::*;

verus! {

/// How a call to the digitizer library ended.
#[derive(Debug, Clone, Copy, PartialEq, Eq, Structural)]
pub enum FELibReturn {
    Success,
    Timeout,
    Stop,
    /// Any other return code.
    Other(i32),
}

/// A command to a board.
#[derive(Debug, Clone, Copy, PartialEq, Eq, Structural)]
pub enum Command {
    Reset,
    ArmAcquisition,
    SwStartAcquisition,
    DisarmAcquisition,
}

/// The path that a command is sent to.
pub open spec fn command_path(command: Command) -> Seq<char> {
    match command {
        Command::Reset => "/cmd/reset"@,
        Command::ArmAcquisition => "/cmd/armacquisition"@,
        Command::SwStartAcquisition => "/cmd/swstartacquisition"@,
        Command::DisarmAcquisition => "/cmd/disarmacquisition"@,
    }
}

/// Each command is sent to a path of its own.
pub proof fn commands_have_paths_of_their_own(a: Command, b: Command)
    ensures
        command_path(Command::Reset) == "/cmd/reset"@,
        command_path(Command::ArmAcquisition) == "/cmd/armacquisition"@,
        command_path(Command::SwStartAcquisition) == "/cmd/swstartacquisition"@,
        command_path(Command::DisarmAcquisition) == "/cmd/disarmacquisition"@,
        command_path(a) == command_path(b) ==> a == b,
{
    reveal_strlit("/cmd/reset");
    reveal_strlit("/cmd/armacquisition");
    reveal_strlit("/cmd/swstartacquisition");
    reveal_strlit("/cmd/disarmacquisition");
    assert(command_path(a) == command_path(b) ==> command_path(a).len() == command_path(b).len());
}

impl Command {
    /// The path that the command is sent to.
    pub fn path(self) -> (path: &'static str)
        ensures
            path@ == command_path(self),
    {
        match self {
            Command::Reset => "/cmd/reset",
            Command::ArmAcquisition => "/cmd/armacquisition",
            Command::SwStartAcquisition => "/cmd/swstartacquisition",
            Command::DisarmAcquisition => "/cmd/disarmacquisition",
        }
    }
}

} // verus!

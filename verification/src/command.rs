//! The command bytes that travel from the keyboard hook to the worker, and
//! the keyboard chord value they are bound to.

use vstd::prelude::*;

verus! {

/// A command the worker executes. Its wire value is one byte.
#[derive(Debug, Clone, Copy, PartialEq, Eq, Structural)]
pub enum Command {
    Nop,
    Cycle,
    SnapLeft,
    SnapRight,
    SnapMaximize,
    OverlappingStack,
}

/// The wire value of a command.
pub open spec fn command_byte(c: Command) -> u8 {
    match c {
        Command::Nop => 0,
        Command::Cycle => 1,
        Command::SnapLeft => 2,
        Command::SnapRight => 3,
        Command::SnapMaximize => 4,
        Command::OverlappingStack => 5,
    }
}

/// The command a wire value decodes to: every unknown value is `Nop`.
pub open spec fn command_of_byte(b: u8) -> Command {
    if b == 1 {
        Command::Cycle
    } else if b == 2 {
        Command::SnapLeft
    } else if b == 3 {
        Command::SnapRight
    } else if b == 4 {
        Command::SnapMaximize
    } else if b == 5 {
        Command::OverlappingStack
    } else {
        Command::Nop
    }
}

impl Command {
    /// The command's wire value.
    pub fn as_u8(self) -> (b: u8)
        ensures
            b == command_byte(self),
    {
        match self {
            Command::Nop => 0,
            Command::Cycle => 1,
            Command::SnapLeft => 2,
            Command::SnapRight => 3,
            Command::SnapMaximize => 4,
            Command::OverlappingStack => 5,
        }
    }

    /// Decode a wire value; unknown values decode as `Nop`.
    pub fn from_u8(b: u8) -> (c: Command)
        ensures
            c == command_of_byte(b),
    {
        if b == 1 {
            Command::Cycle
        } else if b == 2 {
            Command::SnapLeft
        } else if b == 3 {
            Command::SnapRight
        } else if b == 4 {
            Command::SnapMaximize
        } else if b == 5 {
            Command::OverlappingStack
        } else {
            Command::Nop
        }
    }
}

/// Decoding a command's wire value gives the command back.
pub proof fn lemma_command_round_trip(c: Command)
    ensures
        command_of_byte(command_byte(c)) == c,
{
}

/// A keyboard chord: the modifiers that must be held, exactly, and the
/// virtual-key code of the main key.
#[derive(Debug, Clone, Copy, PartialEq, Eq, Structural)]
pub struct Shortcut {
    pub win: bool,
    pub ctrl: bool,
    pub alt: bool,
    pub shift: bool,
    pub vk: u16,
}

} // verus!

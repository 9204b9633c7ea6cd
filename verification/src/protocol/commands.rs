use vstd::prelude::*;
use crate::protocol::constants::{CNXN, OKAY, OPEN, WRTE, CLSE, PING, PONG};

verus! {

/// The commands the server dispatches on.
#[derive(Debug, Clone, Copy, PartialEq, Eq, Structural)]
pub enum AdbCommand {
    CNXN,
    OKAY,
    OPEN,
    WRTE,
    CLSE,
    PING,
    PONG,
}

impl AdbCommand {
    /// The wire code of the command.
    pub open spec fn spec_code(self) -> u32 {
        match self {
            AdbCommand::CNXN => CNXN,
            AdbCommand::OKAY => OKAY,
            AdbCommand::OPEN => OPEN,
            AdbCommand::WRTE => WRTE,
            AdbCommand::CLSE => CLSE,
            AdbCommand::PING => PING,
            AdbCommand::PONG => PONG,
        }
    }

    /// The command whose wire code is `value`, if there is one.
    pub open spec fn spec_from_code(value: u32) -> Option<AdbCommand> {
        if value == CNXN {
            Some(AdbCommand::CNXN)
        } else if value == OKAY {
            Some(AdbCommand::OKAY)
        } else if value == OPEN {
            Some(AdbCommand::OPEN)
        } else if value == WRTE {
            Some(AdbCommand::WRTE)
        } else if value == CLSE {
            Some(AdbCommand::CLSE)
        } else if value == PING {
            Some(AdbCommand::PING)
        } else if value == PONG {
            Some(AdbCommand::PONG)
        } else {
            None
        }
    }

    /// Returns the wire code of this command.
    pub fn to_u32(&self) -> (r: u32)
        ensures
            r == self.spec_code(),
    {
        match self {
            AdbCommand::CNXN => CNXN,
            AdbCommand::OKAY => OKAY,
            AdbCommand::OPEN => OPEN,
            AdbCommand::WRTE => WRTE,
            AdbCommand::CLSE => CLSE,
            AdbCommand::PING => PING,
            AdbCommand::PONG => PONG,
        }
    }

    /// Decodes a wire code; `None` for a code that is not one of the commands.
    pub fn from_u32(value: u32) -> (r: Option<AdbCommand>)
        ensures
            r == Self::spec_from_code(value),
    {
        if value == CNXN {
            Some(AdbCommand::CNXN)
        } else if value == OKAY {
            Some(AdbCommand::OKAY)
        } else if value == OPEN {
            Some(AdbCommand::OPEN)
        } else if value == WRTE {
            Some(AdbCommand::WRTE)
        } else if value == CLSE {
            Some(AdbCommand::CLSE)
        } else if value == PING {
            Some(AdbCommand::PING)
        } else if value == PONG {
            Some(AdbCommand::PONG)
        } else {
            None
        }
    }
}

/// Decoding the code of a command gives the command back, and every code
/// that decodes is the code of what it decodes to.
pub proof fn lemma_command_code_roundtrip(c: AdbCommand, value: u32)
    ensures
        AdbCommand::spec_from_code(c.spec_code()) == Some(c),
        AdbCommand::spec_from_code(value) matches Some(d) ==> d.spec_code() == value,
{
}

} // verus!

//! The commands that the operator types.

use vstd::prelude::*;

verus! {

/// What a line from the operator asks for.
#[derive(Debug, Clone, Copy, PartialEq, Eq)]
pub enum AdminAction {
    /// Hand `Shutdown` to the world under `NOUSER`.
    Shutdown,
    /// Print the address that the server listens on.
    PrintBind,
    /// Not a command.
    Unknown,
}

/// What a line asks for: `exit` asks to shut down, `bind` to print the
/// address, and nothing else is a command.
pub open spec fn admin_action(line: Seq<char>) -> AdminAction {
    if line == "exit"@ {
        AdminAction::Shutdown
    } else if line == "bind"@ {
        AdminAction::PrintBind
    } else {
        AdminAction::Unknown
    }
}

/// Decides what the next thing read from the operator asks for: a line, or
/// `None` where the input has ended or cannot be read, which shuts the
/// server down.
pub fn handle_stdin(line: Option<&str>) -> (r: AdminAction)
    ensures
        r == match line {
            Some(text) => admin_action(text@),
            None => AdminAction::Shutdown,
        },
{
    match line {
        None => AdminAction::Shutdown,
        Some(text) => {
            let command = text.to_owned();
            if command == "exit".to_owned() {
                AdminAction::Shutdown
            } else if command == "bind".to_owned() {
                AdminAction::PrintBind
            } else {
                AdminAction::Unknown
            }
        },
    }
}

} // verus!

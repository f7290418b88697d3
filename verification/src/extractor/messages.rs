//! What the user interface asks of the command handler.
use vstd::prelude::*;
use crate::extractor::commands::Command;

verus! {

/// A message of the user interface: connect to a serial port, or run a command.
pub enum Message {
    Connect { path: String, baud: u32 },
    Command(Command),
}

} // verus!

//! The command surface: one discrete command per tick, decoded from a raw
//! key code.

use vstd::prelude::*;

verus! {

/// The command the player issues in one tick.
#[derive(Clone, Copy, Debug, PartialEq, Eq, Structural)]
pub enum Command {
    /// End the session.
    Quit,
    /// Move the active piece one cell to the left.
    MoveLeft,
    /// Move the active piece one cell to the right.
    MoveRight,
    /// Move the active piece one cell down.
    SoftDrop,
    /// Turn the active piece by a quarter turn.
    Rotate,
    /// No input this tick.
    Idle,
}

/// The command a raw key code decodes to: escape quits, the arrow keys move,
/// space or the up arrow rotates, anything else is idle.
pub open spec fn spec_decode_key(key: int) -> Command {
    if key == 27 {
        Command::Quit
    } else if key == 260 {
        Command::MoveLeft
    } else if key == 261 {
        Command::MoveRight
    } else if key == 258 {
        Command::SoftDrop
    } else if key == 32 || key == 259 {
        Command::Rotate
    } else {
        Command::Idle
    }
}

/// Decodes one polled key code into the command it stands for.
pub fn decode_key(key: i32) -> (cmd: Command)
    ensures
        cmd == spec_decode_key(key as int),
{
    if key == 27 {
        Command::Quit
    } else if key == 260 {
        Command::MoveLeft
    } else if key == 261 {
        Command::MoveRight
    } else if key == 258 {
        Command::SoftDrop
    } else if key == 32 || key == 259 {
        Command::Rotate
    } else {
        Command::Idle
    }
}

} // verus!

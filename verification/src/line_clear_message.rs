//! The transient message shown after a line clear or spin, with its
//! remaining display time.

use vstd::prelude::*;

use crate::tetromino::Tetromino;

verus! {

/// How long a fresh message is displayed, in milliseconds.
pub const MESSAGE_DURATION_MS: u64 = 2000;

/// Which clear happened, named after the number of lines; `AllClear` wins
/// over the count when the board is left empty.
#[derive(Clone, Copy, Debug, PartialEq, Eq, Structural)]
pub enum MessageType {
    Single,
    Double,
    Triple,
    Tetris,
    AllClear,
}

/// How a spin is classified when a rotated piece locks in a tight spot.
#[derive(Clone, Copy, Debug, PartialEq, Eq, Structural)]
pub enum SpinType {
    Mini,
    Proper,
}

/// A message together with its remaining display time in milliseconds and
/// the spin that earned it, if any.
#[derive(Clone, Copy, Debug, PartialEq, Eq)]
pub struct LineClearMessage {
    pub message: Option<MessageType>,
    pub remaining_time: u64,
    pub spin: Option<(Tetromino, SpinType)>,
}

impl LineClearMessage {
    /// No message, nothing left to display.
    pub fn empty() -> (m: LineClearMessage)
        ensures
            m.message is None,
            m.remaining_time == 0,
            m.spin is None,
    {
        LineClearMessage { message: None, remaining_time: 0, spin: None }
    }

    /// A fresh message with the full display duration.
    pub fn new(message: Option<MessageType>, spin: Option<(Tetromino, SpinType)>) -> (m:
        LineClearMessage)
        ensures
            m.message == message,
            m.remaining_time == MESSAGE_DURATION_MS,
            m.spin == spin,
    {
        LineClearMessage { message, remaining_time: MESSAGE_DURATION_MS, spin }
    }
}

} // verus!

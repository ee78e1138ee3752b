//! Values shared by the player's components.

use vstd::prelude::*;

verus! {

/// What a backend reports of the track it has loaded.
#[derive(Copy, Clone, PartialEq, Eq, Debug, Structural)]
pub enum SongState {
    Playing,
    Paused,
    Ended,
}

impl SongState {
    /// The state's name, as it is shown to the user.
    pub fn name(&self) -> (text: String)
        ensures
            text@ == match *self {
                SongState::Playing => "Playing"@,
                SongState::Paused => "Paused"@,
                SongState::Ended => "Ended"@,
            },
    {
        match self {
            SongState::Playing => String::from_str("Playing"),
            SongState::Paused => String::from_str("Paused"),
            SongState::Ended => String::from_str("Ended"),
        }
    }
}

/// Number of messages that the echo area keeps.
pub const ECHO_SIZE: i32 = 5;

} // verus!

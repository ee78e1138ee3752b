//! The decisions of the backend that hands files to an outside media player.
//! The player is asked for two properties, whether it is paused and whether
//! it is idle; what they mean is decided here.

use crate::constants::SongState;
use crate::text::chars_of;
use vstd::prelude::*;

verus! {

/// Whether the player is at work, from its answer on being idle. A player
/// that gives no answer counts as at work.
pub fn busy_of(idle: Option<bool>) -> (busy: bool)
    ensures
        busy == match idle {
            Some(idle) => !idle,
            None => true,
        },
{
    match idle {
        Some(idle) => !idle,
        None => true,
    }
}

/// The state of the track: paused where the player says so, else playing
/// while the player is at work, else ended.
pub fn state_of(paused: bool, busy: bool) -> (state: SongState)
    ensures
        state == if paused {
            SongState::Paused
        } else if busy {
            SongState::Playing
        } else {
            SongState::Ended
        },
{
    if paused {
        SongState::Paused
    } else if busy {
        SongState::Playing
    } else {
        SongState::Ended
    }
}

/// The file name between double quotes, as the player's load command takes it.
pub fn quoted(file_name: &str) -> (text: String)
    ensures
        text@ == seq!['"'] + file_name@ + seq!['"'],
{
    let chars = chars_of(file_name);
    let mut text = String::new();
    text.push('"');
    let mut i: usize = 0;
    while i < chars.len()
        invariant
            i <= chars.len(),
            chars@ == file_name@,
            text@ == seq!['"'] + file_name@.take(i as int),
        decreases chars.len() - i,
    {
        text.push(chars[i]);
        proof {
            assert(text@ =~= seq!['"'] + file_name@.take(i + 1));
        }
        i += 1;
    }
    text.push('"');
    proof {
        assert(file_name@.take(chars.len() as int) =~= file_name@);
    }
    text
}

} // verus!

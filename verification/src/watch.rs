//! The flag by which the filesystem watcher tells the player that something
//! changed under a watched root.
//!
//! The watcher's thread only sets the flag; the index is rebuilt on the
//! player's tick, which takes the flag. However many events arrive between
//! two ticks, the index is rebuilt once. The caller shares the flag between
//! the two threads under a lock.

use vstd::prelude::*;

verus! {

/// What cannot be recovered from.
#[derive(Clone, Copy, PartialEq, Eq, Debug, Structural)]
pub enum PlayerError {
    /// The watcher's channel was closed: the index is no longer refreshed.
    WatcherFailed,
    /// A backend's command queue was closed: that backend plays no more.
    BackendDisconnected,
}

/// What the watcher's thread gets from its channel.
#[derive(Clone, Copy, PartialEq, Eq, Debug, Structural)]
pub enum WatchEvent {
    /// A filesystem event, of whatever kind.
    Changed,
    /// The channel was closed.
    Disconnected,
}

/// The watcher's flag.
#[derive(Clone, Copy, PartialEq, Eq, Debug, Structural)]
pub struct DirtyFlag {
    /// Something changed since the flag was last taken.
    pub dirty: bool,
    /// The watcher's channel was closed.
    pub failed: bool,
    /// The failure has been handed to the player.
    pub reported: bool,
}

impl DirtyFlag {
    /// A flag that is not set.
    pub fn new() -> (flag: DirtyFlag)
        ensures
            flag == (DirtyFlag { dirty: false, failed: false, reported: false }),
    {
        DirtyFlag { dirty: false, failed: false, reported: false }
    }

    /// Notes what the watcher's thread got from its channel.
    pub fn note(&mut self, event: WatchEvent)
        ensures
            *final(self) == match event {
                WatchEvent::Changed => DirtyFlag { dirty: true, ..*old(self) },
                WatchEvent::Disconnected => DirtyFlag { failed: true, ..*old(self) },
            },
    {
        match event {
            WatchEvent::Changed => {
                self.dirty = true;
            },
            WatchEvent::Disconnected => {
                self.failed = true;
            },
        }
    }

    /// Takes the flag at a tick: tells whether the index has to be rebuilt,
    /// and clears the flag.
    ///
    /// A failure of the watcher is handed out once, as an error, at the first
    /// tick after it; that tick leaves the flag as it is.
    pub fn take(&mut self) -> (changed: Result<bool, PlayerError>)
        ensures
            old(self).failed && !old(self).reported ==> changed == Err::<bool, PlayerError>(
                PlayerError::WatcherFailed,
            ) && *final(self) == (DirtyFlag { reported: true, ..*old(self) }),
            !(old(self).failed && !old(self).reported) ==> changed == Ok::<bool, PlayerError>(
                old(self).dirty,
            ) && *final(self) == (DirtyFlag { dirty: false, ..*old(self) }),
    {
        if self.failed && !self.reported {
            self.reported = true;
            return Err(PlayerError::WatcherFailed);
        }
        let changed = self.dirty;
        self.dirty = false;
        Ok(changed)
    }
}

/// What a send to a backend's command queue comes to: a failed send is the
/// loss of that backend.
pub fn delivery(sent: bool) -> (outcome: Result<(), PlayerError>)
    ensures
        outcome == if sent {
            Ok::<(), PlayerError>(())
        } else {
            Err::<(), PlayerError>(PlayerError::BackendDisconnected)
        },
{
    if sent {
        Ok(())
    } else {
        Err(PlayerError::BackendDisconnected)
    }
}

} // verus!

//! What the application asks itself to do next.
use vstd::prelude::*;

use crate::app::SavePath;

verus! {

/// Which way the volume goes.
#[derive(Clone, Copy, Debug, PartialEq, Eq, Structural)]
pub enum Amp {
    Up,
    Down,
}

/// An action that a key press asks for.
#[derive(Clone, Copy, Debug, PartialEq, Eq, Structural)]
pub enum AppEvent {
    /// Jump to the given tenth of the track.
    Seek(u64),
    /// Jump two seconds back.
    SkipBack,
    /// Jump two seconds forward.
    SkipForward,
    Volume(Amp),
    /// Move the playing track to a save folder.
    SaveTrack(SavePath),
    /// Delete the playing track.
    DeleteTrack,
    /// Open or close the pause menu.
    Pause,
    /// Act on the selected entry of the pause menu.
    SetPauseMode,
    Quit,
    /// Move the pause menu selection up.
    Up,
    /// Move the pause menu selection down.
    Down,
    /// Choose the folder under the file explorer's cursor.
    Select,
    /// Dismiss the "not a folder" message.
    AcceptError,
}

} // verus!

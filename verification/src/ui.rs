//! The texts and choices of the main screen.
use vstd::prelude::*;

use crate::app::{App, PauseMode};
use crate::paths::{file_name, path_file_name};
use crate::text::{debug_path_text, path_debug_text, views};

verus! {

/// Which file explorer panel shows, if any.
#[derive(Clone, Copy, Debug, PartialEq, Eq, Structural)]
pub enum ExplorerPanel {
    Hidden,
    /// Choosing the folder of a save key.
    SaveFolder,
    /// Choosing the folder to sort.
    IncomingFolder,
}

/// The title of the track list.
pub open spec fn title_of(incoming: Seq<char>) -> Seq<char> {
    "Sorting Tracks in folder \r\n"@ + incoming
}

/// The "now playing" panel, given the playing track's file name as `Debug`
/// shows it.
pub open spec fn now_playing_of(shown: Seq<char>) -> Seq<char> {
    "Now Playing:\n"@ + shown + "\n \r\n\r\n press SPACE for pause menu"@
}

/// Each name followed by `\r\n`.
pub open spec fn list_of(names: Seq<Seq<char>>) -> Seq<char>
    decreases names.len(),
{
    if names.len() == 0 {
        seq![]
    } else {
        list_of(names.drop_last()) + names.last() + "\r\n"@
    }
}

/// The file name of a path, or the empty text when it has none.
pub open spec fn file_name_or_empty(p: Seq<char>) -> Seq<char> {
    match path_file_name(p) {
        Some(n) => n,
        None => seq![],
    }
}

/// The "now playing" panel, given the playing track's file name as `Debug`
/// shows it.
pub fn now_playing_label(shown: &str) -> (text: String)
    ensures
        text@ == now_playing_of(shown@),
{
    let mut text = "Now Playing:\n".to_owned();
    text.append(shown);
    text.append("\n \r\n\r\n press SPACE for pause menu");
    text
}

impl App {
    /// The title of the track list: the folder being sorted.
    pub fn title_text(&self) -> (title: String)
        ensures
            title@ == title_of(self.incoming@),
    {
        let mut title = "Sorting Tracks in folder \r\n".to_owned();
        title.append(self.incoming.as_str());
        title
    }

    /// The "now playing" panel: the playing track's file name, as `Debug`
    /// shows it, and how to pause.
    pub fn now_playing_text(&self) -> (text: String)
        ensures
            text@ == now_playing_of(debug_path_text(file_name_or_empty(self.playing@))),
    {
        let name = match file_name(self.playing.as_str()) {
            Some(n) => n,
            None => String::new(),
        };
        let shown = path_debug_text(name.as_str());
        now_playing_label(shown.as_str())
    }

    /// The text of the track list: each shown name on a line of its own.
    pub fn list_text(&self) -> (text: String)
        ensures
            text@ == list_of(views(self.display_list@)),
    {
        let mut text = String::new();
        let mut i: usize = 0;
        while i < self.display_list.len()
            invariant
                i <= self.display_list.len(),
                text@ == list_of(views(self.display_list@).take(i as int)),
            decreases self.display_list.len() - i,
        {
            text.append(self.display_list[i].as_str());
            text.append("\r\n");
            assert(views(self.display_list@).take(i + 1).drop_last() =~= views(
                self.display_list@,
            ).take(i as int));
            assert(views(self.display_list@).take(i + 1).last() == self.display_list@[i as int]@);
            i += 1;
        }
        assert(views(self.display_list@).take(self.display_list.len() as int) =~= views(
            self.display_list@,
        ));
        text
    }

    /// The progress gauge shows while there are tracks.
    pub fn shows_progress(&self) -> (shown: bool)
        ensures
            shown == (self.track_list.len() > 0),
    {
        self.track_list.len() > 0
    }

    /// The file explorer shows while a folder is being chosen.
    pub fn explorer_panel(&self) -> (panel: ExplorerPanel)
        ensures
            panel == match self.pause_mode {
                PauseMode::SaveSelect(_) => ExplorerPanel::SaveFolder,
                PauseMode::IncomingSelect => ExplorerPanel::IncomingFolder,
                _ => ExplorerPanel::Hidden,
            },
    {
        match self.pause_mode {
            PauseMode::SaveSelect(_) => ExplorerPanel::SaveFolder,
            PauseMode::IncomingSelect => ExplorerPanel::IncomingFolder,
            _ => ExplorerPanel::Hidden,
        }
    }

    /// The "not a folder" message shows over the pause menu.
    pub fn shows_select_error(&self) -> (shown: bool)
        ensures
            shown == (self.pause_mode == PauseMode::SelectError),
    {
        self.pause_mode == PauseMode::SelectError
    }
}

} // verus!

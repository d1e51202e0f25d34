//! The state of the sorter and what each action does to it.
use vstd::prelude::*;

use crate::paths::{
    file_name, has_any_extension, join_file_name, join_path, path_extension, path_file_name,
    FileExtension,
};
use crate::text::{
    all_digits, decimal, digits_value, law_decimal_numeral, law_two_digits_numeral, push_decimal,
    push_two_digits, two_digits, views,
};

verus! {

/// The screen that has the keyboard.
#[derive(Clone, Copy, Debug, PartialEq, Eq, Structural)]
pub enum PauseMode {
    /// A track plays.
    NotPaused,
    /// The pause menu.
    MainMenu,
    /// The file explorer, choosing the folder of a save key.
    SaveSelect(SavePath),
    /// The file explorer, choosing the folder to sort.
    IncomingSelect,
    /// The message that a file was chosen where a folder was needed.
    SelectError,
}

impl Default for PauseMode {
    fn default() -> (mode: PauseMode)
        ensures
            mode == PauseMode::NotPaused,
    {
        PauseMode::NotPaused
    }
}

/// The three save keys.
#[derive(Clone, Copy, Debug, PartialEq, Eq, Structural)]
pub enum SavePath {
    A,
    D,
    G,
}

/// The short-lived mark of the last action on the screen.
#[derive(Clone, Copy, Debug, PartialEq, Eq, Structural)]
pub enum Indicator {
    Volume,
    Scrubbed,
    SavedA,
    SavedD,
    SavedG,
    Deleted,
}

/// What the audio sink is told to do.
#[derive(Clone, Copy, Debug, PartialEq, Eq, Structural)]
pub enum SinkCommand {
    Play,
    Pause,
}

/// Whether the folder to sort was there to be listed.
#[derive(Clone, Copy, Debug, PartialEq, Eq, Structural)]
pub enum LoadResult {
    Loaded,
    /// The folder does not exist: a fresh configuration is due.
    MissingFolder,
}

/// What opening and decoding a track gave.
#[derive(Clone, Copy, Debug, PartialEq, Eq, Structural)]
pub enum Decode {
    /// It decodes; its length in whole seconds.
    Playable(u64),
    /// It could not be opened or decoded.
    Unplayable,
}

/// What the search for a playable track asks next.
#[derive(Debug)]
pub enum PlayStep {
    /// Open and decode this track, and hand back the result with `dropped`.
    Try { path: String, dropped: bool },
    /// The track offered last plays.
    Started,
    /// No track is left to play.
    Exhausted,
}

/// What saving the playing track asks of the caller.
#[derive(Debug)]
pub enum SaveAction {
    /// Nothing happens.
    Ignored,
    /// The save key has no folder yet: the pause menu opens on its entry, and
    /// the sink is told this.
    ChooseFolder(SinkCommand),
    /// Move the file `from` to `to`, clear the sink, reload the folder when
    /// `reload`, and play on.
    Move { from: String, to: String, reload: bool },
}

/// What deleting the playing track asks of the caller.
#[derive(Debug)]
pub enum DeleteAction {
    /// Nothing happens.
    Ignored,
    /// Clear the sink, delete the file `path`, reload the folder when
    /// `reload`, and play on.
    Delete { path: String, reload: bool },
}

/// What acting on a pause menu entry asks of the caller.
#[derive(Debug)]
pub enum MenuAction {
    Nothing,
    /// Open the file explorer in this folder.
    Explore(String),
    /// Tell the sink this (the menu closed).
    Sink(SinkCommand),
}

/// What choosing the explorer's entry asks of the caller.
#[derive(Debug)]
pub enum SelectAction {
    Nothing,
    /// A file was chosen: the "not a folder" message shows.
    Rejected,
    /// Store `folder` under `key`, clear the sink, list the folder and play it.
    LoadIncoming { key: String, folder: String },
    /// Store `folder` under `key` and play on.
    SaveFolder { key: String, folder: String },
}

/// The extensions of the audio files that are sorted.
pub open spec fn audio_extensions() -> Seq<Seq<char>> {
    seq!["mp3"@, "wav"@, "flac"@]
}

/// The entries of a folder listing that are audio files, in listing order.
pub open spec fn audio_entries(entries: Seq<Seq<char>>) -> Seq<Seq<char>>
    decreases entries.len(),
{
    if entries.len() == 0 {
        seq![]
    } else {
        let rest = audio_entries(entries.drop_last());
        if has_any_extension(entries.last(), audio_extensions()) {
            rest.push(entries.last())
        } else {
            rest
        }
    }
}

/// The file names of the tracks that have one, in order.
pub open spec fn track_names(tracks: Seq<Seq<char>>) -> Seq<Seq<char>>
    decreases tracks.len(),
{
    if tracks.len() == 0 {
        seq![]
    } else {
        let rest = track_names(tracks.drop_last());
        match path_file_name(tracks.last()) {
            Some(n) => rest.push(n),
            None => rest,
        }
    }
}

/// The names shown in the list: those of the tracks from `index` on.
pub open spec fn display_names(tracks: Seq<Seq<char>>, index: int) -> Seq<Seq<char>> {
    if 0 <= index <= tracks.len() {
        track_names(tracks.subrange(index, tracks.len() as int))
    } else {
        seq![]
    }
}

/// The progress label: `m:ss out of m:ss`.
pub open spec fn time_label(pos: u64, len: u64) -> Seq<char> {
    decimal((pos / 60) as nat) + seq![':'] + two_digits((pos % 60) as nat) + " out of "@ + decimal(
        (len / 60) as nat,
    ) + seq![':'] + two_digits((len % 60) as nat)
}

/// The progress label reads `m:ss out of m:ss`: the whole minutes of the
/// position as a numeral without leading zeros, a colon, the seconds left
/// over as exactly two digits, ` out of `, and the same for the length.
pub proof fn law_time_label_fields(pos: u64, len: u64)
    ensures
        ({
            let l = time_label(pos, len);
            let k = decimal((pos / 60) as nat).len() as int;
            let n = l.len() as int;
            &&& 1 <= k
            &&& k + 15 <= n
            &&& all_digits(l.subrange(0, k))
            &&& digits_value(l.subrange(0, k)) == pos / 60
            &&& l[0] == '0' ==> pos / 60 == 0
            &&& l[k] == ':'
            &&& all_digits(l.subrange(k + 1, k + 3))
            &&& digits_value(l.subrange(k + 1, k + 3)) == pos % 60
            &&& l.subrange(k + 3, k + 11) == " out of "@
            &&& all_digits(l.subrange(k + 11, n - 3))
            &&& digits_value(l.subrange(k + 11, n - 3)) == len / 60
            &&& l[k + 11] == '0' ==> len / 60 == 0
            &&& l[n - 3] == ':'
            &&& all_digits(l.subrange(n - 2, n))
            &&& digits_value(l.subrange(n - 2, n)) == len % 60
        }),
{
    reveal_strlit(" out of ");
    let a = decimal((pos / 60) as nat);
    let b = two_digits((pos % 60) as nat);
    let o = " out of "@;
    let c = decimal((len / 60) as nat);
    let d = two_digits((len % 60) as nat);
    law_decimal_numeral((pos / 60) as nat);
    law_two_digits_numeral((pos % 60) as nat);
    law_decimal_numeral((len / 60) as nat);
    law_two_digits_numeral((len % 60) as nat);
    let l = time_label(pos, len);
    let k = a.len() as int;
    let n = l.len() as int;
    assert(l == a + seq![':'] + b + o + c + seq![':'] + d);
    assert(n == k + 1 + 2 + 8 + c.len() + 1 + 2);
    assert(l.subrange(0, k) =~= a);
    assert(l[0] == a[0]);
    assert(l.subrange(k + 1, k + 3) =~= b);
    assert(l.subrange(k + 3, k + 11) =~= o);
    assert(l.subrange(k + 11, n - 3) =~= c);
    assert(l[k + 11] == c[0]);
    assert(l.subrange(n - 2, n) =~= d);
}

/// Two seconds before `pos` (in nanoseconds), but not before the start.
pub open spec fn skip_back_target(pos: u128) -> u128 {
    if pos >= SKIP_NANOS {
        (pos - SKIP_NANOS) as u128
    } else {
        0
    }
}

/// Two seconds after `pos` (in nanoseconds), but not past the longest
/// `Duration`.
pub open spec fn skip_forward_target(pos: u128) -> u128 {
    if pos + SKIP_NANOS <= MAX_DURATION_NANOS {
        (pos + SKIP_NANOS) as u128
    } else {
        MAX_DURATION_NANOS
    }
}

/// The longest span a `Duration` holds, in nanoseconds.
pub const MAX_DURATION_NANOS: u128 = 18_446_744_073_709_551_615_999_999_999u128;

/// Two seconds, in nanoseconds.
pub const SKIP_NANOS: u128 = 2_000_000_000u128;

/// How long each mark stays, in milliseconds.
pub const VOLUME_MARK_MS: u64 = 500u64;
pub const SCRUB_MARK_MS: u64 = 200u64;
pub const SAVE_MARK_MS: u64 = 300u64;
pub const DELETE_MARK_MS: u64 = 400u64;

/// The value of an optional string.
pub open spec fn opt_view(o: Option<String>) -> Option<Seq<char>> {
    match o {
        Some(s) => Some(s@),
        None => None,
    }
}

/// The state of the sorter, as plain values.
#[verifier::ext_equal]
pub struct AppView {
    pub running: bool,
    pub incoming: Seq<char>,
    pub save_a: Option<Seq<char>>,
    pub save_d: Option<Seq<char>>,
    pub save_g: Option<Seq<char>>,
    pub tracks: Seq<Seq<char>>,
    pub display: Seq<Seq<char>>,
    pub index: int,
    pub playing: Seq<char>,
    pub paused: bool,
    pub menu: Option<usize>,
    pub mode: PauseMode,
    pub explorer_path: Seq<char>,
    pub explorer_index: usize,
    pub length_secs: u64,
    pub progress: usize,
    pub format_time: Seq<char>,
    pub indicator: Option<Indicator>,
    pub deadline: Option<u64>,
}

/// The sorter: the folder being sorted, its tracks, the save folders, and
/// what the screen shows.
pub struct App {
    /// Is the application running?
    pub running: bool,
    /// The folder being sorted.
    pub incoming: String,
    pub save_path_a: Option<String>,
    pub save_path_d: Option<String>,
    pub save_path_g: Option<String>,
    /// The audio files of the folder being sorted.
    pub track_list: Vec<String>,
    /// The names shown in the list.
    pub display_list: Vec<String>,
    /// The position of the playing track in `track_list`.
    pub index: usize,
    /// The path of the playing track (empty when none plays).
    pub playing: String,
    pub paused: bool,
    /// The selected entry of the pause menu.
    pub pause_menu: Option<usize>,
    pub pause_mode: PauseMode,
    pub explorer_path: String,
    pub explorer_index: usize,
    /// The length of the playing track in whole seconds.
    pub length_secs: u64,
    /// How far the playing track is, in percent.
    pub progress: usize,
    /// The progress label.
    pub format_time: String,
    pub visual_action_indicator: Option<Indicator>,
    /// When the mark goes away, in milliseconds of the caller's clock.
    pub indicator_deadline: Option<u64>,
}

impl View for App {
    type V = AppView;

    open spec fn view(&self) -> AppView {
        AppView {
            running: self.running,
            incoming: self.incoming@,
            save_a: opt_view(self.save_path_a),
            save_d: opt_view(self.save_path_d),
            save_g: opt_view(self.save_path_g),
            tracks: views(self.track_list@),
            display: views(self.display_list@),
            index: self.index as int,
            playing: self.playing@,
            paused: self.paused,
            menu: self.pause_menu,
            mode: self.pause_mode,
            explorer_path: self.explorer_path@,
            explorer_index: self.explorer_index,
            length_secs: self.length_secs,
            progress: self.progress,
            format_time: self.format_time@,
            indicator: self.visual_action_indicator,
            deadline: self.indicator_deadline,
        }
    }
}

impl AppView {
    /// What every state of the sorter keeps: the playing position lies within
    /// the tracks, every track has a file name, the pause menu selection is
    /// one of its five entries, and every save key has a folder (possibly the
    /// empty one, meaning none is chosen).
    pub open spec fn wf(self) -> bool {
        &&& 0 <= self.index <= self.tracks.len()
        &&& forall|i: int| 0 <= i < self.tracks.len() ==> (#[trigger] path_file_name(self.tracks[i])) is Some
        &&& self.menu matches Some(m) && m <= 4
        &&& self.save_a is Some
        &&& self.save_d is Some
        &&& self.save_g is Some
    }

    /// The folder of a save key.
    pub open spec fn save_folder(self, which: SavePath) -> Option<Seq<char>> {
        match which {
            SavePath::A => self.save_a,
            SavePath::D => self.save_d,
            SavePath::G => self.save_g,
        }
    }

    /// The state with the folder of a save key replaced.
    pub open spec fn with_save_folder(self, which: SavePath, folder: Option<Seq<char>>) -> AppView {
        match which {
            SavePath::A => AppView { save_a: folder, ..self },
            SavePath::D => AppView { save_d: folder, ..self },
            SavePath::G => AppView { save_g: folder, ..self },
        }
    }

    /// The state with a mark shown until `now + timeout`.
    pub open spec fn with_indicator(self, indicator: Indicator, timeout: u64, now: u64) -> AppView {
        AppView {
            indicator: Some(indicator),
            deadline: Some((now + timeout) as u64),
            ..self
        }
    }

    /// After a tick at time `now` with the sink at second `pos`: a mark whose
    /// time is up goes away, and when a track of known length plays and `pos`
    /// lies strictly inside it, the progress and its label follow `pos`.
    pub open spec fn after_tick(self, now: u64, pos: u64) -> AppView {
        let s = if self.deadline matches Some(d) && now >= d {
            AppView { indicator: None, deadline: None, ..self }
        } else {
            self
        };
        if s.length_secs != 0 && 0 < pos < s.length_secs {
            AppView {
                progress: (pos * 100 / (s.length_secs as int)) as usize,
                format_time: time_label(pos, s.length_secs),
                ..s
            }
        } else {
            s
        }
    }

    /// After the list is written: it shows the names of the tracks from the
    /// playing one on.
    pub open spec fn after_list_write(self) -> AppView {
        AppView { display: display_names(self.tracks, self.index), ..self }
    }

    /// After the folder to sort is listed (`None`: it does not exist): its
    /// audio files become the tracks and the first one is next; a missing
    /// folder opens its chooser.
    pub open spec fn after_load_tracks(self, listing: Option<Seq<Seq<char>>>) -> AppView {
        match listing {
            Some(entries) => AppView { tracks: audio_entries(entries), index: 0, ..self },
            None => AppView { paused: true, mode: PauseMode::IncomingSelect, ..self },
        }
    }

    /// After one step of the search for a playable track from the playing
    /// position. `last` is what the track offered by the previous step gave
    /// (`None` when the search begins); `dropped` tells whether the search
    /// has dropped a track before. A playable track plays (its length and
    /// path are taken). An unplayable one leaves the list. When no track is
    /// left at the position, none plays. Once the search ends, the list is
    /// rewritten if a track was dropped.
    pub open spec fn after_playback_step(self, last: Option<Decode>, dropped: bool) -> AppView {
        match last {
            Some(Decode::Playable(len)) => {
                let s = AppView { length_secs: len, playing: self.tracks[self.index], ..self };
                if dropped {
                    s.after_list_write()
                } else {
                    s
                }
            },
            _ => {
                let s = if last is Some {
                    AppView { tracks: self.tracks.remove(self.index), ..self }
                } else {
                    self
                };
                if s.index < s.tracks.len() {
                    s
                } else {
                    let t = AppView { playing: seq![], length_secs: 0, ..s };
                    if dropped || last is Some {
                        t.after_list_write()
                    } else {
                        t
                    }
                }
            },
        }
    }

    /// After the pause key, with the sink paused or not: the menu selection
    /// goes to its first entry and the paused flag flips; a paused sink plays
    /// again and the screen returns to the track, a playing sink pauses and the
    /// menu shows.
    pub open spec fn after_pause(self, sink_paused: bool) -> AppView {
        AppView {
            menu: Some(0),
            paused: !self.paused,
            mode: if sink_paused {
                PauseMode::NotPaused
            } else {
                PauseMode::MainMenu
            },
            ..self
        }
    }

    /// What the pause key tells the sink.
    pub open spec fn pause_command(sink_paused: bool) -> SinkCommand {
        if sink_paused {
            SinkCommand::Play
        } else {
            SinkCommand::Pause
        }
    }
}

/// The mark of a save key.
pub open spec fn save_indicator(which: SavePath) -> Indicator {
    match which {
        SavePath::A => Indicator::SavedA,
        SavePath::D => Indicator::SavedD,
        SavePath::G => Indicator::SavedG,
    }
}

/// The pause menu entry of a save key.
pub open spec fn save_menu_entry(which: SavePath) -> usize {
    match which {
        SavePath::A => 1,
        SavePath::D => 2,
        SavePath::G => 3,
    }
}

/// The configuration key of a save key.
pub open spec fn save_env_key(which: SavePath) -> Seq<char> {
    match which {
        SavePath::A => "SAVE_PATH_A"@,
        SavePath::D => "SAVE_PATH_D"@,
        SavePath::G => "SAVE_PATH_G"@,
    }
}

/// Selects the next entry of a list selection, through ratatui's
/// `ListState::select_next`: one past the selected entry (staying at
/// `usize::MAX`), or the first entry when none is selected.
#[verifier::external_body]
fn list_select_next(selected: Option<usize>) -> (next: Option<usize>)
    ensures
        next == Some(
            match selected {
                None => 0usize,
                Some(i) => if i == usize::MAX {
                    i
                } else {
                    (i + 1) as usize
                },
            },
        ),
{
    let mut state = ratatui::widgets::ListState::default().with_selected(selected);
    state.select_next();
    state.selected()
}

/// Selects the previous entry of a list selection, through ratatui's
/// `ListState::select_previous`: one before the selected entry (staying at
/// 0), or the last possible entry (`usize::MAX`) when none is selected.
#[verifier::external_body]
fn list_select_previous(selected: Option<usize>) -> (previous: Option<usize>)
    ensures
        previous == Some(
            match selected {
                None => usize::MAX,
                Some(i) => if i == 0 {
                    0usize
                } else {
                    (i - 1) as usize
                },
            },
        ),
{
    let mut state = ratatui::widgets::ListState::default().with_selected(selected);
    state.select_previous();
    state.selected()
}

impl SavePath {
    /// The configuration key that holds this save key's folder.
    pub fn env_key(self) -> (key: &'static str)
        ensures
            key@ == save_env_key(self),
    {
        proof {
            reveal_strlit("SAVE_PATH_A");
            reveal_strlit("SAVE_PATH_D");
            reveal_strlit("SAVE_PATH_G");
        }
        match self {
            SavePath::A => "SAVE_PATH_A",
            SavePath::D => "SAVE_PATH_D",
            SavePath::G => "SAVE_PATH_G",
        }
    }
}

/// Every audio entry has a file name (an extension needs one).
proof fn lemma_audio_entries_named(entries: Seq<Seq<char>>)
    ensures
        forall|i: int|
            0 <= i < audio_entries(entries).len() ==> (#[trigger] path_file_name(
                audio_entries(entries)[i],
            )) is Some,
    decreases entries.len(),
{
    if entries.len() > 0 {
        lemma_audio_entries_named(entries.drop_last());
    }
}

/// The view of a listing.
pub open spec fn listing_view(listing: Option<Vec<String>>) -> Option<Seq<Seq<char>>> {
    match listing {
        Some(v) => Some(views(v@)),
        None => None,
    }
}

fn audio_files_of(entries: &Vec<String>) -> (files: Vec<String>)
    ensures
        views(files@) == audio_entries(views(entries@)),
{
    let exts: [&str; 3] = ["mp3", "wav", "flac"];
    assert(exts@.map_values(|e: &str| e@) =~= audio_extensions());
    let mut files: Vec<String> = Vec::new();
    let mut i: usize = 0;
    while i < entries.len()
        invariant
            i <= entries.len(),
            exts@.map_values(|e: &str| e@) == audio_extensions(),
            views(files@) == audio_entries(views(entries@).take(i as int)),
        decreases entries.len() - i,
    {
        let ghost before = files@;
        assert(views(entries@).take(i + 1).drop_last() =~= views(entries@).take(i as int));
        assert(views(entries@).take(i + 1).last() == entries@[i as int]@);
        if entries[i].has_extension(exts.as_slice()) {
            files.push(entries[i].clone());
            assert(views(files@) =~= views(before).push(entries@[i as int]@));
        }
        i += 1;
    }
    assert(views(entries@).take(entries.len() as int) =~= views(entries@));
    files
}

impl App {
    /// A sorter for the folder `incoming`, with the given save folders (an
    /// empty one means none is chosen), before any track is loaded.
    pub fn new(incoming: String, save_path_a: String, save_path_d: String, save_path_g: String) -> (app: App)
        ensures
            app@ == (AppView {
                running: true,
                incoming: incoming@,
                save_a: Some(save_path_a@),
                save_d: Some(save_path_d@),
                save_g: Some(save_path_g@),
                tracks: seq![],
                display: seq![],
                index: 0,
                playing: seq![],
                paused: false,
                menu: Some(0),
                mode: PauseMode::NotPaused,
                explorer_path: seq![],
                explorer_index: 0,
                length_secs: 0,
                progress: 0,
                format_time: seq![],
                indicator: None,
                deadline: None,
            }),
            app@.wf(),
    {
        let app = App {
            running: true,
            incoming,
            save_path_a: Some(save_path_a),
            save_path_d: Some(save_path_d),
            save_path_g: Some(save_path_g),
            track_list: Vec::new(),
            display_list: Vec::new(),
            index: 0,
            playing: String::new(),
            paused: false,
            pause_menu: Some(0),
            pause_mode: PauseMode::NotPaused,
            explorer_path: String::new(),
            explorer_index: 0,
            length_secs: 0,
            progress: 0,
            format_time: String::new(),
            visual_action_indicator: None,
            indicator_deadline: None,
        };
        assert(app@.tracks =~= Seq::<Seq<char>>::empty());
        assert(app@.display =~= Seq::<Seq<char>>::empty());
        app
    }

    /// Shows a mark until `timeout_ms` milliseconds after `now_ms`; the mark is
    /// taken away by a later `tick`.
    pub fn set_indicator(&mut self, indicator: Indicator, timeout_ms: u64, now_ms: u64)
        requires
            now_ms + timeout_ms <= u64::MAX,
        ensures
            final(self)@ == old(self)@.with_indicator(indicator, timeout_ms, now_ms),
    {
        self.visual_action_indicator = Some(indicator);
        self.indicator_deadline = Some(now_ms + timeout_ms);
    }

    /// The periodic update at time `now_ms`, with the sink at second
    /// `pos_secs` of the playing track (see `AppView::after_tick`).
    pub fn tick(&mut self, now_ms: u64, pos_secs: u64)
        ensures
            final(self)@ == old(self)@.after_tick(now_ms, pos_secs),
            old(self)@.wf() ==> final(self)@.wf(),
    {
        if let Some(deadline) = self.indicator_deadline {
            if now_ms >= deadline {
                self.visual_action_indicator = None;
                self.indicator_deadline = None;
            }
        }
        let secs = self.length_secs;
        if secs == 0 {
            return;
        }
        if 0 < pos_secs && pos_secs < secs {
            let percent = (pos_secs as u128 * 100) / (secs as u128);
            assert(percent < 100) by (nonlinear_arith)
                requires
                    percent as int == (pos_secs as int * 100) / (secs as int),
                    pos_secs < secs,
            ;
            self.progress = percent as usize;
            let mut label = String::new();
            push_decimal(&mut label, pos_secs / 60);
            label.append(":");
            push_two_digits(&mut label, pos_secs % 60);
            label.append(" out of ");
            push_decimal(&mut label, secs / 60);
            label.append(":");
            push_two_digits(&mut label, secs % 60);
            proof {
                reveal_strlit(":");
                assert(label@ =~= time_label(pos_secs, secs));
            }
            self.format_time = label;
        }
    }

    /// Stops the application.
    pub fn quit(&mut self)
        ensures
            final(self)@ == (AppView { running: false, ..old(self)@ }),
            old(self)@.wf() ==> final(self)@.wf(),
    {
        self.running = false;
    }

    /// Takes in the listing of the folder to sort (`None` when the folder does
    /// not exist; see `AppView::after_load_tracks`).
    pub fn load_tracks(&mut self, listing: Option<Vec<String>>) -> (result: LoadResult)
        ensures
            final(self)@ == old(self)@.after_load_tracks(listing_view(listing)),
            result == (if listing is Some {
                LoadResult::Loaded
            } else {
                LoadResult::MissingFolder
            }),
            old(self)@.wf() ==> final(self)@.wf(),
    {
        match listing {
            Some(entries) => {
                self.track_list = audio_files_of(&entries);
                self.index = 0;
                proof {
                    lemma_audio_entries_named(views(entries@));
                }
                LoadResult::Loaded
            },
            None => {
                self.paused = true;
                self.pause_mode = PauseMode::IncomingSelect;
                LoadResult::MissingFolder
            },
        }
    }

    /// Writes the list: the names of the tracks from the playing one on.
    pub fn list_write(&mut self)
        ensures
            final(self)@ == old(self)@.after_list_write(),
            old(self)@.wf() ==> final(self)@.wf(),
    {
        let ghost tracks = views(self.track_list@);
        let mut names: Vec<String> = Vec::new();
        let n = self.track_list.len();
        if self.index <= n {
            let mut i = self.index;
            assert(tracks.subrange(self.index as int, self.index as int) =~= Seq::<Seq<char>>::empty());
            while i < n
                invariant
                    self.index <= i <= n,
                    n == self.track_list.len(),
                    tracks == views(self.track_list@),
                    views(names@) == track_names(tracks.subrange(self.index as int, i as int)),
                decreases n - i,
            {
                let ghost before = names@;
                assert(tracks.subrange(self.index as int, i + 1).drop_last() =~= tracks.subrange(
                    self.index as int,
                    i as int,
                ));
                assert(tracks.subrange(self.index as int, i + 1).last() == self.track_list@[i as int]@);
                match file_name(self.track_list[i].as_str()) {
                    Some(name) => {
                        names.push(name);
                        assert(views(names@) =~= views(before).push(path_file_name(tracks[i as int])->0));
                    },
                    None => {},
                }
                i += 1;
            }
        } else {
            assert(views(names@) =~= Seq::<Seq<char>>::empty());
        }
        self.display_list = names;
    }

    /// One step of the search for a playable track from the playing position
    /// (see `AppView::after_playback_step`): it takes what the track offered
    /// last gave, and offers the next track to try, or ends the search.
    pub fn start_playback(&mut self, last: Option<Decode>, dropped: bool) -> (step: PlayStep)
        requires
            last is Some ==> old(self).index < old(self).track_list.len(),
        ensures
            final(self)@ == old(self)@.after_playback_step(last, dropped),
            old(self)@.wf() ==> final(self)@.wf(),
            match step {
                PlayStep::Started => last matches Some(Decode::Playable(_)),
                PlayStep::Try { path, dropped: d } => {
                    &&& !(last matches Some(Decode::Playable(_)))
                    &&& final(self).index < final(self).track_list.len()
                    &&& path@ == final(self)@.tracks[final(self).index as int]
                    &&& d == (dropped || last is Some)
                },
                PlayStep::Exhausted => {
                    &&& !(last matches Some(Decode::Playable(_)))
                    &&& final(self).index >= final(self).track_list.len()
                },
            },
    {
        match last {
            Some(Decode::Playable(len)) => {
                self.length_secs = len;
                self.playing = self.track_list[self.index].clone();
                if dropped {
                    self.list_write();
                }
                return PlayStep::Started;
            },
            Some(Decode::Unplayable) => {
                let ghost before = views(self.track_list@);
                let idx = self.index;
                self.track_list.remove(idx);
                proof {
                    let tracks = views(self.track_list@);
                    assert(tracks =~= before.remove(idx as int));
                    if old(self)@.wf() {
                        assert forall|i: int| 0 <= i < tracks.len() implies (#[trigger] path_file_name(
                            tracks[i],
                        )) is Some by {
                            if i < idx {
                                assert(tracks[i] == before[i]);
                            } else {
                                assert(tracks[i] == before[i + 1]);
                            }
                        }
                    }
                }
            },
            None => {},
        }
        let dropped_any = dropped || last.is_some();
        if self.index < self.track_list.len() {
            return PlayStep::Try {
                path: self.track_list[self.index].clone(),
                dropped: dropped_any,
            };
        }
        self.playing = String::new();
        self.length_secs = 0;
        if dropped_any {
            self.list_write();
        }
        PlayStep::Exhausted
    }
}

impl AppView {
    /// After a seek or a skip: unless paused, the scrub mark shows.
    pub open spec fn after_scrub(self, now: u64) -> AppView {
        if self.paused {
            self
        } else {
            self.with_indicator(Indicator::Scrubbed, SCRUB_MARK_MS, now)
        }
    }

    /// After the save key `which`, with the sink paused or not (see
    /// `App::save_track`).
    pub open spec fn after_save_track(self, which: SavePath, now: u64, sink_paused: bool) -> AppView {
        if self.paused || self.tracks.len() == 0 {
            self
        } else {
            let s = self.with_indicator(save_indicator(which), SAVE_MARK_MS, now);
            if self.save_folder(which)->0.len() == 0 {
                AppView {
                    menu: Some(save_menu_entry(which)),
                    mode: PauseMode::SaveSelect(which),
                    ..s.after_pause(sink_paused)
                }
            } else {
                AppView { index: self.index + 1, ..s }.after_list_write()
            }
        }
    }

    /// After the delete key (see `App::delete_track`).
    pub open spec fn after_delete_track(self, now: u64) -> AppView {
        if self.paused || self.tracks.len() == 0 {
            self
        } else {
            AppView {
                index: self.index + 1,
                ..self.with_indicator(Indicator::Deleted, DELETE_MARK_MS, now)
            }.after_list_write()
        }
    }

    /// After the folder is listed again because few tracks are left: the
    /// tracks are loaded, the list is written, and the first track is next.
    pub open spec fn after_reload_tracks(self, listing: Option<Seq<Seq<char>>>) -> AppView {
        AppView { index: 0, ..self.after_load_tracks(listing).after_list_write() }
    }

    /// After acting on the selected pause menu entry (see
    /// `App::set_pause_mode`).
    pub open spec fn after_set_pause_mode(self, sink_paused: bool) -> AppView {
        let m = self.menu->0;
        if m == 0 {
            AppView {
                mode: PauseMode::IncomingSelect,
                explorer_path: self.incoming,
                explorer_index: 0,
                ..self
            }
        } else if m == 1 {
            AppView {
                mode: PauseMode::SaveSelect(SavePath::A),
                explorer_path: self.save_a->0,
                explorer_index: 0,
                ..self
            }
        } else if m == 2 {
            AppView {
                mode: PauseMode::SaveSelect(SavePath::D),
                explorer_path: self.save_d->0,
                explorer_index: 0,
                ..self
            }
        } else if m == 3 {
            AppView {
                mode: PauseMode::SaveSelect(SavePath::G),
                explorer_path: self.save_g->0,
                explorer_index: 0,
                ..self
            }
        } else if m == 4 {
            self.after_pause(sink_paused)
        } else {
            self
        }
    }

    /// After choosing the explorer's entry `path`, a file or not (see
    /// `App::select`).
    pub open spec fn after_select(self, is_file: bool, path: Seq<char>) -> AppView {
        if is_file {
            AppView { mode: PauseMode::SelectError, ..self }
        } else {
            match self.mode {
                PauseMode::IncomingSelect => AppView { incoming: path, paused: false, ..self },
                PauseMode::SaveSelect(which) => AppView {
                    paused: false,
                    mode: PauseMode::NotPaused,
                    ..self.with_save_folder(which, Some(path))
                },
                _ => AppView { paused: false, ..self },
            }
        }
    }

    /// After the chosen folder to sort is listed: its tracks are loaded and
    /// the screen returns to playing.
    pub open spec fn after_load_incoming(self, listing: Option<Seq<Seq<char>>>) -> AppView {
        AppView {
            paused: false,
            mode: PauseMode::NotPaused,
            ..self.after_load_tracks(listing)
        }
    }
}

impl App {
    fn save_folder_of(&self, which: SavePath) -> (folder: &Option<String>)
        ensures
            opt_view(*folder) == self@.save_folder(which),
    {
        match which {
            SavePath::A => &self.save_path_a,
            SavePath::D => &self.save_path_d,
            SavePath::G => &self.save_path_g,
        }
    }

    /// The volume keys show the volume mark; the gain itself is the sink's.
    pub fn volume(&mut self, now_ms: u64)
        requires
            now_ms + VOLUME_MARK_MS <= u64::MAX,
        ensures
            final(self)@ == old(self)@.with_indicator(Indicator::Volume, VOLUME_MARK_MS, now_ms),
            old(self)@.wf() ==> final(self)@.wf(),
    {
        self.set_indicator(Indicator::Volume, VOLUME_MARK_MS, now_ms);
    }

    /// A seek by a digit key. Unless paused, the scrub mark shows and the
    /// seek goes ahead (the caller computes the second to go to from the
    /// track length in floating point, restarts playback and seeks there).
    pub fn seek(&mut self, now_ms: u64) -> (go: bool)
        requires
            !old(self).paused ==> now_ms + SCRUB_MARK_MS <= u64::MAX,
        ensures
            final(self)@ == old(self)@.after_scrub(now_ms),
            go == !old(self).paused,
            old(self)@.wf() ==> final(self)@.wf(),
    {
        if self.paused {
            return false;
        }
        self.set_indicator(Indicator::Scrubbed, SCRUB_MARK_MS, now_ms);
        true
    }

    /// Two seconds back from `pos_nanos` (not before the start). Unless
    /// paused, the scrub mark shows and the position to go to comes back (the
    /// caller then restarts playback there).
    pub fn skip_back(&mut self, pos_nanos: u128, now_ms: u64) -> (target: Option<u128>)
        requires
            !old(self).paused ==> now_ms + SCRUB_MARK_MS <= u64::MAX,
        ensures
            final(self)@ == old(self)@.after_scrub(now_ms),
            target == (if old(self).paused {
                None
            } else {
                Some(skip_back_target(pos_nanos))
            }),
            old(self)@.wf() ==> final(self)@.wf(),
    {
        if self.paused {
            return None;
        }
        self.set_indicator(Indicator::Scrubbed, SCRUB_MARK_MS, now_ms);
        Some(pos_nanos.saturating_sub(SKIP_NANOS))
    }

    /// Two seconds forward from `pos_nanos` (not past the longest `Duration`).
    /// Unless paused, the scrub mark shows and the position to go to comes
    /// back.
    pub fn skip_forward(&mut self, pos_nanos: u128, now_ms: u64) -> (target: Option<u128>)
        requires
            pos_nanos <= MAX_DURATION_NANOS,
            !old(self).paused ==> now_ms + SCRUB_MARK_MS <= u64::MAX,
        ensures
            final(self)@ == old(self)@.after_scrub(now_ms),
            target == (if old(self).paused {
                None
            } else {
                Some(skip_forward_target(pos_nanos))
            }),
            old(self)@.wf() ==> final(self)@.wf(),
    {
        if self.paused {
            return None;
        }
        self.set_indicator(Indicator::Scrubbed, SCRUB_MARK_MS, now_ms);
        let t = pos_nanos + SKIP_NANOS;
        if t <= MAX_DURATION_NANOS {
            Some(t)
        } else {
            Some(MAX_DURATION_NANOS)
        }
    }

    /// The pause key, with the sink paused or not (see `AppView::after_pause`);
    /// what the sink is told comes back.
    pub fn pause(&mut self, sink_paused: bool) -> (command: SinkCommand)
        ensures
            final(self)@ == old(self)@.after_pause(sink_paused),
            command == AppView::pause_command(sink_paused),
            old(self)@.wf() ==> final(self)@.wf(),
    {
        self.pause_menu = Some(0);
        self.paused = !self.paused;
        if sink_paused {
            self.pause_mode = PauseMode::NotPaused;
            SinkCommand::Play
        } else {
            self.pause_mode = PauseMode::MainMenu;
            SinkCommand::Pause
        }
    }

    /// The save key `which`. Nothing happens while paused or with no tracks.
    /// Otherwise the save mark shows; when the key has no folder yet, the
    /// pause menu opens on its entry and its folder chooser is next;
    /// otherwise the playing track is to move into the key's folder, the next
    /// track comes up, and the folder is to be listed again when fewer than
    /// five names are left.
    pub fn save_track(&mut self, which: SavePath, now_ms: u64, sink_paused: bool) -> (action: SaveAction)
        requires
            !old(self).paused && old(self).track_list.len() > 0 ==> now_ms + SAVE_MARK_MS
                <= u64::MAX && old(self)@.save_folder(which) is Some,
            !old(self).paused && old(self).track_list.len() > 0 && old(self)@.save_folder(
                which,
            )->0.len() > 0 ==> old(self).index < old(self).track_list.len() && path_file_name(
                old(self)@.tracks[old(self).index as int],
            ) is Some,
        ensures
            final(self)@ == old(self)@.after_save_track(which, now_ms, sink_paused),
            old(self)@.wf() ==> final(self)@.wf(),
            match action {
                SaveAction::Ignored => old(self).paused || old(self).track_list.len() == 0,
                SaveAction::ChooseFolder(c) => !old(self).paused && old(self).track_list.len() > 0
                    && old(self)@.save_folder(which)->0.len() == 0 && c == AppView::pause_command(
                    sink_paused,
                ),
                SaveAction::Move { from, to, reload } => {
                    let s = old(self)@;
                    &&& !s.paused && s.tracks.len() > 0 && s.save_folder(which)->0.len() > 0
                    &&& from@ == s.tracks[s.index]
                    &&& to@ == join_path(
                        s.save_folder(which)->0,
                        path_file_name(s.tracks[s.index])->0,
                    )
                    &&& reload == (final(self)@.display.len() < 5)
                },
            },
    {
        if self.paused || self.track_list.len() == 0 {
            return SaveAction::Ignored;
        }
        let indicator = match which {
            SavePath::A => Indicator::SavedA,
            SavePath::D => Indicator::SavedD,
            SavePath::G => Indicator::SavedG,
        };
        let dir: String = match self.save_folder_of(which) {
            Some(d) => d.clone(),
            None => String::new(),
        };
        self.set_indicator(indicator, SAVE_MARK_MS, now_ms);
        if dir.unicode_len() == 0 {
            let command = self.pause(sink_paused);
            let entry: usize = match which {
                SavePath::A => 1,
                SavePath::D => 2,
                SavePath::G => 3,
            };
            self.pause_menu = Some(entry);
            self.pause_mode = PauseMode::SaveSelect(which);
            return SaveAction::ChooseFolder(command);
        }
        let from = self.track_list[self.index].clone();
        assert(path_file_name(from@) is Some) by {
            assert(from@ == self@.tracks[self.index as int]);
        }
        let name = match file_name(from.as_str()) {
            Some(n) => n,
            None => String::new(),
        };
        let to = join_file_name(dir.as_str(), name.as_str());
        self.index = self.index + 1;
        self.list_write();
        let reload = self.display_list.len() < 5;
        SaveAction::Move { from, to, reload }
    }

    /// The delete key. Nothing happens while paused or with no tracks.
    /// Otherwise the delete mark shows, the playing track is to be deleted,
    /// the next track comes up, and the folder is to be listed again when
    /// fewer than five names are left.
    pub fn delete_track(&mut self, now_ms: u64) -> (action: DeleteAction)
        requires
            !old(self).paused && old(self).track_list.len() > 0 ==> old(self).index < old(
                self,
            ).track_list.len() && now_ms + DELETE_MARK_MS <= u64::MAX,
        ensures
            final(self)@ == old(self)@.after_delete_track(now_ms),
            old(self)@.wf() ==> final(self)@.wf(),
            match action {
                DeleteAction::Ignored => old(self).paused || old(self).track_list.len() == 0,
                DeleteAction::Delete { path, reload } => {
                    &&& !old(self).paused && old(self).track_list.len() > 0
                    &&& path@ == old(self)@.tracks[old(self).index as int]
                    &&& reload == (final(self)@.display.len() < 5)
                },
            },
    {
        if self.paused || self.track_list.len() == 0 {
            return DeleteAction::Ignored;
        }
        self.set_indicator(Indicator::Deleted, DELETE_MARK_MS, now_ms);
        let path = self.track_list[self.index].clone();
        self.index = self.index + 1;
        self.list_write();
        let reload = self.display_list.len() < 5;
        DeleteAction::Delete { path, reload }
    }

    /// Takes in the listing of the folder to sort after a save or a delete
    /// left fewer than five names (see `AppView::after_reload_tracks`).
    pub fn reload_tracks(&mut self, listing: Option<Vec<String>>) -> (result: LoadResult)
        ensures
            final(self)@ == old(self)@.after_reload_tracks(listing_view(listing)),
            result == (if listing is Some {
                LoadResult::Loaded
            } else {
                LoadResult::MissingFolder
            }),
            old(self)@.wf() ==> final(self)@.wf(),
    {
        let result = self.load_tracks(listing);
        self.list_write();
        self.index = 0;
        result
    }

    /// Acts on the selected pause menu entry: the first opens the chooser of
    /// the folder to sort, the next three the choosers of the save folders
    /// (each in the folder now chosen), the fifth closes the menu.
    pub fn set_pause_mode(&mut self, sink_paused: bool) -> (action: MenuAction)
        requires
            old(self).pause_menu is Some,
            old(self).pause_menu == Some(1usize) ==> old(self).save_path_a is Some,
            old(self).pause_menu == Some(2usize) ==> old(self).save_path_d is Some,
            old(self).pause_menu == Some(3usize) ==> old(self).save_path_g is Some,
        ensures
            final(self)@ == old(self)@.after_set_pause_mode(sink_paused),
            old(self)@.wf() ==> final(self)@.wf(),
            match action {
                MenuAction::Nothing => old(self).pause_menu->0 > 4,
                MenuAction::Explore(folder) => old(self).pause_menu->0 <= 3 && folder@
                    == final(self)@.explorer_path,
                MenuAction::Sink(c) => old(self).pause_menu->0 == 4 && c == AppView::pause_command(
                    sink_paused,
                ),
            },
    {
        let m = match self.pause_menu {
            Some(m) => m,
            None => 0,
        };
        if m == 0 {
            self.pause_mode = PauseMode::IncomingSelect;
            self.explorer_path = self.incoming.clone();
            self.explorer_index = 0;
            MenuAction::Explore(self.incoming.clone())
        } else if m <= 3 {
            let which = if m == 1 {
                SavePath::A
            } else if m == 2 {
                SavePath::D
            } else {
                SavePath::G
            };
            let folder: String = match self.save_folder_of(which) {
                Some(f) => f.clone(),
                None => String::new(),
            };
            self.pause_mode = PauseMode::SaveSelect(which);
            self.explorer_path = folder.clone();
            self.explorer_index = 0;
            MenuAction::Explore(folder)
        } else if m == 4 {
            self.pause_mode = PauseMode::NotPaused;
            MenuAction::Sink(self.pause(sink_paused))
        } else {
            MenuAction::Nothing
        }
    }

    /// Moves the pause menu selection up (ratatui's `select_previous`).
    pub fn up(&mut self)
        ensures
            final(self)@ == (AppView {
                menu: Some(
                    match old(self).pause_menu {
                        None => usize::MAX,
                        Some(i) => if i == 0 {
                            0usize
                        } else {
                            (i - 1) as usize
                        },
                    },
                ),
                ..old(self)@
            }),
            old(self)@.wf() ==> final(self)@.wf(),
    {
        self.pause_menu = list_select_previous(self.pause_menu);
    }

    /// Moves the pause menu selection down (ratatui's `select_next`), but not
    /// past its fifth entry.
    pub fn down(&mut self)
        requires
            old(self).pause_menu is Some,
        ensures
            final(self)@ == (AppView {
                menu: if old(self).pause_menu->0 < 4 {
                    Some((old(self).pause_menu->0 + 1) as usize)
                } else {
                    old(self).pause_menu
                },
                ..old(self)@
            }),
            old(self)@.wf() ==> final(self)@.wf(),
    {
        if let Some(m) = self.pause_menu {
            if m < 4 {
                self.pause_menu = list_select_next(self.pause_menu);
            }
        }
    }

    /// Chooses the explorer's entry `path`. A file is refused with the "not a
    /// folder" message. In the chooser of the folder to sort, it becomes that
    /// folder, to be stored and listed; in a save folder chooser, it becomes
    /// the key's folder, to be stored, and playing resumes. The pause ends
    /// either way.
    pub fn select(&mut self, is_file: bool, path: String) -> (action: SelectAction)
        ensures
            final(self)@ == old(self)@.after_select(is_file, path@),
            old(self)@.wf() ==> final(self)@.wf(),
            match action {
                SelectAction::Rejected => is_file,
                SelectAction::LoadIncoming { key, folder } => !is_file && old(self).pause_mode
                    == PauseMode::IncomingSelect && key@ == "INCOMING_PATH"@ && folder@ == path@,
                SelectAction::SaveFolder { key, folder } => {
                    &&& !is_file
                    &&& old(self).pause_mode is SaveSelect
                    &&& key@ == save_env_key(old(self).pause_mode->SaveSelect_0)
                    &&& folder@ == path@
                },
                SelectAction::Nothing => !is_file && old(self).pause_mode != PauseMode::IncomingSelect
                    && !(old(self).pause_mode is SaveSelect),
            },
    {
        if is_file {
            self.pause_mode = PauseMode::SelectError;
            return SelectAction::Rejected;
        }
        match self.pause_mode {
            PauseMode::IncomingSelect => {
                self.incoming = path.clone();
                self.paused = false;
                SelectAction::LoadIncoming {
                    key: crate::env::Envs::incoming_key().to_owned(),
                    folder: path,
                }
            },
            PauseMode::SaveSelect(which) => {
                match which {
                    SavePath::A => self.save_path_a = Some(path.clone()),
                    SavePath::D => self.save_path_d = Some(path.clone()),
                    SavePath::G => self.save_path_g = Some(path.clone()),
                }
                self.paused = false;
                self.pause_mode = PauseMode::NotPaused;
                SelectAction::SaveFolder { key: which.env_key().to_owned(), folder: path }
            },
            _ => {
                self.paused = false;
                SelectAction::Nothing
            },
        }
    }

    /// Takes in the listing of the newly chosen folder to sort (see
    /// `AppView::after_load_incoming`).
    pub fn load_incoming(&mut self, listing: Option<Vec<String>>) -> (result: LoadResult)
        ensures
            final(self)@ == old(self)@.after_load_incoming(listing_view(listing)),
            result == (if listing is Some {
                LoadResult::Loaded
            } else {
                LoadResult::MissingFolder
            }),
            old(self)@.wf() ==> final(self)@.wf(),
    {
        let result = self.load_tracks(listing);
        self.paused = false;
        self.pause_mode = PauseMode::NotPaused;
        result
    }

    /// Dismisses the "not a folder" message: back to the pause menu.
    pub fn accept_error(&mut self)
        ensures
            final(self)@ == (AppView { mode: PauseMode::MainMenu, ..old(self)@ }),
            old(self)@.wf() ==> final(self)@.wf(),
    {
        self.pause_mode = PauseMode::MainMenu;
    }

    /// Changes nothing.
    pub fn set_items(&mut self)
        ensures
            final(self)@ == old(self)@,
    {
    }
}

/// Pausing and then resuming (the sink playing, then paused) gives back the
/// paused flag and the playing screen, and tells the sink to pause, then to
/// play; only the menu selection is left on its first entry.
pub proof fn law_pause_then_resume(s: AppView)
    ensures
        AppView::pause_command(false) == SinkCommand::Pause,
        AppView::pause_command(true) == SinkCommand::Play,
        s.after_pause(false).after_pause(true) == (AppView {
            menu: Some(0),
            mode: PauseMode::NotPaused,
            ..s
        }),
        !s.paused ==> s.after_pause(false).paused && s.after_pause(false).mode == PauseMode::MainMenu,
{
}

/// A mark goes away at the first tick at or after its time, and stays at
/// every tick before it.
pub proof fn law_mark_lasts_its_time(
    s: AppView,
    indicator: Indicator,
    timeout: u64,
    now: u64,
    later: u64,
    pos: u64,
)
    requires
        now + timeout <= u64::MAX,
    ensures
        later >= now + timeout ==> s.with_indicator(indicator, timeout, now).after_tick(
            later,
            pos,
        ).indicator is None,
        later < now + timeout ==> s.with_indicator(indicator, timeout, now).after_tick(
            later,
            pos,
        ).indicator == Some(indicator),
{
}

/// The progress gauge never passes 100 percent.
pub proof fn law_progress_below_hundred(s: AppView, now: u64, pos: u64)
    requires
        s.progress < 100,
    ensures
        s.after_tick(now, pos).progress < 100,
{
    if s.length_secs != 0 && 0 < pos < s.length_secs {
        assert(pos * 100 / (s.length_secs as int) < 100) by (nonlinear_arith)
            requires
                0 < pos < s.length_secs,
        ;
    }
}

/// Skipping two seconds forward and then two seconds back comes back to the
/// same position, away from the ends.
pub proof fn law_skip_forward_then_back(pos: u128)
    requires
        pos + SKIP_NANOS <= MAX_DURATION_NANOS,
    ensures
        skip_back_target(skip_forward_target(pos)) == pos,
{
}

/// Saving a track to a chosen folder, or deleting it, brings up the next
/// track at once: the tracks stay as they were, the position moves on by one,
/// and the list shows the names from there.
pub proof fn law_next_track_comes_up(s: AppView, which: SavePath, now: u64, sink_paused: bool)
    requires
        s.wf(),
        !s.paused,
        s.tracks.len() > 0,
        s.save_folder(which)->0.len() > 0,
    ensures
        s.after_save_track(which, now, sink_paused).tracks == s.tracks,
        s.after_save_track(which, now, sink_paused).index == s.index + 1,
        s.after_save_track(which, now, sink_paused).display == display_names(s.tracks, s.index + 1),
        s.after_delete_track(now).tracks == s.tracks,
        s.after_delete_track(now).index == s.index + 1,
        s.after_delete_track(now).display == display_names(s.tracks, s.index + 1),
{
}

/// Every action keeps the sorter well formed: each operation of `App` states
/// it in its contract; here it is shown for the model of each of them.
pub proof fn law_actions_keep_wf(
    s: AppView,
    now: u64,
    pos: u64,
    sink_paused: bool,
    is_file: bool,
    path: Seq<char>,
    listing: Option<Seq<Seq<char>>>,
)
    requires
        s.wf(),
    ensures
        s.after_tick(now, pos).wf(),
        s.after_list_write().wf(),
        s.after_load_tracks(listing).wf(),
        s.after_pause(sink_paused).wf(),
        s.after_scrub(now).wf(),
        s.after_reload_tracks(listing).wf(),
        s.after_set_pause_mode(sink_paused).wf(),
        s.after_select(is_file, path).wf(),
        s.after_load_incoming(listing).wf(),
{
    if let Some(entries) = listing {
        lemma_audio_entries_named(entries);
    }
}

/// Saving keeps the sorter well formed when a track plays whenever a track is
/// to move; deleting, when a track plays whenever there are tracks and no
/// pause.
pub proof fn law_save_and_delete_keep_wf(s: AppView, now: u64, which: SavePath, sink_paused: bool)
    requires
        s.wf(),
    ensures
        !s.paused && s.tracks.len() > 0 && s.save_folder(which)->0.len() > 0 ==> s.index
            < s.tracks.len() ==> s.after_save_track(which, now, sink_paused).wf(),
        !s.paused && s.tracks.len() > 0 ==> s.index < s.tracks.len() ==> s.after_delete_track(
            now,
        ).wf(),
        s.paused || s.tracks.len() == 0 || s.save_folder(which)->0.len() == 0 ==> s.after_save_track(
            which,
            now,
            sink_paused,
        ).wf(),
        s.paused || s.tracks.len() == 0 ==> s.after_delete_track(now).wf(),
{
}

/// A save key without a folder opens its folder chooser at any playing
/// position: the sink pauses (when it played), the pause menu selects the
/// key's entry, the chooser of that key is next, and the tracks and the
/// position stay as they were.
pub proof fn law_save_without_folder_opens_chooser(s: AppView, which: SavePath, now: u64)
    requires
        !s.paused,
        s.tracks.len() > 0,
        s.save_folder(which) == Some(Seq::<char>::empty()),
    ensures
        s.after_save_track(which, now, false).paused,
        AppView::pause_command(false) == SinkCommand::Pause,
        s.after_save_track(which, now, false).mode == PauseMode::SaveSelect(which),
        s.after_save_track(which, now, false).menu == Some(save_menu_entry(which)),
        s.after_save_track(which, now, false).tracks == s.tracks,
        s.after_save_track(which, now, false).index == s.index,
{
}

/// Loading a folder keeps exactly its audio files: every track comes from the
/// listing and has an audio extension, every audio file of the listing is a
/// track, and there are never more tracks than entries.
pub proof fn law_audio_entries_keep_audio_files(entries: Seq<Seq<char>>)
    ensures
        audio_entries(entries).len() <= entries.len(),
        forall|i: int|
            0 <= i < audio_entries(entries).len() ==> has_any_extension(
                #[trigger] audio_entries(entries)[i],
                audio_extensions(),
            ) && entries.contains(audio_entries(entries)[i]),
        forall|i: int|
            0 <= i < entries.len() && has_any_extension(#[trigger] entries[i], audio_extensions())
                ==> audio_entries(entries).contains(entries[i]),
    decreases entries.len(),
{
    if entries.len() > 0 {
        let init = entries.drop_last();
        law_audio_entries_keep_audio_files(init);
        let rest = audio_entries(init);
        let r = audio_entries(entries);
        assert forall|i: int| 0 <= i < r.len() implies has_any_extension(
            #[trigger] r[i],
            audio_extensions(),
        ) && entries.contains(r[i]) by {
            if i < rest.len() {
                assert(r[i] == rest[i]);
                let k = choose|k: int| 0 <= k < init.len() && init[k] == rest[i];
                assert(entries[k] == init[k]);
            } else {
                assert(r[i] == entries.last());
                assert(entries[entries.len() - 1] == entries.last());
            }
        }
        assert forall|i: int|
            0 <= i < entries.len() && has_any_extension(#[trigger] entries[i], audio_extensions())
                implies r.contains(entries[i]) by {
            if i < entries.len() - 1 {
                assert(init[i] == entries[i]);
                assert(rest.contains(entries[i]));
                let k = choose|k: int| 0 <= k < rest.len() && rest[k] == entries[i];
                assert(r[k] == rest[k]);
            } else {
                assert(r[r.len() - 1] == entries.last());
            }
        }
    }
}

/// The names of tracks that all have one: one per track, in order.
proof fn lemma_track_names_all_named(tracks: Seq<Seq<char>>)
    requires
        forall|i: int| 0 <= i < tracks.len() ==> (#[trigger] path_file_name(tracks[i])) is Some,
    ensures
        track_names(tracks).len() == tracks.len(),
        forall|j: int|
            0 <= j < tracks.len() ==> #[trigger] track_names(tracks)[j] == path_file_name(
                tracks[j],
            )->0,
    decreases tracks.len(),
{
    if tracks.len() > 0 {
        let init = tracks.drop_last();
        assert forall|i: int| 0 <= i < init.len() implies (#[trigger] path_file_name(
            init[i],
        )) is Some by {
            assert(init[i] == tracks[i]);
        }
        lemma_track_names_all_named(init);
        assert(path_file_name(tracks[tracks.len() - 1]) is Some);
        assert forall|j: int| 0 <= j < tracks.len() implies #[trigger] track_names(tracks)[j]
            == path_file_name(tracks[j])->0 by {
            if j < tracks.len() - 1 {
                assert(init[j] == tracks[j]);
            }
        }
    }
}

/// The list shows the file name of each track from the playing one on, one
/// per track, in order.
pub proof fn law_display_shows_names_from_playing(s: AppView)
    requires
        s.wf(),
    ensures
        display_names(s.tracks, s.index).len() == s.tracks.len() - s.index,
        forall|j: int|
            0 <= j < s.tracks.len() - s.index ==> #[trigger] display_names(s.tracks, s.index)[j]
                == path_file_name(s.tracks[s.index + j])->0,
{
    let rest = s.tracks.subrange(s.index, s.tracks.len() as int);
    assert forall|i: int| 0 <= i < rest.len() implies (#[trigger] path_file_name(rest[i])) is Some by {
        assert(rest[i] == s.tracks[s.index + i]);
    }
    lemma_track_names_all_named(rest);
    assert forall|j: int| 0 <= j < s.tracks.len() - s.index implies #[trigger] display_names(
        s.tracks,
        s.index,
    )[j] == path_file_name(s.tracks[s.index + j])->0 by {
        assert(rest[j] == s.tracks[s.index + j]);
    }
}

/// Each save key has its own folder, pause menu entry, mark and
/// configuration key: `a` the folder `save_a`, the second entry, the mark
/// `SavedA` and `SAVE_PATH_A`; `d` and `g` likewise with the third and
/// fourth entries. Replacing the folder of one key leaves the others alone.
pub proof fn law_save_key_table(s: AppView, folder: Option<Seq<char>>)
    ensures
        s.save_folder(SavePath::A) == s.save_a,
        s.save_folder(SavePath::D) == s.save_d,
        s.save_folder(SavePath::G) == s.save_g,
        save_menu_entry(SavePath::A) == 1,
        save_menu_entry(SavePath::D) == 2,
        save_menu_entry(SavePath::G) == 3,
        save_indicator(SavePath::A) == Indicator::SavedA,
        save_indicator(SavePath::D) == Indicator::SavedD,
        save_indicator(SavePath::G) == Indicator::SavedG,
        save_env_key(SavePath::A) == "SAVE_PATH_A"@,
        save_env_key(SavePath::D) == "SAVE_PATH_D"@,
        save_env_key(SavePath::G) == "SAVE_PATH_G"@,
        s.with_save_folder(SavePath::A, folder) == (AppView { save_a: folder, ..s }),
        s.with_save_folder(SavePath::D, folder) == (AppView { save_d: folder, ..s }),
        s.with_save_folder(SavePath::G, folder) == (AppView { save_g: folder, ..s }),
{
}

/// The progress is the whole percent of the track that has played: when a
/// track of known length plays and the position lies strictly inside it,
/// `progress` is the largest whole number with `progress * length <= 100 *
/// pos`, and the label is the one of that position; otherwise neither moves.
pub proof fn law_progress_is_whole_percent(s: AppView, now: u64, pos: u64)
    ensures
        ({
            let r = s.after_tick(now, pos);
            &&& s.length_secs != 0 && 0 < pos < s.length_secs ==> {
                &&& r.progress * s.length_secs <= 100 * pos
                &&& 100 * pos < (r.progress + 1) * s.length_secs
                &&& r.format_time == time_label(pos, s.length_secs)
            }
            &&& !(s.length_secs != 0 && 0 < pos < s.length_secs) ==> r.progress == s.progress
                && r.format_time == s.format_time
            &&& r.tracks == s.tracks && r.index == s.index && r.mode == s.mode && r.paused
                == s.paused
        }),
{
    let len = s.length_secs;
    if len != 0 && 0 < pos < len {
        let q = pos * 100 / (len as int);
        assert(q * len <= 100 * pos && 100 * pos < (q + 1) * len && 0 <= q < 100) by (nonlinear_arith)
            requires
                q == pos * 100 / (len as int),
                0 < pos < len,
        ;
    }
}

/// The skip keys move by two seconds: back to two seconds before the
/// position, or to the start when less has played; forward to two seconds
/// after it, but never past the longest `Duration`.
pub proof fn law_skips_move_two_seconds(pos: u128)
    ensures
        pos >= 2_000_000_000 ==> skip_back_target(pos) == pos - 2_000_000_000,
        pos < 2_000_000_000 ==> skip_back_target(pos) == 0,
        pos + 2_000_000_000 <= 18_446_744_073_709_551_615_999_999_999 ==> skip_forward_target(pos)
            == pos + 2_000_000_000,
        pos + 2_000_000_000 > 18_446_744_073_709_551_615_999_999_999 ==> skip_forward_target(pos)
            == 18_446_744_073_709_551_615_999_999_999u128,
{
}

/// The marks last half a second for the volume, a fifth of a second for a
/// seek or a skip, three tenths for a save and four tenths for a delete,
/// from the moment of the action.
pub proof fn law_mark_durations(s: AppView, indicator: Indicator, now: u64)
    requires
        now + 500 <= u64::MAX,
    ensures
        s.with_indicator(indicator, VOLUME_MARK_MS, now).deadline == Some((now + 500) as u64),
        s.with_indicator(indicator, SCRUB_MARK_MS, now).deadline == Some((now + 200) as u64),
        s.with_indicator(indicator, SAVE_MARK_MS, now).deadline == Some((now + 300) as u64),
        s.with_indicator(indicator, DELETE_MARK_MS, now).deadline == Some((now + 400) as u64),
        s.with_indicator(indicator, VOLUME_MARK_MS, now).indicator == Some(indicator),
{
}

/// Each pause menu entry opens its own chooser: the first that of the folder
/// to sort, in that folder; the second, third and fourth those of the save
/// keys `a`, `d` and `g`, each in the folder that key has now. Opening a
/// chooser changes nothing else but the explorer's cursor, which goes to the
/// top. The fifth entry flips the pause and goes back to the first entry; an
/// entry past the fifth does nothing.
pub proof fn law_menu_entries_open_choosers(s: AppView, sink_paused: bool)
    requires
        s.wf(),
    ensures
        ({
            let r = s.after_set_pause_mode(sink_paused);
            let opened = |mode: PauseMode, folder: Seq<char>|
                r == (AppView { mode, explorer_path: folder, explorer_index: 0, ..s });
            &&& s.menu == Some(0usize) ==> opened(PauseMode::IncomingSelect, s.incoming)
            &&& s.menu == Some(1usize) ==> opened(PauseMode::SaveSelect(SavePath::A), s.save_a->0)
                && Some(r.explorer_path) == s.save_a
            &&& s.menu == Some(2usize) ==> opened(PauseMode::SaveSelect(SavePath::D), s.save_d->0)
                && Some(r.explorer_path) == s.save_d
            &&& s.menu == Some(3usize) ==> opened(PauseMode::SaveSelect(SavePath::G), s.save_g->0)
                && Some(r.explorer_path) == s.save_g
            &&& s.menu == Some(4usize) ==> r.paused == !s.paused && r.menu == Some(0usize)
                && r.mode == (if sink_paused {
                PauseMode::NotPaused
            } else {
                PauseMode::MainMenu
            }) && r.tracks == s.tracks && r.index == s.index
        }),
{
}

/// Choosing a folder (not a file) in a chooser stores it where that chooser
/// is for, and nowhere else: in the chooser of save key `a`, `d` or `g`, it
/// becomes that key's folder while the other two keys and the folder to sort
/// keep theirs; in the chooser of the folder to sort, it becomes that folder
/// while the save keys keep theirs. The pause ends either way. A file is
/// refused: only the "not a folder" message shows.
pub proof fn law_select_stores_the_chosen_folder(s: AppView, path: Seq<char>)
    ensures
        ({
            let r = s.after_select(false, path);
            &&& s.mode == PauseMode::SaveSelect(SavePath::A) ==> r.save_a == Some(path)
                && r.save_d == s.save_d && r.save_g == s.save_g && r.incoming == s.incoming
                && !r.paused && r.mode == PauseMode::NotPaused
            &&& s.mode == PauseMode::SaveSelect(SavePath::D) ==> r.save_d == Some(path)
                && r.save_a == s.save_a && r.save_g == s.save_g && r.incoming == s.incoming
                && !r.paused && r.mode == PauseMode::NotPaused
            &&& s.mode == PauseMode::SaveSelect(SavePath::G) ==> r.save_g == Some(path)
                && r.save_a == s.save_a && r.save_d == s.save_d && r.incoming == s.incoming
                && !r.paused && r.mode == PauseMode::NotPaused
            &&& s.mode == PauseMode::IncomingSelect ==> r.incoming == path && r.save_a == s.save_a
                && r.save_d == s.save_d && r.save_g == s.save_g && !r.paused
        }),
        s.after_select(true, path) == (AppView { mode: PauseMode::SelectError, ..s }),
{
}

/// The folder chosen from the pause menu's entry of a save key becomes that
/// key's folder: entries two, three and four store it for `a`, `d` and `g`
/// (and for no other key), the first for the folder to sort.
pub proof fn law_menu_entry_then_choice(s: AppView, sink_paused: bool, path: Seq<char>)
    requires
        s.wf(),
    ensures
        ({
            let r = s.after_set_pause_mode(sink_paused).after_select(false, path);
            &&& s.menu == Some(0usize) ==> r.incoming == path && r.save_a == s.save_a
                && r.save_d == s.save_d && r.save_g == s.save_g
            &&& s.menu == Some(1usize) ==> r.save_a == Some(path) && r.save_d == s.save_d
                && r.save_g == s.save_g && r.incoming == s.incoming
            &&& s.menu == Some(2usize) ==> r.save_d == Some(path) && r.save_a == s.save_a
                && r.save_g == s.save_g && r.incoming == s.incoming
            &&& s.menu == Some(3usize) ==> r.save_g == Some(path) && r.save_a == s.save_a
                && r.save_d == s.save_d && r.incoming == s.incoming
        }),
{
    law_menu_entries_open_choosers(s, sink_paused);
    law_select_stores_the_chosen_folder(s.after_set_pause_mode(sink_paused), path);
}

/// A save key without a folder leads to its own chooser: the pause menu opens
/// on the key's entry, and acting on that entry opens the chooser of that
/// same key.
pub proof fn law_unset_key_leads_to_its_chooser(
    s: AppView,
    which: SavePath,
    now: u64,
    sink_paused: bool,
)
    requires
        s.wf(),
        !s.paused,
        s.tracks.len() > 0,
        s.save_folder(which) == Some(Seq::<char>::empty()),
    ensures
        s.after_save_track(which, now, false).after_set_pause_mode(sink_paused).mode
            == PauseMode::SaveSelect(which),
        s.after_save_track(which, now, false).after_set_pause_mode(sink_paused).explorer_path
            == Seq::<char>::empty(),
{
}

/// Upper-case audio extensions count as much as lower-case ones: a path that
/// ends in `.WAV`, `.MP3` or `.FLAC` is an audio file, and a listing of it
/// alone loads it as the one track.
pub proof fn law_upper_case_extensions_load(p: Seq<char>)
    requires
        path_extension(p) == Some("WAV"@) || path_extension(p) == Some("MP3"@)
            || path_extension(p) == Some("FLAC"@),
    ensures
        has_any_extension(p, audio_extensions()),
        audio_entries(seq![p]) == seq![p],
{
    reveal_strlit("WAV");
    reveal_strlit("MP3");
    reveal_strlit("FLAC");
    reveal_strlit("wav");
    reveal_strlit("mp3");
    reveal_strlit("flac");
    let exts = audio_extensions();
    let e = path_extension(p)->0;
    crate::paths::law_ascii_lower_letters_map_to_small('W');
    crate::paths::law_ascii_lower_letters_map_to_small('A');
    crate::paths::law_ascii_lower_letters_map_to_small('V');
    crate::paths::law_ascii_lower_letters_map_to_small('M');
    crate::paths::law_ascii_lower_letters_map_to_small('P');
    crate::paths::law_ascii_lower_letters_map_to_small('F');
    crate::paths::law_ascii_lower_letters_map_to_small('L');
    crate::paths::law_ascii_lower_letters_map_to_small('C');
    if e == "WAV"@ {
        assert(crate::paths::eq_ignore_ascii_case(exts[1], e));
    } else if e == "MP3"@ {
        assert(crate::paths::eq_ignore_ascii_case(exts[0], e));
    } else {
        assert(crate::paths::eq_ignore_ascii_case(exts[2], e));
    }
    assert(seq![p].drop_last() =~= Seq::<Seq<char>>::empty());
    assert(seq![p].last() == p);
    assert(audio_entries(Seq::<Seq<char>>::empty()) == Seq::<Seq<char>>::empty());
    assert(Seq::<Seq<char>>::empty().push(p) =~= seq![p]);
}

/// The state after the search offered tracks from the playing position and
/// they gave `results` in turn (`dropped`: the search dropped a track
/// before); it stops at the first playable track or when none is left.
pub open spec fn searched(s: AppView, results: Seq<Decode>, dropped: bool) -> AppView
    decreases results.len(),
{
    if results.len() == 0 {
        s
    } else {
        let next = s.after_playback_step(Some(results[0]), dropped);
        if results[0] is Playable || next.index >= next.tracks.len() || results.len() == 1 {
            next
        } else {
            searched(next, results.drop_first(), true)
        }
    }
}

/// `k` unplayable results, then a playable one of `len` seconds.
pub open spec fn failures_then_playable(k: nat, len: u64) -> Seq<Decode> {
    Seq::new(
        k + 1,
        |j: int|
            if j < k {
                Decode::Unplayable
            } else {
                Decode::Playable(len)
            },
    )
}

/// The search drops exactly the tracks that failed and plays the first one
/// that decodes: when the `k` tracks from the playing position fail and the
/// next one decodes, those `k` leave the list, the next one plays, and the
/// list is rewritten if any was dropped.
pub proof fn law_search_plays_first_playable(s: AppView, k: nat, len: u64, dropped: bool)
    requires
        0 <= s.index,
        s.index + k < s.tracks.len(),
    ensures
        ({
            let tracks = s.tracks.subrange(0, s.index) + s.tracks.subrange(
                s.index + k,
                s.tracks.len() as int,
            );
            let t = AppView { tracks, length_secs: len, playing: tracks[s.index], ..s };
            searched(s, failures_then_playable(k, len), dropped) == if dropped || k > 0 {
                t.after_list_write()
            } else {
                t
            }
        }),
    decreases k,
{
    let results = failures_then_playable(k, len);
    let i = s.index;
    let tracks = s.tracks.subrange(0, i) + s.tracks.subrange(i + k, s.tracks.len() as int);
    if k == 0 {
        assert(results[0] == Decode::Playable(len));
        assert(tracks =~= s.tracks);
    } else {
        assert(results[0] == Decode::Unplayable);
        let next = s.after_playback_step(Some(results[0]), dropped);
        assert(next.tracks == s.tracks.remove(i));
        assert(next.index < next.tracks.len());
        assert(results.drop_first() =~= failures_then_playable((k - 1) as nat, len));
        law_search_plays_first_playable(next, (k - 1) as nat, len, true);
        let tracks2 = next.tracks.subrange(0, i) + next.tracks.subrange(
            i + (k - 1),
            next.tracks.len() as int,
        );
        assert(tracks2 =~= tracks);
    }
}

/// When every track from the playing position fails, they all leave the
/// list, none plays, and the list is rewritten.
pub proof fn law_search_exhausts_unplayable(s: AppView, k: nat, dropped: bool)
    requires
        0 <= s.index,
        k > 0,
        s.index + k == s.tracks.len(),
    ensures
        searched(s, Seq::new(k, |j: int| Decode::Unplayable), dropped) == (AppView {
            tracks: s.tracks.subrange(0, s.index),
            playing: seq![],
            length_secs: 0,
            ..s
        }).after_list_write(),
    decreases k,
{
    let results = Seq::new(k, |j: int| Decode::Unplayable);
    let i = s.index;
    assert(results[0] == Decode::Unplayable);
    let next = s.after_playback_step(Some(results[0]), dropped);
    assert(next.tracks == s.tracks.remove(i));
    if k == 1 {
        assert(s.tracks.remove(i) =~= s.tracks.subrange(0, i));
    } else {
        assert(next.index < next.tracks.len());
        assert(results.drop_first() =~= Seq::new((k - 1) as nat, |j: int| Decode::Unplayable));
        law_search_exhausts_unplayable(next, (k - 1) as nat, true);
        assert(next.tracks.subrange(0, i) =~= s.tracks.subrange(0, i));
    }
}

} // verus!

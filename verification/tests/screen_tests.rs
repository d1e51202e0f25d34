use crateful::app::{App, Indicator, PauseMode, SavePath};
use crateful::file_manager::FileManager;
use crateful::instructs::{choose_folder_label, saved_folder_label, Instructs};
use crateful::metadata::MetaData;
use crateful::ui::{now_playing_label, ExplorerPanel};

fn s(x: &str) -> String {
    x.to_string()
}

#[test]
fn instructs_cards() {
    let mut app = App::new(s("/in"), s("/keep"), s(""), s("/my \"jazz\""));
    app.visual_action_indicator = Some(Indicator::SavedD);
    let cards = Instructs::new(&app);
    assert_eq!(cards.offsets(), vec![0, -1, 0, 0, 0]);
    assert_eq!(cards.save_label(SavePath::A), "Press a\r\nto save to\r\n\r\n\"/keep\"");
    assert_eq!(
        cards.save_label(SavePath::D),
        "Press \"d\"\r\nto select a\r\nfolder to save to\r\nfor this button"
    );
    assert_eq!(cards.save_label(SavePath::G), "Press g\r\nto save to\r\n\r\n\"/my \\\"jazz\\\"\"");
    assert_eq!(saved_folder_label(SavePath::A, "X"), "Press a\r\nto save to\r\n\r\nX");
    assert_eq!(choose_folder_label(SavePath::G), format!("Press {:?}\r\nto select a\r\nfolder to save to\r\nfor this button", "g"));
}

#[test]
fn instructs_offsets_per_mark() {
    let mut app = App::new(s("/in"), s(""), s(""), s(""));
    for (mark, expected) in [
        (None, vec![0, 0, 0, 0, 0]),
        (Some(Indicator::Volume), vec![0, 0, 0, 0, 0]),
        (Some(Indicator::SavedA), vec![-1, 0, 0, 0, 0]),
        (Some(Indicator::SavedG), vec![0, 0, -1, 0, 0]),
        (Some(Indicator::Scrubbed), vec![0, 0, 0, -1, 0]),
        (Some(Indicator::Deleted), vec![0, 0, 0, 0, -1]),
    ] {
        app.visual_action_indicator = mark;
        assert_eq!(Instructs::new(&app).offsets(), expected);
    }
}

#[test]
fn main_screen_texts() {
    let mut app = App::new(s("/music/in"), s(""), s(""), s(""));
    assert_eq!(app.title_text(), "Sorting Tracks in folder \r\n/music/in");
    app.playing = s("/music/in/song.mp3");
    assert_eq!(
        app.now_playing_text(),
        "Now Playing:\n\"song.mp3\"\n \r\n\r\n press SPACE for pause menu"
    );
    app.playing = s("");
    assert_eq!(app.now_playing_text(), "Now Playing:\n\"\"\n \r\n\r\n press SPACE for pause menu");
    assert_eq!(now_playing_label("N"), "Now Playing:\nN\n \r\n\r\n press SPACE for pause menu");
    app.display_list = vec![s("a.mp3"), s("b.wav")];
    assert_eq!(app.list_text(), "a.mp3\r\nb.wav\r\n");
    assert!(!app.shows_progress());
    app.track_list = vec![s("/music/in/a.mp3")];
    assert!(app.shows_progress());
}

#[test]
fn screen_panels() {
    let mut app = App::new(s("/in"), s(""), s(""), s(""));
    assert_eq!(app.explorer_panel(), ExplorerPanel::Hidden);
    app.pause_mode = PauseMode::IncomingSelect;
    assert_eq!(app.explorer_panel(), ExplorerPanel::IncomingFolder);
    app.pause_mode = PauseMode::SaveSelect(SavePath::A);
    assert_eq!(app.explorer_panel(), ExplorerPanel::SaveFolder);
    assert!(!app.shows_select_error());
    app.pause_mode = PauseMode::SelectError;
    assert!(app.shows_select_error());
}

#[test]
fn file_manager_cursor() {
    let entries = vec![s("/m"), s("/m/a.mp3"), s("/m/b.MP3"), s("/m/c.wav"), s("/m/d.flac"), s("/m/e.mp3"), s("/m/f.mp3")];
    let mut fm = FileManager::new(s("/m"), entries);
    assert_eq!(fm.get_current_track(), Some(&s("/m/a.mp3")));
    let next: Vec<String> = fm.get_next_tracks().into_iter().cloned().collect();
    assert_eq!(next, vec![s("/m/c.wav"), s("/m/d.flac"), s("/m/e.mp3")]);
    for _ in 0..10 {
        fm.move_to_next_track();
    }
    assert_eq!(fm.get_current_track(), Some(&s("/m/f.mp3")));
    assert!(fm.get_next_tracks().is_empty());
    fm.move_current_track("/elsewhere");
    assert_eq!(fm.get_current_track(), Some(&s("/m/f.mp3")));
}

#[test]
fn file_manager_delete() {
    let mut fm = FileManager::new(s("/m"), vec![s("/m/a.mp3"), s("/m/b.mp3")]);
    fm.move_to_next_track();
    let err = std::io::Error::new(std::io::ErrorKind::PermissionDenied, "no");
    let r = fm.delete_current_track(Err(err));
    assert_eq!(r.unwrap_err().kind(), std::io::ErrorKind::PermissionDenied);
    assert_eq!(fm.get_current_track(), Some(&s("/m/b.mp3")));
    assert!(fm.delete_current_track(Ok(())).is_ok());
    assert_eq!(fm.get_current_track(), Some(&s("/m/a.mp3")));
    assert!(fm.delete_current_track(Ok(())).is_ok());
    assert_eq!(fm.get_current_track(), None);
    assert!(fm.delete_current_track(Ok(())).is_ok());
}

#[test]
fn file_manager_reload_keeps_position() {
    let mut fm = FileManager::new(s("/m"), vec![s("/m/a.mp3"), s("/m/b.mp3"), s("/m/c.mp3")]);
    fm.move_to_next_track();
    fm.move_to_next_track();
    fm.load_files(vec![s("/m/x.mp3")]);
    assert_eq!(fm.get_current_track(), None);
}

fn wav_bytes() -> Vec<u8> {
    let data: Vec<u8> = vec![0; 16];
    let mut b = Vec::new();
    b.extend_from_slice(b"RIFF");
    b.extend_from_slice(&(36 + data.len() as u32).to_le_bytes());
    b.extend_from_slice(b"WAVE");
    b.extend_from_slice(b"fmt ");
    b.extend_from_slice(&16u32.to_le_bytes());
    b.extend_from_slice(&1u16.to_le_bytes());
    b.extend_from_slice(&1u16.to_le_bytes());
    b.extend_from_slice(&8000u32.to_le_bytes());
    b.extend_from_slice(&16000u32.to_le_bytes());
    b.extend_from_slice(&2u16.to_le_bytes());
    b.extend_from_slice(&16u16.to_le_bytes());
    b.extend_from_slice(b"data");
    b.extend_from_slice(&(data.len() as u32).to_le_bytes());
    b.extend_from_slice(&data);
    b
}

#[test]
fn metadata_of_a_recognised_format() {
    let meta = MetaData::new(&wav_bytes()).expect("a wav file is recognised");
    assert_eq!(meta.track_text(), "metadata");
}

#[test]
fn metadata_probe_does_not_open_the_reader() {
    // A Matroska header whose reader would reject (or panic on) the stream:
    // only the marker counts.
    let mut bytes = vec![0x1A, 0x45, 0xDF, 0xA3];
    bytes.extend_from_slice(&[0u8; 28]);
    assert!(MetaData::new(&bytes).is_some());
}

#[test]
fn metadata_of_unknown_bytes() {
    assert!(MetaData::new(b"not audio at all, just some text").is_none());
    assert!(MetaData::new(&[]).is_none());
}

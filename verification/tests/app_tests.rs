use crateful::app::{
    App, Decode, DeleteAction, Indicator, LoadResult, MenuAction, PauseMode, PlayStep, SaveAction,
    SavePath, SelectAction, SinkCommand, MAX_DURATION_NANOS,
};

fn s(x: &str) -> String {
    x.to_string()
}

fn fresh() -> App {
    App::new(s("/in"), s("/keep"), s(""), s("/jazz"))
}

fn with_tracks(n: usize) -> App {
    let mut app = fresh();
    let listing: Vec<String> = (0..n).map(|i| format!("/in/t{}.mp3", i)).collect();
    app.load_tracks(Some(listing));
    app.list_write();
    app
}

#[test]
fn new_app_starts_playing_screen() {
    let app = fresh();
    assert!(app.running);
    assert_eq!(app.incoming, "/in");
    assert_eq!(app.save_path_a, Some(s("/keep")));
    assert_eq!(app.save_path_d, Some(s("")));
    assert_eq!(app.pause_menu, Some(0));
    assert_eq!(app.pause_mode, PauseMode::NotPaused);
    assert!(!app.paused);
    assert!(app.track_list.is_empty());
    assert_eq!(PauseMode::default(), PauseMode::NotPaused);
}

#[test]
fn load_tracks_keeps_audio_files_in_order() {
    let mut app = fresh();
    let listing = vec![
        s("/in"),
        s("/in/a.mp3"),
        s("/in/cover.jpg"),
        s("/in/sub/b.FLAC"),
        s("/in/c.wav"),
        s("/in/notes"),
    ];
    app.index = 3;
    assert_eq!(app.load_tracks(Some(listing)), LoadResult::Loaded);
    assert_eq!(app.track_list, vec![s("/in/a.mp3"), s("/in/sub/b.FLAC"), s("/in/c.wav")]);
    assert_eq!(app.index, 0);
}

#[test]
fn missing_folder_opens_its_chooser() {
    let mut app = fresh();
    assert_eq!(app.load_tracks(None), LoadResult::MissingFolder);
    assert!(app.paused);
    assert_eq!(app.pause_mode, PauseMode::IncomingSelect);
}

#[test]
fn list_write_shows_names_from_index() {
    let mut app = with_tracks(4);
    app.index = 2;
    app.list_write();
    assert_eq!(app.display_list, vec![s("t2.mp3"), s("t3.mp3")]);
}

fn offered(step: PlayStep) -> (String, bool) {
    match step {
        PlayStep::Try { path, dropped } => (path, dropped),
        other => panic!("unexpected {:?}", other),
    }
}

#[test]
fn start_playback_skips_unplayable_tracks() {
    let mut app = with_tracks(5);
    app.index = 1;
    let (p, d) = offered(app.start_playback(None, false));
    assert_eq!((p.as_str(), d), ("/in/t1.mp3", false));
    let (p, d) = offered(app.start_playback(Some(Decode::Unplayable), d));
    assert_eq!((p.as_str(), d), ("/in/t2.mp3", true));
    let (p, d) = offered(app.start_playback(Some(Decode::Unplayable), d));
    assert_eq!((p.as_str(), d), ("/in/t3.mp3", true));
    assert!(matches!(app.start_playback(Some(Decode::Playable(200)), d), PlayStep::Started));
    assert_eq!(app.track_list.len(), 3);
    assert_eq!(app.playing, "/in/t3.mp3");
    assert_eq!(app.length_secs, 200);
    assert_eq!(app.display_list, vec![s("t3.mp3"), s("t4.mp3")]);
}

#[test]
fn start_playback_with_nothing_left() {
    let mut app = with_tracks(2);
    app.playing = s("/in/old.mp3");
    let (_, d) = offered(app.start_playback(None, false));
    let (_, d) = offered(app.start_playback(Some(Decode::Unplayable), d));
    assert!(matches!(app.start_playback(Some(Decode::Unplayable), d), PlayStep::Exhausted));
    assert!(app.track_list.is_empty());
    assert_eq!(app.playing, "");
    assert_eq!(app.length_secs, 0);
    assert!(app.display_list.is_empty());
}

#[test]
fn start_playback_on_empty_list() {
    let mut app = fresh();
    app.display_list = vec![s("stale")];
    assert!(matches!(app.start_playback(None, false), PlayStep::Exhausted));
    assert_eq!(app.display_list, vec![s("stale")]);
}

#[test]
fn start_playback_without_skips_keeps_the_list() {
    let mut app = with_tracks(2);
    app.display_list = vec![s("stale")];
    let (_, d) = offered(app.start_playback(None, false));
    assert!(matches!(app.start_playback(Some(Decode::Playable(7)), d), PlayStep::Started));
    assert_eq!(app.playing, "/in/t0.mp3");
    assert_eq!(app.display_list, vec![s("stale")]);
}

#[test]
fn tick_updates_progress_and_label() {
    let mut app = with_tracks(1);
    app.length_secs = 200;
    app.tick(0, 65);
    assert_eq!(app.progress, 32);
    assert_eq!(app.format_time, "1:05 out of 3:20");
    app.tick(0, 200);
    assert_eq!(app.progress, 32);
    app.tick(0, 0);
    assert_eq!(app.format_time, "1:05 out of 3:20");
    app.tick(0, 199);
    assert_eq!(app.progress, 99);
    assert_eq!(app.format_time, "3:19 out of 3:20");
}

#[test]
fn tick_without_length_leaves_progress() {
    let mut app = with_tracks(1);
    app.tick(0, 10);
    assert_eq!(app.progress, 0);
    assert_eq!(app.format_time, "");
}

#[test]
fn mark_lasts_its_time() {
    let mut app = fresh();
    app.set_indicator(Indicator::Deleted, 400, 1000);
    assert_eq!(app.indicator_deadline, Some(1400));
    app.tick(1399, 0);
    assert_eq!(app.visual_action_indicator, Some(Indicator::Deleted));
    app.tick(1400, 0);
    assert_eq!(app.visual_action_indicator, None);
    assert_eq!(app.indicator_deadline, None);
}

#[test]
fn volume_shows_its_mark() {
    let mut app = fresh();
    app.volume(10);
    assert_eq!(app.visual_action_indicator, Some(Indicator::Volume));
    assert_eq!(app.indicator_deadline, Some(510));
}

#[test]
fn seek_goes_ahead_unless_paused() {
    let mut app = with_tracks(1);
    assert!(app.seek(70));
    assert_eq!(app.visual_action_indicator, Some(Indicator::Scrubbed));
    assert_eq!(app.indicator_deadline, Some(270));
    let mut paused = with_tracks(1);
    paused.paused = true;
    assert!(!paused.seek(70));
    assert_eq!(paused.visual_action_indicator, None);
}

#[test]
fn skip_targets() {
    let mut app = with_tracks(1);
    assert_eq!(app.skip_back(5_500_000_000, 0), Some(3_500_000_000));
    assert_eq!(app.skip_back(1_000_000_000, 0), Some(0));
    assert_eq!(app.skip_forward(5_500_000_000, 0), Some(7_500_000_000));
    assert_eq!(app.skip_forward(MAX_DURATION_NANOS - 1, 0), Some(MAX_DURATION_NANOS));
    let fwd = app.skip_forward(12_345, 0).unwrap();
    assert_eq!(app.skip_back(fwd, 0), Some(12_345));
    app.paused = true;
    assert_eq!(app.skip_back(5, 0), None);
    assert_eq!(app.skip_forward(5, 0), None);
    let d = std::time::Duration::MAX;
    assert_eq!(d.as_nanos(), MAX_DURATION_NANOS);
}

#[test]
fn save_moves_track_and_brings_up_next() {
    let mut app = with_tracks(8);
    match app.save_track(SavePath::A, 100, false) {
        SaveAction::Move { from, to, reload } => {
            assert_eq!(from, "/in/t0.mp3");
            assert_eq!(to, "/keep/t0.mp3");
            assert!(!reload);
        }
        other => panic!("unexpected {:?}", other),
    }
    assert_eq!(app.index, 1);
    assert_eq!(app.display_list.len(), 7);
    assert_eq!(app.visual_action_indicator, Some(Indicator::SavedA));
    assert_eq!(app.indicator_deadline, Some(400));
}

#[test]
fn save_asks_for_reload_when_few_left() {
    let mut app = with_tracks(5);
    match app.save_track(SavePath::G, 0, false) {
        SaveAction::Move { to, reload, .. } => {
            assert_eq!(to, "/jazz/t0.mp3");
            assert!(reload);
        }
        other => panic!("unexpected {:?}", other),
    }
}

#[test]
fn save_without_folder_opens_menu_entry() {
    let mut app = with_tracks(3);
    match app.save_track(SavePath::D, 0, false) {
        SaveAction::ChooseFolder(cmd) => assert_eq!(cmd, SinkCommand::Pause),
        other => panic!("unexpected {:?}", other),
    }
    assert!(app.paused);
    assert_eq!(app.pause_menu, Some(2));
    assert_eq!(app.pause_mode, PauseMode::SaveSelect(SavePath::D));
    assert_eq!(app.index, 0);
}

#[test]
fn save_without_folder_works_past_the_last_track() {
    let mut app = with_tracks(1);
    app.index = 1;
    match app.save_track(SavePath::D, 0, false) {
        SaveAction::ChooseFolder(cmd) => assert_eq!(cmd, SinkCommand::Pause),
        other => panic!("unexpected {:?}", other),
    }
    assert!(app.paused);
    assert_eq!(app.pause_mode, PauseMode::SaveSelect(SavePath::D));
    assert_eq!(app.pause_menu, Some(2));
    assert_eq!(app.index, 1);
    assert_eq!(app.track_list.len(), 1);
}

#[test]
fn save_ignored_when_paused_or_empty() {
    let mut app = fresh();
    assert!(matches!(app.save_track(SavePath::A, 0, false), SaveAction::Ignored));
    let mut app = with_tracks(2);
    app.paused = true;
    assert!(matches!(app.save_track(SavePath::A, 0, false), SaveAction::Ignored));
    assert_eq!(app.visual_action_indicator, None);
}

#[test]
fn delete_brings_up_next() {
    let mut app = with_tracks(6);
    match app.delete_track(50) {
        DeleteAction::Delete { path, reload } => {
            assert_eq!(path, "/in/t0.mp3");
            assert!(!reload);
        }
        other => panic!("unexpected {:?}", other),
    }
    assert_eq!(app.index, 1);
    assert_eq!(app.visual_action_indicator, Some(Indicator::Deleted));
    assert_eq!(app.indicator_deadline, Some(450));
    let mut empty = fresh();
    assert!(matches!(empty.delete_track(0), DeleteAction::Ignored));
}

#[test]
fn reload_tracks_restarts_at_first() {
    let mut app = with_tracks(3);
    app.index = 2;
    let r = app.reload_tracks(Some(vec![s("/in/x.mp3"), s("/in/y.wav")]));
    assert_eq!(r, LoadResult::Loaded);
    assert_eq!(app.index, 0);
    assert_eq!(app.track_list, vec![s("/in/x.mp3"), s("/in/y.wav")]);
    assert_eq!(app.display_list, vec![s("x.mp3"), s("y.wav")]);
}

#[test]
fn pause_then_resume() {
    let mut app = with_tracks(1);
    assert_eq!(app.pause(false), SinkCommand::Pause);
    assert!(app.paused);
    assert_eq!(app.pause_mode, PauseMode::MainMenu);
    assert_eq!(app.pause_menu, Some(0));
    assert_eq!(app.pause(true), SinkCommand::Play);
    assert!(!app.paused);
    assert_eq!(app.pause_mode, PauseMode::NotPaused);
}

#[test]
fn menu_selection_stays_in_entries() {
    let mut app = fresh();
    app.up();
    assert_eq!(app.pause_menu, Some(0));
    for _ in 0..10 {
        app.down();
    }
    assert_eq!(app.pause_menu, Some(4));
    app.up();
    assert_eq!(app.pause_menu, Some(3));
    app.pause_menu = None;
    app.up();
    assert_eq!(app.pause_menu, Some(usize::MAX));
}

#[test]
fn set_pause_mode_entries() {
    let mut app = fresh();
    app.pause_menu = Some(0);
    match app.set_pause_mode(true) {
        MenuAction::Explore(f) => assert_eq!(f, "/in"),
        other => panic!("unexpected {:?}", other),
    }
    assert_eq!(app.pause_mode, PauseMode::IncomingSelect);
    assert_eq!(app.explorer_path, "/in");
    app.pause_menu = Some(3);
    match app.set_pause_mode(true) {
        MenuAction::Explore(f) => assert_eq!(f, "/jazz"),
        other => panic!("unexpected {:?}", other),
    }
    assert_eq!(app.pause_mode, PauseMode::SaveSelect(SavePath::G));
    app.paused = true;
    app.pause_menu = Some(4);
    match app.set_pause_mode(true) {
        MenuAction::Sink(c) => assert_eq!(c, SinkCommand::Play),
        other => panic!("unexpected {:?}", other),
    }
    assert_eq!(app.pause_mode, PauseMode::NotPaused);
    assert!(!app.paused);
    assert_eq!(app.pause_menu, Some(0));
}

#[test]
fn select_refuses_files() {
    let mut app = fresh();
    app.pause_mode = PauseMode::IncomingSelect;
    app.paused = true;
    assert!(matches!(app.select(true, s("/in/a.mp3")), SelectAction::Rejected));
    assert_eq!(app.pause_mode, PauseMode::SelectError);
    assert!(app.paused);
    app.accept_error();
    assert_eq!(app.pause_mode, PauseMode::MainMenu);
}

#[test]
fn select_incoming_then_load() {
    let mut app = fresh();
    app.pause_mode = PauseMode::IncomingSelect;
    app.paused = true;
    match app.select(false, s("/new")) {
        SelectAction::LoadIncoming { key, folder } => {
            assert_eq!(key, "INCOMING_PATH");
            assert_eq!(folder, "/new");
        }
        other => panic!("unexpected {:?}", other),
    }
    assert_eq!(app.incoming, "/new");
    assert_eq!(app.load_incoming(Some(vec![s("/new/a.mp3")])), LoadResult::Loaded);
    assert!(!app.paused);
    assert_eq!(app.pause_mode, PauseMode::NotPaused);
    assert_eq!(app.track_list, vec![s("/new/a.mp3")]);
}

#[test]
fn select_save_folder() {
    let mut app = fresh();
    app.pause_mode = PauseMode::SaveSelect(SavePath::D);
    app.paused = true;
    match app.select(false, s("/rock")) {
        SelectAction::SaveFolder { key, folder } => {
            assert_eq!(key, "SAVE_PATH_D");
            assert_eq!(folder, "/rock");
        }
        other => panic!("unexpected {:?}", other),
    }
    assert_eq!(app.save_path_d, Some(s("/rock")));
    assert!(!app.paused);
    assert_eq!(app.pause_mode, PauseMode::NotPaused);
}

#[test]
fn select_elsewhere_just_unpauses() {
    let mut app = fresh();
    app.pause_mode = PauseMode::MainMenu;
    app.paused = true;
    assert!(matches!(app.select(false, s("/x")), SelectAction::Nothing));
    assert!(!app.paused);
}

#[test]
fn quit_and_set_items() {
    let mut app = fresh();
    app.set_items();
    assert!(app.running);
    app.quit();
    assert!(!app.running);
}

#[test]
fn env_keys_of_save_paths() {
    assert_eq!(SavePath::A.env_key(), "SAVE_PATH_A");
    assert_eq!(SavePath::D.env_key(), "SAVE_PATH_D");
    assert_eq!(SavePath::G.env_key(), "SAVE_PATH_G");
}

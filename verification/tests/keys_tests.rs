use crateful::app::{App, PauseMode, SavePath};
use crateful::event::{Amp, AppEvent};
use crateful::keys::{ExplorerInput, KeyAction, KeyCode, KeyEvent, KeyEventKind, CONTROL};

fn app_in(mode: PauseMode) -> App {
    let mut app = App::new(String::new(), String::new(), String::new(), String::new());
    app.pause_mode = mode;
    app
}

fn press(code: KeyCode) -> KeyEvent {
    KeyEvent { code, kind: KeyEventKind::Press, modifiers: 0 }
}

fn act(mode: PauseMode, code: KeyCode) -> KeyAction {
    app_in(mode).handle_key_events(press(code))
}

#[test]
fn playing_keys() {
    let m = PauseMode::NotPaused;
    assert_eq!(act(m, KeyCode::Char(' ')), KeyAction::Send(AppEvent::Pause));
    assert_eq!(act(m, KeyCode::Char('a')), KeyAction::Send(AppEvent::SaveTrack(SavePath::A)));
    assert_eq!(act(m, KeyCode::Char('d')), KeyAction::Send(AppEvent::SaveTrack(SavePath::D)));
    assert_eq!(act(m, KeyCode::Char('g')), KeyAction::Send(AppEvent::SaveTrack(SavePath::G)));
    assert_eq!(act(m, KeyCode::Backspace), KeyAction::Send(AppEvent::DeleteTrack));
    assert_eq!(act(m, KeyCode::Left), KeyAction::Send(AppEvent::SkipBack));
    assert_eq!(act(m, KeyCode::Char('h')), KeyAction::Send(AppEvent::SkipBack));
    assert_eq!(act(m, KeyCode::Right), KeyAction::Send(AppEvent::SkipForward));
    assert_eq!(act(m, KeyCode::Char('l')), KeyAction::Send(AppEvent::SkipForward));
    assert_eq!(act(m, KeyCode::Esc), KeyAction::Send(AppEvent::Quit));
    assert_eq!(act(m, KeyCode::Char('q')), KeyAction::Send(AppEvent::Quit));
    assert_eq!(act(m, KeyCode::Char('x')), KeyAction::Ignore);
    assert_eq!(act(m, KeyCode::Enter), KeyAction::Ignore);
}

#[test]
fn volume_keys_follow_the_readme() {
    let m = PauseMode::NotPaused;
    assert_eq!(act(m, KeyCode::Up), KeyAction::Send(AppEvent::Volume(Amp::Up)));
    assert_eq!(act(m, KeyCode::Char('j')), KeyAction::Send(AppEvent::Volume(Amp::Up)));
    assert_eq!(act(m, KeyCode::Down), KeyAction::Send(AppEvent::Volume(Amp::Down)));
    assert_eq!(act(m, KeyCode::Char('k')), KeyAction::Send(AppEvent::Volume(Amp::Down)));
}

#[test]
fn digits_seek_tenths() {
    for n in 1..=9u64 {
        let c = char::from_digit(n as u32, 10).unwrap();
        assert_eq!(act(PauseMode::NotPaused, KeyCode::Char(c)), KeyAction::Send(AppEvent::Seek(n)));
    }
    assert_eq!(act(PauseMode::NotPaused, KeyCode::Char('0')), KeyAction::Ignore);
}

#[test]
fn control_c_quits() {
    let app = app_in(PauseMode::NotPaused);
    let ctrl_c = KeyEvent { code: KeyCode::Char('c'), kind: KeyEventKind::Press, modifiers: CONTROL };
    assert_eq!(app.handle_key_events(ctrl_c), KeyAction::Send(AppEvent::Quit));
    let ctrl_shift_c = KeyEvent { code: KeyCode::Char('C'), kind: KeyEventKind::Press, modifiers: CONTROL | 1 };
    assert_eq!(app.handle_key_events(ctrl_shift_c), KeyAction::Ignore);
    assert_eq!(app.handle_key_events(press(KeyCode::Char('c'))), KeyAction::Ignore);
}

#[test]
fn menu_keys() {
    let m = PauseMode::MainMenu;
    assert_eq!(act(m, KeyCode::Char(' ')), KeyAction::Send(AppEvent::Pause));
    assert_eq!(act(m, KeyCode::Enter), KeyAction::Send(AppEvent::SetPauseMode));
    assert_eq!(act(m, KeyCode::Up), KeyAction::Send(AppEvent::Up));
    assert_eq!(act(m, KeyCode::Char('k')), KeyAction::Send(AppEvent::Up));
    assert_eq!(act(m, KeyCode::Down), KeyAction::Send(AppEvent::Down));
    assert_eq!(act(m, KeyCode::Char('j')), KeyAction::Send(AppEvent::Down));
    assert_eq!(act(m, KeyCode::Esc), KeyAction::Send(AppEvent::Quit));
    assert_eq!(act(m, KeyCode::Char('a')), KeyAction::Ignore);
}

#[test]
fn explorer_keys() {
    for m in [PauseMode::IncomingSelect, PauseMode::SaveSelect(SavePath::D)] {
        assert_eq!(act(m, KeyCode::Up), KeyAction::Explore(ExplorerInput::Up));
        assert_eq!(act(m, KeyCode::Char('k')), KeyAction::Explore(ExplorerInput::Up));
        assert_eq!(act(m, KeyCode::Char('j')), KeyAction::Explore(ExplorerInput::Down));
        assert_eq!(act(m, KeyCode::Left), KeyAction::Explore(ExplorerInput::Left));
        assert_eq!(act(m, KeyCode::Char('l')), KeyAction::Explore(ExplorerInput::Right));
        assert_eq!(act(m, KeyCode::Enter), KeyAction::Send(AppEvent::Select));
        assert_eq!(act(m, KeyCode::Char('q')), KeyAction::Send(AppEvent::Quit));
        assert_eq!(act(m, KeyCode::Char(' ')), KeyAction::Ignore);
    }
}

#[test]
fn error_message_keys() {
    let m = PauseMode::SelectError;
    assert_eq!(act(m, KeyCode::Char(' ')), KeyAction::Send(AppEvent::AcceptError));
    assert_eq!(act(m, KeyCode::Esc), KeyAction::Send(AppEvent::AcceptError));
    assert_eq!(act(m, KeyCode::Enter), KeyAction::Send(AppEvent::AcceptError));
    assert_eq!(act(m, KeyCode::Char('q')), KeyAction::Ignore);
}

#[test]
fn escape_quits_everywhere_but_the_error() {
    for m in [
        PauseMode::NotPaused,
        PauseMode::MainMenu,
        PauseMode::IncomingSelect,
        PauseMode::SaveSelect(SavePath::A),
    ] {
        assert_eq!(act(m, KeyCode::Esc), KeyAction::Send(AppEvent::Quit));
    }
}

#[test]
fn only_presses_act() {
    for kind in [KeyEventKind::Repeat, KeyEventKind::Release] {
        let app = app_in(PauseMode::NotPaused);
        let key = KeyEvent { code: KeyCode::Char(' '), kind, modifiers: 0 };
        assert_eq!(app.handle_key_events(key), KeyAction::Ignore);
    }
}

//! Key presses and the actions they ask for in each mode of the screen.
use vstd::prelude::*;

use crate::app::{App, PauseMode, SavePath};
use crate::event::{Amp, AppEvent};

verus! {

/// The keys that the application tells apart.
#[derive(Clone, Copy, Debug, PartialEq, Eq, Structural)]
pub enum KeyCode {
    Char(char),
    Up,
    Down,
    Left,
    Right,
    Esc,
    Enter,
    Backspace,
    /// Any other key.
    Other,
}

/// Whether a key went down, repeats, or went up.
#[derive(Clone, Copy, Debug, PartialEq, Eq, Structural)]
pub enum KeyEventKind {
    Press,
    Repeat,
    Release,
}

/// The bit of the modifier set that stands for the control key.
pub const CONTROL: u8 = 2u8;

/// A key event: the key, its kind and the set of held modifiers (shift 1,
/// control 2, alt 4, super 8, hyper 16, meta 32).
#[derive(Clone, Copy, Debug, PartialEq, Eq, Structural)]
pub struct KeyEvent {
    pub code: KeyCode,
    pub kind: KeyEventKind,
    pub modifiers: u8,
}

/// A move of the file explorer's cursor.
#[derive(Clone, Copy, Debug, PartialEq, Eq, Structural)]
pub enum ExplorerInput {
    Up,
    Down,
    /// To the parent folder.
    Left,
    /// Into the folder under the cursor.
    Right,
}

/// What a key press asks for.
#[derive(Clone, Copy, Debug, PartialEq, Eq, Structural)]
pub enum KeyAction {
    /// Nothing.
    Ignore,
    /// An action of the application.
    Send(AppEvent),
    /// A move of the file explorer.
    Explore(ExplorerInput),
}

/// The explorer keys of the folder choosers: arrows or `hjkl` move, Enter
/// chooses, Esc or `q` quits.
pub open spec fn explorer_key(code: KeyCode) -> KeyAction {
    match code {
        KeyCode::Up => KeyAction::Explore(ExplorerInput::Up),
        KeyCode::Down => KeyAction::Explore(ExplorerInput::Down),
        KeyCode::Left => KeyAction::Explore(ExplorerInput::Left),
        KeyCode::Right => KeyAction::Explore(ExplorerInput::Right),
        KeyCode::Char(c) => if c == 'k' {
            KeyAction::Explore(ExplorerInput::Up)
        } else if c == 'j' {
            KeyAction::Explore(ExplorerInput::Down)
        } else if c == 'h' {
            KeyAction::Explore(ExplorerInput::Left)
        } else if c == 'l' {
            KeyAction::Explore(ExplorerInput::Right)
        } else if c == 'q' {
            KeyAction::Send(AppEvent::Quit)
        } else {
            KeyAction::Ignore
        },
        KeyCode::Esc => KeyAction::Send(AppEvent::Quit),
        KeyCode::Enter => KeyAction::Send(AppEvent::Select),
        _ => KeyAction::Ignore,
    }
}

/// The keys of the pause menu: Space closes it, Enter acts on the selected
/// entry, arrows or `k`/`j` move the selection, Esc or `q` quits.
pub open spec fn menu_key(code: KeyCode) -> KeyAction {
    match code {
        KeyCode::Enter => KeyAction::Send(AppEvent::SetPauseMode),
        KeyCode::Up => KeyAction::Send(AppEvent::Up),
        KeyCode::Down => KeyAction::Send(AppEvent::Down),
        KeyCode::Esc => KeyAction::Send(AppEvent::Quit),
        KeyCode::Char(c) => if c == ' ' {
            KeyAction::Send(AppEvent::Pause)
        } else if c == 'k' {
            KeyAction::Send(AppEvent::Up)
        } else if c == 'j' {
            KeyAction::Send(AppEvent::Down)
        } else if c == 'q' {
            KeyAction::Send(AppEvent::Quit)
        } else {
            KeyAction::Ignore
        },
        _ => KeyAction::Ignore,
    }
}

/// The digit keys `1`..=`9` stand for that many tenths of the track.
pub open spec fn digit_value(c: char) -> Option<u64> {
    let x = c as u32;
    if 49 <= x <= 57 {
        Some((x - 48) as u64)
    } else {
        None
    }
}

/// The keys while a track plays: digits seek, left/`h` and right/`l` skip two
/// seconds, up/`j` and down/`k` change the volume, `a`/`d`/`g` save,
/// Backspace deletes, Space pauses, Esc, `q` or Ctrl-C quit.
pub open spec fn playing_key(code: KeyCode, modifiers: u8) -> KeyAction {
    match code {
        KeyCode::Left => KeyAction::Send(AppEvent::SkipBack),
        KeyCode::Right => KeyAction::Send(AppEvent::SkipForward),
        KeyCode::Up => KeyAction::Send(AppEvent::Volume(Amp::Up)),
        KeyCode::Down => KeyAction::Send(AppEvent::Volume(Amp::Down)),
        KeyCode::Backspace => KeyAction::Send(AppEvent::DeleteTrack),
        KeyCode::Esc => KeyAction::Send(AppEvent::Quit),
        KeyCode::Char(c) => if digit_value(c) is Some {
            KeyAction::Send(AppEvent::Seek(digit_value(c)->0))
        } else if c == 'h' {
            KeyAction::Send(AppEvent::SkipBack)
        } else if c == 'l' {
            KeyAction::Send(AppEvent::SkipForward)
        } else if c == 'j' {
            KeyAction::Send(AppEvent::Volume(Amp::Up))
        } else if c == 'k' {
            KeyAction::Send(AppEvent::Volume(Amp::Down))
        } else if c == 'a' {
            KeyAction::Send(AppEvent::SaveTrack(SavePath::A))
        } else if c == 'd' {
            KeyAction::Send(AppEvent::SaveTrack(SavePath::D))
        } else if c == 'g' {
            KeyAction::Send(AppEvent::SaveTrack(SavePath::G))
        } else if c == ' ' {
            KeyAction::Send(AppEvent::Pause)
        } else if c == 'q' {
            KeyAction::Send(AppEvent::Quit)
        } else if (c == 'c' || c == 'C') && modifiers == CONTROL {
            KeyAction::Send(AppEvent::Quit)
        } else {
            KeyAction::Ignore
        },
        _ => KeyAction::Ignore,
    }
}

/// The keys of the "not a folder" message: Space, Esc or Enter dismiss it.
pub open spec fn error_key(code: KeyCode) -> KeyAction {
    match code {
        KeyCode::Esc | KeyCode::Enter => KeyAction::Send(AppEvent::AcceptError),
        KeyCode::Char(c) => if c == ' ' {
            KeyAction::Send(AppEvent::AcceptError)
        } else {
            KeyAction::Ignore
        },
        _ => KeyAction::Ignore,
    }
}

/// What a key event asks for in a mode of the screen: only presses act.
pub open spec fn key_action(mode: PauseMode, key: KeyEvent) -> KeyAction {
    if key.kind != KeyEventKind::Press {
        KeyAction::Ignore
    } else {
        match mode {
            PauseMode::SaveSelect(_) => explorer_key(key.code),
            PauseMode::IncomingSelect => explorer_key(key.code),
            PauseMode::MainMenu => menu_key(key.code),
            PauseMode::NotPaused => playing_key(key.code, key.modifiers),
            PauseMode::SelectError => error_key(key.code),
        }
    }
}

fn explorer_key_exec(code: KeyCode) -> (r: KeyAction)
    ensures
        r == explorer_key(code),
{
    match code {
        KeyCode::Up | KeyCode::Char('k') => KeyAction::Explore(ExplorerInput::Up),
        KeyCode::Down | KeyCode::Char('j') => KeyAction::Explore(ExplorerInput::Down),
        KeyCode::Left | KeyCode::Char('h') => KeyAction::Explore(ExplorerInput::Left),
        KeyCode::Right | KeyCode::Char('l') => KeyAction::Explore(ExplorerInput::Right),
        KeyCode::Esc | KeyCode::Char('q') => KeyAction::Send(AppEvent::Quit),
        KeyCode::Enter => KeyAction::Send(AppEvent::Select),
        _ => KeyAction::Ignore,
    }
}

fn menu_key_exec(code: KeyCode) -> (r: KeyAction)
    ensures
        r == menu_key(code),
{
    match code {
        KeyCode::Char(' ') => KeyAction::Send(AppEvent::Pause),
        KeyCode::Enter => KeyAction::Send(AppEvent::SetPauseMode),
        KeyCode::Up | KeyCode::Char('k') => KeyAction::Send(AppEvent::Up),
        KeyCode::Down | KeyCode::Char('j') => KeyAction::Send(AppEvent::Down),
        KeyCode::Esc | KeyCode::Char('q') => KeyAction::Send(AppEvent::Quit),
        _ => KeyAction::Ignore,
    }
}

fn digit_value_exec(c: char) -> (r: Option<u64>)
    ensures
        r == digit_value(c),
{
    let x = c as u32;
    if 49 <= x && x <= 57 {
        Some((x - 48) as u64)
    } else {
        None
    }
}

fn playing_key_exec(code: KeyCode, modifiers: u8) -> (r: KeyAction)
    ensures
        r == playing_key(code, modifiers),
{
    match code {
        KeyCode::Char(c) => {
            if let Some(n) = digit_value_exec(c) {
                return KeyAction::Send(AppEvent::Seek(n));
            }
            match c {
                'h' => KeyAction::Send(AppEvent::SkipBack),
                'l' => KeyAction::Send(AppEvent::SkipForward),
                'j' => KeyAction::Send(AppEvent::Volume(Amp::Up)),
                'k' => KeyAction::Send(AppEvent::Volume(Amp::Down)),
                'a' => KeyAction::Send(AppEvent::SaveTrack(SavePath::A)),
                'd' => KeyAction::Send(AppEvent::SaveTrack(SavePath::D)),
                'g' => KeyAction::Send(AppEvent::SaveTrack(SavePath::G)),
                ' ' => KeyAction::Send(AppEvent::Pause),
                'q' => KeyAction::Send(AppEvent::Quit),
                'c' | 'C' => if modifiers == CONTROL {
                    KeyAction::Send(AppEvent::Quit)
                } else {
                    KeyAction::Ignore
                },
                _ => KeyAction::Ignore,
            }
        },
        KeyCode::Left => KeyAction::Send(AppEvent::SkipBack),
        KeyCode::Right => KeyAction::Send(AppEvent::SkipForward),
        KeyCode::Up => KeyAction::Send(AppEvent::Volume(Amp::Up)),
        KeyCode::Down => KeyAction::Send(AppEvent::Volume(Amp::Down)),
        KeyCode::Backspace => KeyAction::Send(AppEvent::DeleteTrack),
        KeyCode::Esc => KeyAction::Send(AppEvent::Quit),
        _ => KeyAction::Ignore,
    }
}

fn error_key_exec(code: KeyCode) -> (r: KeyAction)
    ensures
        r == error_key(code),
{
    match code {
        KeyCode::Char(' ') | KeyCode::Esc | KeyCode::Enter => KeyAction::Send(AppEvent::AcceptError),
        _ => KeyAction::Ignore,
    }
}

impl App {
    /// What a key event asks for in the current mode of the screen.
    pub fn handle_key_events(&self, key_event: KeyEvent) -> (action: KeyAction)
        ensures
            action == key_action(self.pause_mode, key_event),
    {
        if key_event.kind != KeyEventKind::Press {
            return KeyAction::Ignore;
        }
        match self.pause_mode {
            PauseMode::SaveSelect(_) => explorer_key_exec(key_event.code),
            PauseMode::MainMenu => menu_key_exec(key_event.code),
            PauseMode::IncomingSelect => explorer_key_exec(key_event.code),
            PauseMode::NotPaused => playing_key_exec(key_event.code, key_event.modifiers),
            PauseMode::SelectError => error_key_exec(key_event.code),
        }
    }
}

/// Only key presses act: a repeat or a release asks for nothing in any mode.
pub proof fn law_only_presses_act(mode: PauseMode, key: KeyEvent)
    requires
        key.kind != KeyEventKind::Press,
    ensures
        key_action(mode, key) == KeyAction::Ignore,
{
}

/// Escape quits on every screen but the "not a folder" message, where it
/// dismisses the message.
pub proof fn law_escape_quits(mode: PauseMode, modifiers: u8)
    ensures
        mode != PauseMode::SelectError ==> key_action(
            mode,
            KeyEvent { code: KeyCode::Esc, kind: KeyEventKind::Press, modifiers },
        ) == KeyAction::Send(AppEvent::Quit),
        mode == PauseMode::SelectError ==> key_action(
            mode,
            KeyEvent { code: KeyCode::Esc, kind: KeyEventKind::Press, modifiers },
        ) == KeyAction::Send(AppEvent::AcceptError),
{
}

/// While a track plays, the digit keys 1 to 9 seek to that many tenths of it.
pub proof fn law_digits_seek(n: u64, modifiers: u8)
    requires
        1 <= n <= 9,
    ensures
        key_action(
            PauseMode::NotPaused,
            KeyEvent { code: KeyCode::Char(((n + 48) as u32) as char), kind: KeyEventKind::Press, modifiers },
        ) == KeyAction::Send(AppEvent::Seek(n)),
{
    let c = ((n + 48) as u32) as char;
    assert(c as u32 == n + 48);
}

/// While a track plays: Space opens the pause menu, `a`, `d` and `g` save to
/// their folders, Backspace deletes, the left and right arrows (or `h` and
/// `l`) skip back and forward, and the up and down arrows (or `j` for up, `k`
/// for down) change the volume.
pub proof fn law_playing_keys(modifiers: u8)
    ensures
        ({
            let press = |code: KeyCode|
                key_action(
                    PauseMode::NotPaused,
                    KeyEvent { code, kind: KeyEventKind::Press, modifiers },
                );
            &&& press(KeyCode::Char(' ')) == KeyAction::Send(AppEvent::Pause)
            &&& press(KeyCode::Char('a')) == KeyAction::Send(AppEvent::SaveTrack(SavePath::A))
            &&& press(KeyCode::Char('d')) == KeyAction::Send(AppEvent::SaveTrack(SavePath::D))
            &&& press(KeyCode::Char('g')) == KeyAction::Send(AppEvent::SaveTrack(SavePath::G))
            &&& press(KeyCode::Backspace) == KeyAction::Send(AppEvent::DeleteTrack)
            &&& press(KeyCode::Left) == KeyAction::Send(AppEvent::SkipBack)
            &&& press(KeyCode::Char('h')) == KeyAction::Send(AppEvent::SkipBack)
            &&& press(KeyCode::Right) == KeyAction::Send(AppEvent::SkipForward)
            &&& press(KeyCode::Char('l')) == KeyAction::Send(AppEvent::SkipForward)
            &&& press(KeyCode::Up) == KeyAction::Send(AppEvent::Volume(Amp::Up))
            &&& press(KeyCode::Char('j')) == KeyAction::Send(AppEvent::Volume(Amp::Up))
            &&& press(KeyCode::Down) == KeyAction::Send(AppEvent::Volume(Amp::Down))
            &&& press(KeyCode::Char('k')) == KeyAction::Send(AppEvent::Volume(Amp::Down))
        }),
{
}

/// In both folder choosers, the arrow keys and `k`, `j`, `h`, `l` move the
/// explorer (up, down, to the parent folder, into the folder under the
/// cursor), Enter chooses the entry, and Esc or `q` quit, whatever modifiers
/// are held.
pub proof fn law_explorer_keys(mode: PauseMode, modifiers: u8)
    requires
        mode == PauseMode::IncomingSelect || mode is SaveSelect,
    ensures
        ({
            let press = |code: KeyCode|
                key_action(mode, KeyEvent { code, kind: KeyEventKind::Press, modifiers });
            &&& press(KeyCode::Up) == KeyAction::Explore(ExplorerInput::Up)
            &&& press(KeyCode::Char('k')) == KeyAction::Explore(ExplorerInput::Up)
            &&& press(KeyCode::Down) == KeyAction::Explore(ExplorerInput::Down)
            &&& press(KeyCode::Char('j')) == KeyAction::Explore(ExplorerInput::Down)
            &&& press(KeyCode::Left) == KeyAction::Explore(ExplorerInput::Left)
            &&& press(KeyCode::Char('h')) == KeyAction::Explore(ExplorerInput::Left)
            &&& press(KeyCode::Right) == KeyAction::Explore(ExplorerInput::Right)
            &&& press(KeyCode::Char('l')) == KeyAction::Explore(ExplorerInput::Right)
            &&& press(KeyCode::Enter) == KeyAction::Send(AppEvent::Select)
            &&& press(KeyCode::Esc) == KeyAction::Send(AppEvent::Quit)
            &&& press(KeyCode::Char('q')) == KeyAction::Send(AppEvent::Quit)
            &&& press(KeyCode::Backspace) == KeyAction::Ignore
        }),
{
}

/// In the pause menu, Space closes it, Enter acts on the selected entry, the
/// up and down arrows (or `k` and `j`) move the selection, and Esc or `q`
/// quit, whatever modifiers are held.
pub proof fn law_menu_keys(modifiers: u8)
    ensures
        ({
            let press = |code: KeyCode|
                key_action(
                    PauseMode::MainMenu,
                    KeyEvent { code, kind: KeyEventKind::Press, modifiers },
                );
            &&& press(KeyCode::Char(' ')) == KeyAction::Send(AppEvent::Pause)
            &&& press(KeyCode::Enter) == KeyAction::Send(AppEvent::SetPauseMode)
            &&& press(KeyCode::Up) == KeyAction::Send(AppEvent::Up)
            &&& press(KeyCode::Char('k')) == KeyAction::Send(AppEvent::Up)
            &&& press(KeyCode::Down) == KeyAction::Send(AppEvent::Down)
            &&& press(KeyCode::Char('j')) == KeyAction::Send(AppEvent::Down)
            &&& press(KeyCode::Esc) == KeyAction::Send(AppEvent::Quit)
            &&& press(KeyCode::Char('q')) == KeyAction::Send(AppEvent::Quit)
            &&& press(KeyCode::Left) == KeyAction::Ignore
        }),
{
}

/// The "not a folder" message goes away with Space, Esc or Enter, and no
/// other key does anything there.
pub proof fn law_error_keys(code: KeyCode, modifiers: u8)
    ensures
        key_action(
            PauseMode::SelectError,
            KeyEvent { code, kind: KeyEventKind::Press, modifiers },
        ) == if code == KeyCode::Char(' ') || code == KeyCode::Esc || code == KeyCode::Enter {
            KeyAction::Send(AppEvent::AcceptError)
        } else {
            KeyAction::Ignore
        },
{
}

/// While a track plays, `q` quits with any modifiers, and `c` quits with the
/// control key alone held.
pub proof fn law_playing_quit_keys(modifiers: u8)
    ensures
        key_action(
            PauseMode::NotPaused,
            KeyEvent { code: KeyCode::Char('q'), kind: KeyEventKind::Press, modifiers },
        ) == KeyAction::Send(AppEvent::Quit),
        key_action(
            PauseMode::NotPaused,
            KeyEvent { code: KeyCode::Char('c'), kind: KeyEventKind::Press, modifiers: CONTROL },
        ) == KeyAction::Send(AppEvent::Quit),
        key_action(
            PauseMode::NotPaused,
            KeyEvent { code: KeyCode::Char('c'), kind: KeyEventKind::Press, modifiers: 0 },
        ) == KeyAction::Ignore,
{
}

} // verus!

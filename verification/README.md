# crateful

A terminal music sorter: a track plays, `a`, `d` or `g` moves it into a save
folder, Backspace deletes it, and the next track starts.

- `src/` is the verified library (Verus): the sorter's state and its
  transitions (`app.rs`), the key bindings (`keys.rs`), the configuration
  file's text (`env.rs`), Unix path names (`paths.rs`), the screen's texts
  that depend on the state (`ui.rs`, `instructs.rs`), the format probe of a
  song (`metadata.rs`) and a cursor over a folder's audio files
  (`file_manager.rs`).
- `app/` is the program around it: the terminal (ratatui, crossterm) with
  the fixed labels and help texts of the screen, the audio sink (rodio), the
  file explorer, the files and the event loop.
- `tests/` runs the library on concrete values.

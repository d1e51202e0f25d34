//! Crateful: sorting a folder of music by ear. A track plays; one key moves it
//! into one of three save folders, another deletes it, and the next track
//! starts. This library holds the state of the sorter and every decision it
//! makes; the program around it does the terminal, the audio and the files.
use vstd::prelude::*;

pub mod app;
pub mod env;
pub mod event;
pub mod file_manager;
pub mod instructs;
pub mod keys;
pub mod metadata;
pub mod paths;
pub mod text;
pub mod ui;

verus! {

} // verus!

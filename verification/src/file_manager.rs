//! A list of the audio files of a folder with a cursor on one of them.
use vstd::prelude::*;

use crate::paths::{extension, path_extension};
use crate::text::views;

verus! {

/// `std::io::Error`, carried through unopened.
#[verifier::external_type_specification]
#[verifier::external_body]
pub struct ExIoError(std::io::Error);

/// The audio files of a folder and the position of the current one.
pub struct FileManager {
    music_folder: String,
    audio_files: Vec<String>,
    current_index: usize,
}

/// The contents of a `FileManager`.
pub struct FileManagerView {
    pub music_folder: Seq<char>,
    pub files: Seq<Seq<char>>,
    pub current: int,
}

/// Whether a path has one of the extensions `mp3`, `wav` or `flac`, in that
/// case.
pub open spec fn is_audio_file(p: Seq<char>) -> bool {
    path_extension(p) == Some("mp3"@) || path_extension(p) == Some("wav"@) || path_extension(p)
        == Some("flac"@)
}

/// The entries of a listing that are audio files, in listing order.
pub open spec fn audio_files(entries: Seq<Seq<char>>) -> Seq<Seq<char>>
    decreases entries.len(),
{
    if entries.len() == 0 {
        seq![]
    } else {
        let rest = audio_files(entries.drop_last());
        if is_audio_file(entries.last()) {
            rest.push(entries.last())
        } else {
            rest
        }
    }
}

/// The views of a sequence of string references.
pub open spec fn ref_views(v: Seq<&String>) -> Seq<Seq<char>> {
    v.map_values(|t: &String| t@)
}

/// The up to three files after the current one.
pub open spec fn next_files(files: Seq<Seq<char>>, current: int) -> Seq<Seq<char>> {
    let a = current + 1;
    let b = if current + 4 < files.len() {
        current + 4
    } else {
        files.len() as int
    };
    if a < b {
        files.subrange(a, b)
    } else {
        seq![]
    }
}

/// The files after the current one are the next three, or as many as there
/// are when fewer are left, in their order.
pub proof fn law_next_files_are_the_three_after(files: Seq<Seq<char>>, current: int)
    requires
        0 <= current,
    ensures
        next_files(files, current).len() == if current + 1 >= files.len() {
            0
        } else if files.len() - current - 1 < 3 {
            files.len() - current - 1
        } else {
            3
        },
        forall|j: int|
            0 <= j < next_files(files, current).len() ==> #[trigger] next_files(files, current)[j]
                == files[current + 1 + j],
{
}

/// A path is an audio file exactly when its extension is `mp3`, `wav` or
/// `flac` in small letters; an upper-case extension does not count here.
pub proof fn law_audio_file_extensions(p: Seq<char>)
    ensures
        path_extension(p) == Some("mp3"@) ==> is_audio_file(p),
        path_extension(p) == Some("wav"@) ==> is_audio_file(p),
        path_extension(p) == Some("flac"@) ==> is_audio_file(p),
        path_extension(p) == Some("MP3"@) ==> !is_audio_file(p),
        path_extension(p) is None ==> !is_audio_file(p),
        audio_files(seq![p]) == if is_audio_file(p) {
            seq![p]
        } else {
            Seq::<Seq<char>>::empty()
        },
{
    reveal_strlit("mp3");
    reveal_strlit("wav");
    reveal_strlit("flac");
    reveal_strlit("MP3");
    assert(seq![p].drop_last() =~= Seq::<Seq<char>>::empty());
    assert(seq![p].last() == p);
    assert(audio_files(Seq::<Seq<char>>::empty()) == Seq::<Seq<char>>::empty());
    assert(Seq::<Seq<char>>::empty().push(p) =~= seq![p]);
    if path_extension(p) == Some("MP3"@) {
        assert("MP3"@[0] != "mp3"@[0]);
        assert("MP3"@ != "wav"@);
        assert("MP3"@.len() != "flac"@.len());
    }
}

impl View for FileManager {
    type V = FileManagerView;

    closed spec fn view(&self) -> FileManagerView {
        FileManagerView {
            music_folder: self.music_folder@,
            files: views(self.audio_files@),
            current: self.current_index as int,
        }
    }
}

fn str_eq(a: &str, b: &str) -> (r: bool)
    ensures
        r == (a@ == b@),
{
    let a = a.to_owned();
    let b = b.to_owned();
    a == b
}

fn is_audio(path: &str) -> (r: bool)
    ensures
        r == is_audio_file(path@),
{
    proof {
        reveal_strlit("mp3");
        reveal_strlit("wav");
        reveal_strlit("flac");
    }
    match extension(path) {
        None => false,
        Some(ext) => str_eq(ext.as_str(), "mp3") || str_eq(ext.as_str(), "wav") || str_eq(
            ext.as_str(),
            "flac",
        ),
    }
}

fn audio_files_in(entries: &Vec<String>) -> (files: Vec<String>)
    ensures
        views(files@) == audio_files(views(entries@)),
{
    let mut files: Vec<String> = Vec::new();
    let mut i: usize = 0;
    while i < entries.len()
        invariant
            i <= entries.len(),
            views(files@) == audio_files(views(entries@).take(i as int)),
        decreases entries.len() - i,
    {
        let ghost before = files@;
        assert(views(entries@).take(i + 1).drop_last() =~= views(entries@).take(i as int));
        assert(views(entries@).take(i + 1).last() == entries@[i as int]@);
        if is_audio(entries[i].as_str()) {
            files.push(entries[i].clone());
            assert(views(files@) =~= views(before).push(entries@[i as int]@));
        }
        i += 1;
    }
    assert(views(entries@).take(entries.len() as int) =~= views(entries@));
    files
}

impl FileManager {
    /// A manager for `music_folder`, given the paths of everything under it:
    /// its audio files, with the first one current.
    pub fn new(music_folder: String, entries: Vec<String>) -> (manager: FileManager)
        ensures
            manager@.music_folder == music_folder@,
            manager@.files == audio_files(views(entries@)),
            manager@.current == 0,
    {
        let mut manager = FileManager {
            music_folder,
            audio_files: Vec::new(),
            current_index: 0,
        };
        manager.load_files(entries);
        manager
    }

    /// Replaces the files with the audio files among `entries` (the paths of
    /// everything under a folder); the position stays.
    pub fn load_files(&mut self, entries: Vec<String>)
        ensures
            final(self)@.music_folder == old(self)@.music_folder,
            final(self)@.files == audio_files(views(entries@)),
            final(self)@.current == old(self)@.current,
    {
        self.audio_files = audio_files_in(&entries);
    }

    /// The current file, if the position holds one.
    pub fn get_current_track(&self) -> (track: Option<&String>)
        ensures
            match track {
                Some(t) => 0 <= self@.current < self@.files.len() && t@ == self@.files[self@.current],
                None => self@.current >= self@.files.len(),
            },
    {
        if self.current_index < self.audio_files.len() {
            Some(&self.audio_files[self.current_index])
        } else {
            None
        }
    }

    /// The position is never negative.
    pub proof fn lemma_current_nonnegative(&self)
        ensures
            self@.current >= 0,
    {
    }

    /// The up to three files after the current one.
    pub fn get_next_tracks(&self) -> (next: Vec<&String>)
        requires
            self@.current + 4 <= usize::MAX,
        ensures
            ref_views(next@) == next_files(self@.files, self@.current),
            next@.len() <= 3,
    {
        let mut next: Vec<&String> = Vec::new();
        let end = if self.current_index + 4 < self.audio_files.len() {
            self.current_index + 4
        } else {
            self.audio_files.len()
        };
        let mut i = self.current_index + 1;
        let ghost a = self.current_index + 1;
        if i >= end {
            assert(ref_views(next@) =~= next_files(self@.files, self@.current));
            assert(next@.len() == 0);
            return next;
        }
        while i < end
            invariant
                a <= i <= end,
                a == self.current_index + 1,
                end <= self.audio_files.len(),
                ref_views(next@) == views(self.audio_files@).subrange(a as int, i as int),
            decreases end - i,
        {
            let ghost before = next@;
            let t = &self.audio_files[i];
            assert(t@ == views(self.audio_files@)[i as int]);
            next.push(t);
            assert(next@ == before.push(t));
            assert forall|j: int| 0 <= j < next@.len() implies #[trigger] ref_views(next@)[j] == views(self.audio_files@).subrange(a as int, i + 1)[j] by {
                assert(ref_views(before).len() == before.len());
                assert(ref_views(next@)[j] == next@[j]@);
                if j < before.len() {
                    assert(next@[j] == before[j]);
                    assert(ref_views(before)[j] == before[j]@);
                    assert(ref_views(before)[j] == views(self.audio_files@).subrange(
                        a as int,
                        i as int,
                    )[j]);
                }
            }
            assert(ref_views(next@).len() == next@.len());
            assert(ref_views(before).len() == before.len());
            assert(ref_views(next@) =~= views(self.audio_files@).subrange(
                a as int,
                i + 1,
            ));
            i += 1;
        }
        next
    }

    /// Moves to the next file, unless the current one is the last.
    pub fn move_to_next_track(&mut self)
        requires
            old(self)@.files.len() > 0,
        ensures
            final(self)@.music_folder == old(self)@.music_folder,
            final(self)@.files == old(self)@.files,
            final(self)@.current == if old(self)@.current < old(self)@.files.len() - 1 {
                old(self)@.current + 1
            } else {
                old(self)@.current
            },
    {
        if self.current_index < self.audio_files.len() - 1 {
            self.current_index += 1;
        }
    }

    /// Takes in the removal of the current file from disk (`removal` is only
    /// looked at when there is a current file, and the caller removes the file
    /// only then). When the removal failed its error comes back and nothing
    /// changes; otherwise the file leaves the list, and the position steps
    /// back when it would be past the end.
    pub fn delete_current_track(&mut self, removal: Result<(), std::io::Error>) -> (result: Result<(), std::io::Error>)
        ensures
            final(self)@.music_folder == old(self)@.music_folder,
            old(self)@.current >= old(self)@.files.len() ==> result is Ok && final(self)@ == old(
                self,
            )@,
            old(self)@.current < old(self)@.files.len() && removal is Err ==> result == removal
                && final(self)@ == old(self)@,
            old(self)@.current < old(self)@.files.len() && removal is Ok ==> {
                let files = old(self)@.files.remove(old(self)@.current);
                &&& result is Ok
                &&& final(self)@.files == files
                &&& final(self)@.current == if old(self)@.current >= files.len() && old(
                    self,
                )@.current > 0 {
                    old(self)@.current - 1
                } else {
                    old(self)@.current
                }
            },
    {
        if self.current_index < self.audio_files.len() {
            match removal {
                Err(e) => {
                    return Err(e);
                },
                Ok(()) => {},
            }
            let ghost before = views(self.audio_files@);
            self.audio_files.remove(self.current_index);
            assert(views(self.audio_files@) =~= before.remove(self.current_index as int));
            if self.current_index >= self.audio_files.len() && self.current_index > 0 {
                self.current_index -= 1;
            }
        }
        Ok(())
    }

    /// Moving files is not done: nothing changes.
    pub fn move_current_track(&self, _destination_folder: &str) {
    }
}

} // verus!

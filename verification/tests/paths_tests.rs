use crateful::paths::{extension, file_name, join_file_name, str_eq_ignore_ascii_case, FileExtension};

fn name(p: &str) -> Option<String> {
    file_name(p)
}

#[test]
fn file_name_of_plain_paths() {
    assert_eq!(name("/music/song.mp3"), Some("song.mp3".to_string()));
    assert_eq!(name("song.mp3"), Some("song.mp3".to_string()));
    assert_eq!(name("/music/album/"), Some("album".to_string()));
    assert_eq!(name("//music//album//"), Some("album".to_string()));
}

#[test]
fn file_name_skips_current_dir_components() {
    assert_eq!(name("tmp/foo.txt/."), Some("foo.txt".to_string()));
    assert_eq!(name("./foo"), Some("foo".to_string()));
}

#[test]
fn file_name_absent() {
    assert_eq!(name(""), None);
    assert_eq!(name("/"), None);
    assert_eq!(name("."), None);
    assert_eq!(name("./"), None);
    assert_eq!(name("a/.."), None);
    assert_eq!(name(".."), None);
}

#[test]
fn file_name_agrees_with_std() {
    for p in ["/a/b.mp3", "a/b/", "a/./b/.", "/", "", ".", "a/..", "x/.hidden", "..x", "a//b"] {
        let expected = std::path::Path::new(p)
            .file_name()
            .map(|n| n.to_str().unwrap().to_string());
        assert_eq!(name(p), expected, "path {:?}", p);
    }
}

#[test]
fn extension_cases() {
    assert_eq!(extension("song.MP3"), Some("MP3".to_string()));
    assert_eq!(extension("/m/a.tar.gz"), Some("gz".to_string()));
    assert_eq!(extension("foo."), Some("".to_string()));
    assert_eq!(extension(".bashrc"), None);
    assert_eq!(extension("noext"), None);
    assert_eq!(extension("dir.d/file"), None);
    assert_eq!(extension("..x"), Some("x".to_string()));
}

#[test]
fn extension_agrees_with_std() {
    for p in ["a.mp3", "a.b.c", ".x", ".x.y", "foo.", "d.d/f", "/", "a/..", "..x", "x.flac/."] {
        let expected = std::path::Path::new(p)
            .extension()
            .map(|n| n.to_str().unwrap().to_string());
        assert_eq!(extension(p), expected, "path {:?}", p);
    }
}

#[test]
fn ignore_ascii_case() {
    assert!(str_eq_ignore_ascii_case("FLAC", "flac"));
    assert!(str_eq_ignore_ascii_case("Mp3", "mP3"));
    assert!(!str_eq_ignore_ascii_case("mp3", "mp4"));
    assert!(!str_eq_ignore_ascii_case("wav", "wave"));
    assert!(!str_eq_ignore_ascii_case("é", "É"));
}

#[test]
fn has_extension_ignores_case() {
    let exts = ["mp3", "wav", "flac"];
    assert!(String::from("/m/Track.FLAC").has_extension(&exts));
    assert!(String::from("/m/a.mp3").has_extension(&exts));
    assert!(!String::from("/m/a.ogg").has_extension(&exts));
    assert!(!String::from("/m/mp3").has_extension(&exts));
    assert!(!String::from("/m/.wav").has_extension(&exts));
}

#[test]
fn join_puts_one_separator() {
    assert_eq!(join_file_name("/save", "a.mp3"), "/save/a.mp3");
    assert_eq!(join_file_name("/save/", "a.mp3"), "/save/a.mp3");
    assert_eq!(join_file_name("", "a.mp3"), "a.mp3");
    let mut p = std::path::PathBuf::from("/save");
    p.push("a.mp3");
    assert_eq!(join_file_name("/save", "a.mp3"), p.to_str().unwrap());
}

use crateful::env::Envs;

fn lines(s: &str) -> Vec<String> {
    Envs::config_lines(s)
}

fn lookup(text: &str, key: &str) -> Option<String> {
    for line in lines(text) {
        let k = line.split('=').next().unwrap().to_string();
        if k == key {
            return Some(line.splitn(2, '=').nth(1).unwrap_or("").to_string());
        }
    }
    None
}

#[test]
fn lines_follow_str_lines() {
    for s in ["A=1\r\nB=2\n", "x\n\n", "", "\n", "a\r", "a\r\r\nb", "one"] {
        let expected: Vec<String> = s.lines().map(str::to_string).collect();
        assert_eq!(lines(s), expected, "text {:?}", s);
    }
}

#[test]
fn assign_replaces_first_matching_line() {
    let mut ls = vec!["A=1".to_string(), "B=2".to_string(), "A=3".to_string()];
    Envs::assign(&mut ls, "A", "9");
    assert_eq!(ls, vec!["A=9", "B=2", "A=3"]);
}

#[test]
fn assign_appends_new_key() {
    let mut ls = vec!["A=1".to_string()];
    Envs::assign(&mut ls, "C", "x");
    assert_eq!(ls, vec!["A=1", "C=x"]);
}

#[test]
fn assign_matches_whole_key_only() {
    let mut ls = vec!["SAVE_PATH_AB=1".to_string()];
    Envs::assign(&mut ls, "SAVE_PATH_A", "/m");
    assert_eq!(ls, vec!["SAVE_PATH_AB=1", "SAVE_PATH_A=/m"]);
}

#[test]
fn config_text_joins_with_final_newline() {
    assert_eq!(Envs::config_text(&vec!["A=1".to_string(), "B=".to_string()]), "A=1\nB=\n");
    assert_eq!(Envs::config_text(&vec![]), "\n");
}

#[test]
fn set_env_text_rewrites_default_config() {
    let text = Envs::set_env_text(Envs::default_config_text(), "SAVE_PATH_A", "/music/keep");
    assert_eq!(
        text,
        "INCOMING_PATH=\nSAVE_PATH_A=/music/keep\nSAVE_PATH_D=\nSAVE_PATH_G=\n"
    );
}

#[test]
fn set_env_text_on_missing_file() {
    assert_eq!(Envs::set_env_text("", "INCOMING_PATH", "/in"), "INCOMING_PATH=/in\n");
}

#[test]
fn set_env_text_shorter_value_leaves_no_stale_bytes() {
    let text = Envs::set_env_text("INCOMING_PATH=/a/very/long/path\n", "INCOMING_PATH", "/b");
    assert_eq!(text, "INCOMING_PATH=/b\n");
}

#[test]
fn set_env_text_reads_back() {
    let before = "INCOMING_PATH=/in\r\nSAVE_PATH_A=/a\nOTHER=x";
    let after = Envs::set_env_text(before, "SAVE_PATH_A", "/new");
    assert_eq!(lookup(&after, "SAVE_PATH_A"), Some("/new".to_string()));
    assert_eq!(lookup(&after, "INCOMING_PATH"), lookup(before, "INCOMING_PATH"));
    assert_eq!(lookup(&after, "OTHER"), Some("x".to_string()));
}

#[test]
fn default_config_and_keys() {
    assert_eq!(
        Envs::default_config_text(),
        "INCOMING_PATH=\nSAVE_PATH_A=\nSAVE_PATH_D=\nSAVE_PATH_G=\n"
    );
    assert_eq!(Envs::incoming_key(), "INCOMING_PATH");
    assert_eq!(Envs::default_incoming(), "home/");
}

#[test]
fn written_lines_read_back() {
    let ls = vec!["A=1".to_string(), "".to_string(), "B=two words".to_string()];
    assert_eq!(Envs::config_lines(&Envs::config_text(&ls)), ls);
}

#[test]
fn last_write_wins() {
    let start = "INCOMING_PATH=/in\nSAVE_PATH_A=\n";
    let twice = Envs::set_env_text(&Envs::set_env_text(start, "SAVE_PATH_A", "/one"), "SAVE_PATH_A", "/two");
    assert_eq!(twice, Envs::set_env_text(start, "SAVE_PATH_A", "/two"));
    let again = Envs::set_env_text(&Envs::set_env_text(start, "NEW", "/x"), "NEW", "/x");
    assert_eq!(again, Envs::set_env_text(start, "NEW", "/x"));
}

#[test]
fn last_write_wins_with_carriage_return_values() {
    let start = "A=1\nB=2\n";
    let once = Envs::set_env_text(start, "A", "x\r");
    assert_eq!(Envs::set_env_text(&once, "A", "x\r"), once);
    let twice = Envs::set_env_text(&once, "A", "y");
    assert_eq!(twice, Envs::set_env_text(start, "A", "y"));
}

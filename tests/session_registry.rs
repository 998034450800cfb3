use force::session::{ls_report, LsReport};
use force::state::{
    add_session, list_sessions, remove_session, sessions_file, simple_hash, state_dir_for,
    state_root, Sessions,
};

#[test]
fn test_simple_hash_deterministic() {
    let hash1 = simple_hash("/path/to/project/.force");
    let hash2 = simple_hash("/path/to/project/.force");
    assert_eq!(hash1, hash2);
}

#[test]
fn test_simple_hash_different_for_different_paths() {
    let hash1 = simple_hash("/path/to/project1/.force");
    let hash2 = simple_hash("/path/to/project2/.force");
    assert_ne!(hash1, hash2);
}

#[test]
fn simple_hash_exact_values() {
    assert_eq!(simple_hash("/path/to/project/.force"), "347bd2b08b8f88cc");
    assert_eq!(simple_hash("/path/to/project1/.force"), "5afe836d8afacabb");
    assert_eq!(simple_hash(""), "0000000000000000");
}

#[test]
fn state_locations() {
    assert_eq!(
        state_root(Some("/home/u/.local/state".to_string()), Some("/home/u".to_string())),
        "/home/u/.local/state"
    );
    assert_eq!(state_root(None, Some("/home/u".to_string())), "/home/u/.local/state");
    assert_eq!(state_root(None, None), ".local/state");
    let dir = state_dir_for("/state", "/path/to/project/.force");
    assert_eq!(dir, "/state/force/347bd2b08b8f88cc");
    assert_eq!(sessions_file(&dir), "/state/force/347bd2b08b8f88cc/sessions");
}

#[test]
fn test_state_dir_is_absolute_path() {
    let text = |p: std::path::PathBuf| p.to_string_lossy().into_owned();
    let root = state_root(dirs::state_dir().map(text), dirs::home_dir().map(text));
    let state_dir = state_dir_for(&root, "/tmp/project/.force");
    assert!(
        std::path::Path::new(&state_dir).is_absolute(),
        "State dir should be absolute, got: {:?}",
        state_dir
    );
    assert!(
        !state_dir.contains('~'),
        "State dir should not contain literal ~, got: {:?}",
        state_dir
    );
}

#[test]
fn test_add_and_list_sessions() {
    let mut s = Sessions::new();
    add_session(&mut s, "feature-a");
    add_session(&mut s, "feature-b");
    let sessions = list_sessions(&s);
    assert_eq!(sessions.len(), 2);
    assert!(sessions.contains(&"feature-a".to_string()));
    assert!(sessions.contains(&"feature-b".to_string()));
}

#[test]
fn test_remove_session() {
    let mut s = Sessions::new();
    add_session(&mut s, "feature-a");
    add_session(&mut s, "feature-b");
    remove_session(&mut s, "feature-a");
    let sessions = list_sessions(&s);
    assert_eq!(sessions.len(), 1);
    assert!(sessions.contains(&"feature-b".to_string()));
}

#[test]
fn test_list_empty_sessions() {
    let s = Sessions::new();
    assert!(list_sessions(&s).is_empty());
}

#[test]
fn test_add_duplicate_session() {
    let mut s = Sessions::new();
    add_session(&mut s, "feature-a");
    add_session(&mut s, "feature-a");
    assert_eq!(list_sessions(&s).len(), 1);
}

#[test]
fn list_is_sorted() {
    let mut s = Sessions::new();
    for f in ["zeta", "alpha", "mid", "Alpha", "alpha"] {
        add_session(&mut s, f);
    }
    assert_eq!(list_sessions(&s), ["Alpha", "alpha", "mid", "zeta"]);
    remove_session(&mut s, "absent");
    assert_eq!(list_sessions(&s).len(), 4);
}

#[test]
fn registry_text_round_trip() {
    let s = Sessions::parse("  feature-b \n\nfeature-a\r\nfeature-b\n");
    assert_eq!(list_sessions(&s), ["feature-a", "feature-b"]);
    let text = s.render().unwrap();
    assert_eq!(text, "feature-a\nfeature-b");
    let again = Sessions::parse(&text);
    assert_eq!(list_sessions(&again), ["feature-a", "feature-b"]);
    assert!(Sessions::parse("").is_empty());
    assert!(Sessions::parse(" \n\t\n").is_empty());
    assert_eq!(Sessions::new().render(), None);
}

#[test]
fn up_then_down_forgets_the_session() {
    let mut s = Sessions::parse("other\n");
    add_session(&mut s, "feature-a");
    let saved = s.render().unwrap();
    let mut s = Sessions::parse(&saved);
    remove_session(&mut s, "feature-a");
    assert_eq!(list_sessions(&s), ["other"]);
    remove_session(&mut s, "other");
    assert_eq!(s.render(), None);
}

#[test]
fn ls_reports_no_sessions_explicitly() {
    let s = Sessions::new();
    assert!(matches!(ls_report(&s), LsReport::NoSessions));
}

#[test]
fn ls_reports_each_session_with_its_port() {
    let mut s = Sessions::new();
    add_session(&mut s, "feature-b");
    add_session(&mut s, "feature-a");
    match ls_report(&s) {
        LsReport::Active(lines) => {
            assert_eq!(lines.len(), 2);
            assert_eq!(lines[0].name, "feature-a");
            assert_eq!(lines[0].port, 4538);
            assert_eq!(lines[1].name, "feature-b");
            assert_eq!(lines[1].port, 4539);
        }
        LsReport::NoSessions => panic!("expected sessions"),
    }
}

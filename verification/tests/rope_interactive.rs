use bondage::rope::interactive::{has_rope_trigger, session_history, Sitter};
use bondage::Message;

#[test]
fn test_has_rope_trigger() {
    assert!(has_rope_trigger("@rope create files"));
    assert!(has_rope_trigger("do this\n@rope\nand that"));
    assert!(has_rope_trigger("some text @rope"));
    assert!(has_rope_trigger("@rope"));
    assert!(has_rope_trigger("\t@rope\t"));
    assert!(has_rope_trigger("  @rope  "));

    // No trigger if no whitespace around it
    assert!(!has_rope_trigger("my@rope"));
    assert!(!has_rope_trigger("@ropey"));
    assert!(!has_rope_trigger("my@ropey"));
    assert!(!has_rope_trigger("@rope?"));
    assert!(!has_rope_trigger("(@rope)"));
    assert!(!has_rope_trigger("'@rope'"));
}

#[test]
fn trigger_found_after_a_glued_occurrence() {
    assert!(has_rope_trigger("x@rope then @rope"));
    assert!(!has_rope_trigger(""));
    assert!(!has_rope_trigger("@rop"));
    assert!(has_rope_trigger("é @rope\u{3000}"));
}

#[test]
fn sitter_fires_on_launch_when_trigger_present() {
    let mut s = Sitter::new();
    assert_eq!(s, Sitter { last_mtime: Some(0), last_hash: None });
    assert!(s.on_mtime(1_000));
    assert!(s.on_content(1_000, "please @rope do it"));
    assert_eq!(s.last_mtime, Some(1_000));
    assert!(s.last_hash.is_some());
}

#[test]
fn sitter_unchanged_content_does_not_rerun() {
    let mut s = Sitter::new();
    assert!(s.on_mtime(10));
    assert!(s.on_content(10, "@rope"));
    let h = s.last_hash;
    // A no-op save: newer mtime, same content.
    assert!(s.on_mtime(20));
    assert!(!s.on_content(20, "@rope"));
    assert_eq!(s.last_mtime, Some(20));
    assert_eq!(s.last_hash, h);
    // An edit that keeps the trigger runs again.
    assert!(s.on_mtime(30));
    assert!(s.on_content(30, "@rope and more"));
}

#[test]
fn sitter_stale_poll_reads_nothing() {
    let mut s = Sitter { last_mtime: Some(50), last_hash: Some(1) };
    assert!(!s.on_mtime(50));
    assert!(!s.on_mtime(49));
    assert_eq!(s, Sitter { last_mtime: Some(50), last_hash: Some(1) });
}

#[test]
fn sitter_first_sighting_is_only_recorded() {
    let mut s = Sitter { last_mtime: None, last_hash: None };
    assert!(!s.on_mtime(99));
    assert_eq!(s, Sitter { last_mtime: Some(99), last_hash: None });
}

#[test]
fn sitter_changed_content_without_trigger_does_not_run() {
    let mut s = Sitter::new();
    assert!(s.on_mtime(5));
    assert!(!s.on_content(5, "just notes"));
    assert!(s.last_hash.is_some());
    assert!(s.on_mtime(6));
    assert!(s.on_content(6, "just notes @rope"));
}

#[test]
fn sitter_after_turn_snapshots_agent_writes() {
    let mut s = Sitter::new();
    assert!(s.on_mtime(5));
    assert!(s.on_content(5, "@rope go"));
    s.after_turn(Some(9), Some("@rope go\nagent answer"));
    assert_eq!(s.last_mtime, Some(9));
    assert!(s.on_mtime(12));
    assert!(!s.on_content(12, "@rope go\nagent answer"));
    let before = s;
    s.after_turn(None, None);
    assert_eq!(s, before);
}

#[test]
fn session_history_fills_template() {
    let h = session_history(
        "File {SESSION_FILE_NAME} holds:\n{SESSION_FILE_CONTENT}\nTools:\n{TOOLS}",
        "session.md",
        "@rope hi",
        "- lookup: x",
    );
    assert_eq!(h.len(), 2);
    assert_eq!(
        h[0],
        Message::System("File session.md holds:\n@rope hi\nTools:\n- lookup: x".to_string())
    );
    assert_eq!(
        h[1],
        Message::User(
            "Here is the content of the session file 'session.md':\n---\n@rope hi\n---".to_string()
        )
    );
}

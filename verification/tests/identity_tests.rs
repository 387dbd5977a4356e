use std::collections::hash_map::DefaultHasher;
use std::hash::Hash;
use std::hash::Hasher;
use claude_team::identity::{normalize_part, take_prefix_by_width, TeammateIdentity};
use claude_team::watcher::InboxWatcher;

#[test]
fn hidden_without_identity() {
    let identity = TeammateIdentity::default();
    assert!(identity.is_empty());
    assert_eq!(identity.desired_height(/*width*/ 80), 0);
}

#[test]
fn renders_agent_and_team() {
    let identity =
        TeammateIdentity::new(Some("team-a".to_string()), Some("backend".to_string()));

    assert_eq!(identity.desired_height(/*width*/ 80), 1);
    let lines = identity.render_lines(80);
    assert_eq!(lines.len(), 1);
    assert!(lines[0].contains("backend - team team-a"));
}

#[test]
fn identity_text_variants() {
    let both = TeammateIdentity::new(Some(" t ".to_string()), Some("a".to_string()));
    assert_eq!(both.text().as_deref(), Some("  a - team t"));
    let team = TeammateIdentity::new(Some("t".to_string()), Some("   ".to_string()));
    assert_eq!(team.text().as_deref(), Some("  team t"));
    let agent = TeammateIdentity::new(None, Some("a".to_string()));
    assert_eq!(agent.text().as_deref(), Some("  a"));
    let none = TeammateIdentity::new(Some("".to_string()), None);
    assert_eq!(none.text(), None);
    assert!(none.is_empty());
    assert_eq!(none, TeammateIdentity::default());
}

#[test]
fn narrow_area_renders_nothing() {
    let identity = TeammateIdentity::new(Some("team-a".to_string()), None);
    assert!(identity.render_lines(3).is_empty());
    assert_eq!(identity.desired_height(3), 0);
    assert_eq!(identity.render_lines(4), vec!["  te".to_string()]);
    assert_eq!(identity.desired_height(4), 1);
}

#[test]
fn normalize_part_trims_and_drops_blank() {
    assert_eq!(normalize_part(Some("  x y  ".to_string())), Some("x y".to_string()));
    assert_eq!(normalize_part(Some(" \t ".to_string())), None);
    assert_eq!(normalize_part(None), None);
}

#[test]
fn prefix_by_width_counts_display_columns() {
    assert_eq!(take_prefix_by_width("hello", 3), "hel");
    assert_eq!(take_prefix_by_width("hello", 10), "hello");
    assert_eq!(take_prefix_by_width("日本語", 3), "日");
    assert_eq!(take_prefix_by_width("日本語", 4), "日本");
    assert_eq!(take_prefix_by_width("a\u{7}b", 2), "a\u{7}b");
    assert_eq!(take_prefix_by_width("abc", 0), "");
}

#[test]
fn watcher_processes_only_on_changed_fingerprint() {
    let mut watcher = InboxWatcher::new();
    assert!(!watcher.should_process(None));
    assert!(watcher.should_process(Some(1)));
    watcher.record_processed(Some(1), Some(Some(2)));
    assert_eq!(watcher.last_fingerprint, Some(2));
    assert!(!watcher.should_process(Some(2)));
    assert!(watcher.should_process(Some(1)));
    watcher.record_processed(Some(3), None);
    assert_eq!(watcher.last_fingerprint, Some(3));
    assert!(!watcher.should_process(Some(3)));
    assert!(watcher.should_process(None));
}

#[test]
fn missing_inbox_has_no_fingerprint() {
    assert_eq!(claude_team::watcher::inbox_fingerprint(None), None);
}

#[test]
fn inbox_fingerprint_changes_with_content() {
    let first = claude_team::watcher::inbox_fingerprint(Some(b"[{\"text\":\"one\"}]\n"));
    let second = claude_team::watcher::inbox_fingerprint(Some(b"[{\"text\":\"two\"}]\n"));
    assert!(first.is_some());
    assert_ne!(first, second);
    assert_eq!(first, claude_team::watcher::inbox_fingerprint(Some(b"[{\"text\":\"one\"}]\n")));
}

#[test]
fn fingerprint_is_hash_of_the_byte_vector() {
    for bytes in [b"".to_vec(), b"[]\n".to_vec(), vec![7u8; 300]] {
        let mut hasher = DefaultHasher::new();
        bytes.hash(&mut hasher);
        assert_eq!(
            claude_team::watcher::inbox_fingerprint(Some(&bytes)),
            Some(hasher.finish())
        );
    }
}

use ferrocopy::crash::{crash_file_name, crash_report, panic_location};
use ferrocopy::file_watcher::{classify, classify_batch, ChangeKind, FileChange};
use ferrocopy::message::{key_code_to_char, key_messages, pointer_kind, PointerKind};
use ferrocopy::progress::CompletionTracker;
use ferrocopy::shell::{bg_command_line, command_line, shell_sources};
use ferrocopy::text::{join_lines, parse_u16};
use std::path::PathBuf;

#[test]
fn context_menu_commands_quote_the_executable_and_the_item() {
    assert_eq!(
        command_line(r"C:\Tools\ferrocopy.exe", "shell-copy"),
        r#""C:\Tools\ferrocopy.exe" shell-copy "%1""#
    );
    assert_eq!(
        bg_command_line(r"C:\Tools\ferrocopy.exe", "shell-paste"),
        r#""C:\Tools\ferrocopy.exe" shell-paste "%V""#
    );
}

#[test]
fn shell_keeps_only_existing_sources() {
    let paths = vec!["a".to_string(), "b".to_string(), "c".to_string()];
    assert_eq!(shell_sources(paths, &vec![true, false, true], false), Ok(vec!["a".to_string(), "c".to_string()]));
    assert_eq!(
        shell_sources(vec![], &vec![], false),
        Err("No files specified for shell copy".to_string())
    );
    assert_eq!(
        shell_sources(vec![], &vec![], true),
        Err("No files specified for shell move".to_string())
    );
    assert_eq!(
        shell_sources(vec!["x".to_string()], &vec![false], true),
        Err("No valid source files".to_string())
    );
}

#[test]
fn crash_report_layout() {
    let text = crash_report("0.1.0", 1700000000, "boom", "src/main.rs:42", "frames");
    assert_eq!(
        text,
        "FerroCopy Crash Report\n=====================\nVersion: 0.1.0\nTimestamp (unix): 1700000000\nPanic: boom\nLocation: src/main.rs:42\n\nBacktrace:\nframes\n"
    );
    assert_eq!(crash_file_name(1700000000), "ferrocopy_crash_1700000000.txt");
    assert_eq!(panic_location("src/lib.rs", 7), "src/lib.rs:7");
}

#[test]
fn clipboard_lines_are_joined_with_crlf() {
    let lines = vec!["a.txt".to_string(), "b.txt".to_string(), "c".to_string()];
    assert_eq!(join_lines(&lines, "\r\n"), "a.txt\r\nb.txt\r\nc");
    assert_eq!(join_lines(&vec![], "\r\n"), "");
    assert_eq!(join_lines(&vec!["one".to_string()], ", "), "one");
}

#[test]
fn port_numbers() {
    assert_eq!(parse_u16("22"), Some(22));
    assert_eq!(parse_u16("+8080"), Some(8080));
    assert_eq!(parse_u16("65535"), Some(65535));
    assert_eq!(parse_u16("65536"), None);
    assert_eq!(parse_u16(""), None);
    assert_eq!(parse_u16("2a"), None);
}

#[test]
fn key_codes_map_to_characters() {
    assert_eq!(key_code_to_char(0x04), Some('a'));
    assert_eq!(key_code_to_char(0x1D), Some('z'));
    assert_eq!(key_code_to_char(0x1E), Some('0'));
    assert_eq!(key_code_to_char(0x27), Some('9'));
    assert_eq!(key_code_to_char(0x2C), Some(' '));
    assert_eq!(key_code_to_char(0x28), None);
    assert_eq!(key_code_to_char(0), None);
}

#[test]
fn notifications_become_changes() {
    let a = PathBuf::from("a");
    let b = PathBuf::from("b");
    assert!(matches!(classify(ChangeKind::Create, vec![a.clone()], PathBuf::new()), Some(FileChange::Created(p)) if p == a));
    assert!(matches!(
        classify(ChangeKind::Rename, vec![a.clone(), b.clone()], PathBuf::new()),
        Some(FileChange::Renamed(x, y)) if x == a && y == b
    ));
    assert!(matches!(
        classify(ChangeKind::Rename, vec![a.clone()], PathBuf::from("z")),
        Some(FileChange::Renamed(x, y)) if x == a && y == PathBuf::from("z")
    ));
    assert!(classify(ChangeKind::Remove, vec![], PathBuf::new()).is_none());
    let batch = classify_batch(vec![
        (ChangeKind::Modify, vec![a.clone()]),
        (ChangeKind::Other, vec![]),
        (ChangeKind::Remove, vec![b.clone()]),
        (ChangeKind::Rename, vec![a.clone()]),
    ]);
    assert_eq!(batch.len(), 3);
    assert!(matches!(&batch[0], FileChange::Modified(p) if *p == a));
    assert!(matches!(&batch[1], FileChange::Removed(p) if *p == b));
    assert!(matches!(&batch[2], FileChange::Renamed(x, y) if *x == a && y.as_os_str().is_empty()));
}

#[test]
fn each_file_completes_once() {
    let mut t = CompletionTracker::new();
    assert!(!t.record("a", 5, 10));
    assert!(t.record("a", 10, 10));
    assert!(!t.record("a", 10, 10));
    assert!(!t.record("empty", 0, 0));
    assert!(t.record("b", 12, 10));
    assert_eq!(t.count(), 2);
}

#[test]
fn mouse_buttons_map_to_pointer_kinds() {
    assert_eq!(pointer_kind(true, true), Some(PointerKind::Down));
    assert_eq!(pointer_kind(false, true), Some(PointerKind::Up));
    assert_eq!(pointer_kind(true, false), None);
}

#[test]
fn keys_give_a_character_and_a_code_message() {
    let (k, e) = key_messages(0x05, true);
    assert_eq!(k.key, 'b');
    assert!(k.pressed);
    assert_eq!(e.key_code, 0x05);
    assert_eq!(e.text.as_deref(), Some("b"));
    let (k, e) = key_messages(0x50, false);
    assert_eq!(k.key, '\0');
    assert!(!k.pressed);
    assert_eq!(e.text, None);
}

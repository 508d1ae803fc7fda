use ferrocopy::config::HashAlgorithm;
use ferrocopy::session::{AppStatus, EntryStatus, LogEntry, ProgressReport, Session, Toast};

fn report(file: &str, copied: u64, total: u64) -> ProgressReport {
    ProgressReport {
        file: file.to_string(),
        bytes_copied: copied,
        total_bytes: total,
        is_done: false,
        error: String::new(),
        log: vec![],
    }
}

#[test]
fn fresh_window_is_idle_with_defaults() {
    let s = Session::new();
    assert_eq!(s.status, AppStatus::Idle);
    assert_eq!(s.hash_algorithm, HashAlgorithm::Blake3);
    assert!(s.threads >= 1);
    assert!(s.files.is_empty());
    let c = s.controls();
    assert!(!c.start && !c.pause && !c.resume && !c.cancel && !c.clear);
}

#[test]
fn start_needs_both_paths() {
    let mut s = Session::new();
    s.source = "src".into();
    assert!(s.start().is_none());
    s.destination = "dst".into();
    assert!(s.controls().start);
    let req = s.start().unwrap();
    assert_eq!(req.source, "src");
    assert_eq!(req.destination, "dst");
    assert_eq!(s.status, AppStatus::Scanning);
    assert!(s.start().is_none());
}

#[test]
fn pause_resume_and_cancel_follow_the_status() {
    let mut s = Session::new();
    assert!(!s.pause());
    s.status = AppStatus::Copying;
    assert!(s.pause());
    assert_eq!(s.status, AppStatus::Paused);
    assert!(s.controls().resume);
    assert!(s.resume());
    assert_eq!(s.status, AppStatus::Copying);
    assert!(s.cancel());
    assert_eq!(s.status, AppStatus::Idle);
    assert!(matches!(s.log.last(), Some(LogEntry::Cancelled)));
    assert!(!s.cancel());
}

#[test]
fn clear_resets_a_finished_window() {
    let mut s = Session::new();
    s.source = "a".into();
    assert!(!s.clear());
    s.status = AppStatus::Done;
    assert!(s.controls().clear);
    assert!(s.clear());
    assert_eq!(s.status, AppStatus::Idle);
    assert_eq!(s.source, "");
}

#[test]
fn shell_sources_are_loaded_once() {
    let mut s = Session::with_sources(vec!["/d/a.txt".into(), "/d/b.txt".into(), "/d/a.txt".into()]);
    assert!(s.pending_add);
    assert!(s.load_shell_sources(Some("/d".into()), &vec![1, 2, 3]));
    assert_eq!(s.source, "/d");
    assert_eq!(s.files.len(), 2);
    assert_eq!(s.files[0].name, "/d/a.txt");
    assert_eq!(s.files[0].size, 1);
    assert_eq!(s.files[1].size, 2);
    assert_eq!(s.files[1].status, EntryStatus::Pending);
    assert!(matches!(s.log.last(), Some(LogEntry::ShellLoaded(3))));
    assert!(!s.load_shell_sources(None, &vec![]));
}

#[test]
fn single_shell_source_becomes_the_source_and_move_mode_is_logged() {
    let mut s = Session::with_sources_move(vec!["/d/only.bin".into()]);
    assert!(s.load_shell_sources(Some("/d".into()), &vec![9]));
    assert_eq!(s.source, "/d/only.bin");
    assert!(matches!(s.log.last(), Some(LogEntry::MoveMode)));
    let t = Session::with_destination("/target".into());
    assert_eq!(t.destination, "/target");
    assert!(!t.pending_add);
}

#[test]
fn progress_updates_the_named_entry() {
    let mut s = Session::with_sources(vec!["f1".into(), "f2".into()]);
    s.load_shell_sources(None, &vec![10, 20]);
    s.apply_progress(report("f1", 5, 10));
    assert_eq!(s.current_file, "f1");
    assert_eq!(s.files[0].status, EntryStatus::Copying);
    assert_eq!(s.files[0].copied, 5);
    assert_eq!(s.files_done, 0);
    s.apply_progress(report("f1", 10, 10));
    assert_eq!(s.files[0].status, EntryStatus::Done);
    assert_eq!(s.files_done, 1);
    s.apply_progress(report("unknown", 10, 10));
    assert_eq!(s.files_done, 1);
    assert_eq!(s.current_file, "unknown");
}

#[test]
fn final_progress_ends_the_copy_with_a_toast() {
    let mut s = Session::new();
    s.files_done = 4;
    let mut done = report("", 0, 0);
    done.is_done = true;
    done.log = vec!["bye".into()];
    s.apply_progress(done);
    assert_eq!(s.status, AppStatus::Done);
    assert!(matches!(s.toasts.last(), Some(Toast::Completed(4))));
    assert_eq!(s.log.len(), 2);
    assert!(s.log.iter().all(|e| matches!(e, LogEntry::Text(t) if t == "bye")));

    let mut t = Session::new();
    let mut failed = report("", 0, 0);
    failed.is_done = true;
    failed.error = "boom".into();
    t.apply_progress(failed);
    assert_eq!(t.status, AppStatus::Error);
    assert_eq!(t.error_message, "boom");
    assert!(matches!(t.toasts.last(), Some(Toast::Failed(m)) if m == "boom"));
}

#[test]
fn controls_leave_the_settings_alone() {
    let mut s = Session::new();
    s.source = "src".into();
    s.destination = "dst".into();
    s.recursive = true;
    s.status = AppStatus::Copying;
    assert!(s.pause());
    assert!(s.resume());
    assert!(s.cancel());
    assert_eq!(s.source, "src");
    assert_eq!(s.destination, "dst");
    assert!(s.recursive);
    assert_eq!(s.status, AppStatus::Idle);
}

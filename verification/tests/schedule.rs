use ferrocopy::schedule::{PipelineState, ReportSystem, Schedule, Stage, System};
use std::path::PathBuf;
use std::sync::{Arc, Mutex};

struct Recorder {
    label: &'static str,
    log: Arc<Mutex<Vec<&'static str>>>,
    fail: bool,
}

impl System for Recorder {
    fn name(&self) -> &str {
        self.label
    }
    fn run(&self, state: &mut PipelineState) -> Result<(), String> {
        self.log.lock().unwrap().push(self.label);
        state.errors += 1;
        if self.fail {
            Err(format!("{} failed", self.label))
        } else {
            Ok(())
        }
    }
}

fn recorder(label: &'static str, log: &Arc<Mutex<Vec<&'static str>>>, fail: bool) -> Recorder {
    Recorder { label, log: log.clone(), fail }
}

#[test]
fn test_stage_order() {
    let order = Stage::ordered();
    assert_eq!(order, vec![Stage::Scan, Stage::Copy, Stage::Verify, Stage::Report]);
}

#[test]
fn test_report_system() {
    let mut state = PipelineState::default();
    state.files = vec![(PathBuf::from("a"), PathBuf::from("b"))];
    state.bytes_copied = 100;
    ReportSystem.run(&mut state).unwrap();
}

#[test]
fn test_empty_schedule() {
    let schedule = Schedule::new();
    let mut state = PipelineState::default();
    assert!(schedule.run(&mut state).is_ok());
}

#[test]
fn systems_run_by_stage_then_by_addition() {
    let log = Arc::new(Mutex::new(Vec::new()));
    let mut schedule = Schedule::new();
    schedule.add_system(Stage::Report, recorder("report", &log, false));
    schedule.add_system(Stage::Copy, recorder("copy-1", &log, false));
    schedule.add_system(Stage::Scan, recorder("scan", &log, false));
    schedule.add_system(Stage::Copy, recorder("copy-2", &log, false));
    schedule.add_system(Stage::Verify, recorder("verify", &log, false));
    let mut state = PipelineState::default();
    assert_eq!(schedule.run(&mut state), Ok(()));
    assert_eq!(*log.lock().unwrap(), vec!["scan", "copy-1", "copy-2", "verify", "report"]);
    assert_eq!(state.errors, 5);
}

#[test]
fn first_failure_stops_the_schedule() {
    let log = Arc::new(Mutex::new(Vec::new()));
    let mut schedule = Schedule::new();
    schedule.add_system(Stage::Verify, recorder("verify", &log, false));
    schedule.add_system(Stage::Copy, recorder("copy", &log, true));
    schedule.add_system(Stage::Scan, recorder("scan", &log, false));
    let mut state = PipelineState::default();
    assert_eq!(schedule.run(&mut state), Err("copy failed".to_string()));
    assert_eq!(*log.lock().unwrap(), vec!["scan", "copy"]);
    assert_eq!(state.errors, 2);
}

#[test]
fn scan_totals_the_sizes_that_could_be_read() {
    let mut state = PipelineState::default();
    let files = vec![
        (PathBuf::from("a"), PathBuf::from("x/a")),
        (PathBuf::from("b"), PathBuf::from("x/b")),
        (PathBuf::from("c"), PathBuf::from("x/c")),
    ];
    state.record_scan(files, &vec![Some(10), None, Some(32)]);
    assert_eq!(state.files.len(), 3);
    assert_eq!(state.total_bytes, 42);
}

#[test]
fn copy_stage_takes_the_files() {
    let mut state = PipelineState::default();
    assert_eq!(state.take_files(), Err("No files to copy".to_string()));
    state.files = vec![(PathBuf::from("a"), PathBuf::from("b"))];
    let files = state.take_files().unwrap();
    assert_eq!(files, vec![(PathBuf::from("a"), PathBuf::from("b"))]);
    assert!(state.files.is_empty());
}

#[test]
fn verification_counts_missing_destinations() {
    let mut state = PipelineState::default();
    state.record_verification(&vec![true, false, true, false]);
    assert_eq!(state.errors, 2);
    assert!(!state.verified);
    let mut clean = PipelineState::default();
    clean.record_verification(&vec![true, true]);
    assert_eq!(clean.errors, 0);
    assert!(clean.verified);
    let mut nothing = PipelineState::default();
    nothing.record_verification(&vec![]);
    assert!(nothing.verified);
}

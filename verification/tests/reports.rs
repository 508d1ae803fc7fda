use ferrocopy::engine::{CopyOutcome, CopySeverity, EngineResult};
use ferrocopy::worker::{collect_report, final_report, scan_report};

fn outcome(name: &str, severity: CopySeverity, message: &str) -> CopyOutcome {
    CopyOutcome {
        src: name.to_string(),
        dst: "dst".to_string(),
        severity,
        message: message.to_string(),
        bytes: 1,
    }
}

#[test]
fn scan_report_names_the_source() {
    let r = scan_report("/data/photos");
    assert!(!r.is_done);
    assert_eq!(r.error, "");
    assert_eq!(r.log, vec!["Scanning: /data/photos".to_string()]);
    assert_eq!(r.file, "");
}

#[test]
fn scan_error_ends_the_copy() {
    let r = collect_report(&Err("Source does not exist: /nope".to_string()));
    assert!(r.is_done);
    assert_eq!(r.error, "Source does not exist: /nope");
    assert_eq!(r.log, vec!["Error: Source does not exist: /nope".to_string()]);
}

#[test]
fn empty_scan_ends_the_copy() {
    let r = collect_report(&Ok(0));
    assert!(r.is_done);
    assert_eq!(r.error, "No files to copy");
    assert_eq!(r.log, vec!["No files to copy".to_string()]);
}

#[test]
fn found_files_are_counted() {
    let r = collect_report(&Ok(12));
    assert!(!r.is_done);
    assert_eq!(r.error, "");
    assert_eq!(r.log, vec!["Found 12 file(s).".to_string()]);
}

#[test]
fn clean_run_reports_completion() {
    let mut result = EngineResult::new();
    result.push(outcome("a", CopySeverity::Clean, ""));
    result.push(outcome("b", CopySeverity::Skipped, "exists"));
    let r = final_report(&result);
    assert!(r.is_done);
    assert_eq!(r.error, "");
    assert_eq!(r.log, vec!["✓ Copy complete: 2 file(s) OK".to_string()]);
}

#[test]
fn failed_run_lists_each_failure() {
    let mut result = EngineResult::new();
    result.push(outcome("a", CopySeverity::Clean, ""));
    result.push(outcome("b", CopySeverity::Error, "denied"));
    result.push(outcome("c", CopySeverity::Fatal, "disk gone"));
    let r = final_report(&result);
    assert!(r.is_done);
    assert_eq!(r.error, "2 error(s): denied");
    assert_eq!(
        r.log,
        vec![
            "✗ 2 file(s) had errors".to_string(),
            "  ✗ b: denied".to_string(),
            "  ✗ c: disk gone".to_string(),
        ]
    );
}

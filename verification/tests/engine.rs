use ferrocopy::config::OverwriteMode;
use ferrocopy::engine::{
    buffer_size, gate, plan_collect, skip_existing, AfterRead, ChunkProgress, CollectError, CollectPlan,
    CopyOutcome, CopySeverity, DestinationChoice, EngineResult, Gate, RetryDecision, RetryStrategy,
    SourceKind,
};

fn outcome(name: &str, severity: CopySeverity, message: &str) -> CopyOutcome {
    CopyOutcome {
        src: name.to_string(),
        dst: format!("out/{}", name),
        severity,
        message: message.to_string(),
        bytes: 10,
    }
}

#[test]
fn file_source_goes_into_a_directory_or_becomes_the_destination() {
    assert_eq!(
        plan_collect(SourceKind::File, true, false, false),
        Ok(CollectPlan::SingleFile(DestinationChoice::JoinSourceName))
    );
    assert_eq!(
        plan_collect(SourceKind::File, false, true, false),
        Ok(CollectPlan::SingleFile(DestinationChoice::JoinSourceName))
    );
    assert_eq!(
        plan_collect(SourceKind::File, false, false, true),
        Ok(CollectPlan::SingleFile(DestinationChoice::AsGiven))
    );
}

#[test]
fn directory_source_needs_the_recursive_flag() {
    assert_eq!(plan_collect(SourceKind::Directory, true, false, false), Err(CollectError::DirectoryNeedsRecursive));
    assert_eq!(
        plan_collect(SourceKind::Directory, true, false, true),
        Ok(CollectPlan::WalkDirectory(DestinationChoice::JoinSourceName))
    );
    assert_eq!(
        plan_collect(SourceKind::Directory, false, true, true),
        Ok(CollectPlan::WalkDirectory(DestinationChoice::AsGiven))
    );
    assert_eq!(
        CollectError::DirectoryNeedsRecursive.message(),
        "Source is a directory. Use --recursive to copy directories."
    );
}

#[test]
fn missing_source_is_an_error_and_other_kinds_copy_nothing() {
    assert_eq!(plan_collect(SourceKind::Missing, true, true, true), Err(CollectError::SourceMissing));
    assert_eq!(CollectError::SourceMissing.message(), "Source does not exist");
    assert_eq!(plan_collect(SourceKind::Other, false, false, true), Ok(CollectPlan::Nothing));
}

#[test]
fn only_skip_mode_leaves_an_existing_destination() {
    assert!(skip_existing(OverwriteMode::Skip, true));
    assert!(!skip_existing(OverwriteMode::Skip, false));
    assert!(!skip_existing(OverwriteMode::Always, true));
    assert!(!skip_existing(OverwriteMode::IfDifferent, true));
    assert!(!skip_existing(OverwriteMode::Prompt, true));
}

#[test]
fn buffer_is_64k_below_one_mebibyte() {
    assert_eq!(buffer_size(0), 65536);
    assert_eq!(buffer_size(1048575), 65536);
    assert_eq!(buffer_size(1048576), 1048576);
    assert_eq!(buffer_size(u64::MAX), 1048576);
}

#[test]
fn cancel_wins_over_pause() {
    assert_eq!(gate(true, true), Gate::Abort);
    assert_eq!(gate(true, false), Gate::Abort);
    assert_eq!(gate(false, true), Gate::Wait);
    assert_eq!(gate(false, false), Gate::Proceed);
}

#[test]
fn chunks_add_up_until_an_empty_read() {
    let p = ChunkProgress::start(100);
    assert!(!p.is_complete());
    let p = match p.after_read(60) {
        AfterRead::Write(p) => p,
        AfterRead::Finished => panic!("a chunk was read"),
    };
    assert_eq!(p, ChunkProgress { copied: 60, total: 100 });
    assert!(!p.is_complete());
    let p = match p.after_read(40) {
        AfterRead::Write(p) => p,
        AfterRead::Finished => panic!("a chunk was read"),
    };
    assert!(p.is_complete());
    assert_eq!(p.after_read(0), AfterRead::Finished);
    assert!(!ChunkProgress::start(0).is_complete());
}

#[test]
fn backoff_doubles_up_to_the_cap() {
    let s = RetryStrategy::default_strategy();
    assert_eq!(s, RetryStrategy { initial_ms: 100, max_ms: 5000, max_retries: 3, jitter_permille: 300 });
    assert_eq!(s.delay_ms(1), 100);
    assert_eq!(s.delay_ms(2), 200);
    assert_eq!(s.delay_ms(3), 400);
    assert_eq!(s.delay_ms(6), 3200);
    assert_eq!(s.delay_ms(7), 5000);
    assert_eq!(s.delay_ms(30), 5000);
}

#[test]
fn three_attempts_then_give_up() {
    let s = RetryStrategy::default_strategy();
    assert_eq!(s.after_failure(1), RetryDecision::RetryAfterMs(100));
    assert_eq!(s.after_failure(2), RetryDecision::RetryAfterMs(200));
    assert_eq!(s.after_failure(3), RetryDecision::GiveUp);
}

#[test]
fn jitter_moves_the_delay_by_thousandths() {
    let s = RetryStrategy::default_strategy();
    assert_eq!(s.jittered_ms(1000, 300), 1300);
    assert_eq!(s.jittered_ms(1000, -300), 700);
    assert_eq!(s.jittered_ms(1000, 0), 1000);
    assert_eq!(s.jittered_ms(15, 100), 16);
    assert_eq!(s.jittered_ms(15, -100), 14);
}

#[test]
fn severities_are_ordered() {
    let all = [
        CopySeverity::Clean,
        CopySeverity::Skipped,
        CopySeverity::Warning,
        CopySeverity::Error,
        CopySeverity::Fatal,
    ];
    for (i, s) in all.iter().enumerate() {
        assert_eq!(s.rank() as usize, i);
        assert_eq!(s.is_error(), i >= 3);
    }
}

#[test]
fn engine_result_counts_failures_in_order() {
    let mut r = EngineResult::new();
    r.push(outcome("a", CopySeverity::Clean, ""));
    r.push(outcome("b", CopySeverity::Error, "denied"));
    r.push(outcome("c", CopySeverity::Warning, "slow"));
    r.push(outcome("d", CopySeverity::Fatal, "disk gone"));
    assert_eq!(r.count(), 4);
    assert_eq!(r.error_positions(), vec![1, 3]);
    assert_eq!(r.error_count(), 2);
    assert!(r.has_errors());
}

#[test]
fn merged_results_keep_both_runs() {
    let mut a = EngineResult::new();
    a.push(outcome("a", CopySeverity::Skipped, "exists"));
    let mut b = EngineResult::new();
    b.push(outcome("b", CopySeverity::Error, "denied"));
    a.merge(b);
    assert_eq!(a.count(), 2);
    assert_eq!(a.error_positions(), vec![1]);
    assert!(!EngineResult::new().has_errors());
}

//! Decisions of the copy engine: what to copy where, when to skip, how
//! large a buffer to use, how a chunked copy proceeds, how deleting the
//! source after a move is retried, and how per-file outcomes add up.

use crate::config::OverwriteMode;
use vstd::prelude::*;

verus! {

// ── What to copy ─────────────────────────────────────────────────────

/// What the source path turned out to be.
#[derive(Debug, Clone, Copy, PartialEq, Eq, Structural)]
pub enum SourceKind {
    Missing,
    File,
    Directory,
    /// Exists, but is neither a regular file nor a directory.
    Other,
}

/// Where the copies go, relative to the destination path.
#[derive(Debug, Clone, Copy, PartialEq, Eq, Structural)]
pub enum DestinationChoice {
    /// Inside the destination, under the source's own name.
    JoinSourceName,
    /// The destination path itself.
    AsGiven,
}

/// How to collect the files of a copy.
#[derive(Debug, Clone, Copy, PartialEq, Eq, Structural)]
pub enum CollectPlan {
    /// One file, copied to the chosen place.
    SingleFile(DestinationChoice),
    /// Every file below the source directory, at the same relative path
    /// below the chosen place.
    WalkDirectory(DestinationChoice),
    /// Nothing to copy.
    Nothing,
}

/// Why files could not be collected.
#[derive(Debug, Clone, Copy, PartialEq, Eq, Structural)]
pub enum CollectError {
    SourceMissing,
    DirectoryNeedsRecursive,
}

impl CollectError {
    pub fn message(&self) -> (r: &'static str)
        ensures
            *self == CollectError::SourceMissing ==> r@ == "Source does not exist"@,
            *self == CollectError::DirectoryNeedsRecursive ==> r@
                == "Source is a directory. Use --recursive to copy directories."@,
    {
        match self {
            CollectError::SourceMissing => "Source does not exist",
            CollectError::DirectoryNeedsRecursive => "Source is a directory. Use --recursive to copy directories.",
        }
    }
}

/// A file goes into an existing directory, or into a destination written
/// with a trailing separator; otherwise it becomes the destination. A
/// directory goes into an existing directory, otherwise it becomes the
/// destination; it needs the recursive flag.
pub open spec fn spec_plan_collect(source: SourceKind, dest_is_dir: bool, dest_ends_with_separator: bool, recursive: bool) -> Result<CollectPlan, CollectError> {
    match source {
        SourceKind::Missing => Err(CollectError::SourceMissing),
        SourceKind::File => Ok(CollectPlan::SingleFile(
            if dest_is_dir || dest_ends_with_separator { DestinationChoice::JoinSourceName } else { DestinationChoice::AsGiven },
        )),
        SourceKind::Directory => if !recursive {
            Err(CollectError::DirectoryNeedsRecursive)
        } else {
            Ok(CollectPlan::WalkDirectory(
                if dest_is_dir { DestinationChoice::JoinSourceName } else { DestinationChoice::AsGiven },
            ))
        },
        SourceKind::Other => Ok(CollectPlan::Nothing),
    }
}

/// Decides how to collect the files to copy from what the paths are.
pub fn plan_collect(source: SourceKind, dest_is_dir: bool, dest_ends_with_separator: bool, recursive: bool) -> (r: Result<CollectPlan, CollectError>)
    ensures
        r == spec_plan_collect(source, dest_is_dir, dest_ends_with_separator, recursive),
{
    match source {
        SourceKind::Missing => Err(CollectError::SourceMissing),
        SourceKind::File => {
            if dest_is_dir || dest_ends_with_separator {
                Ok(CollectPlan::SingleFile(DestinationChoice::JoinSourceName))
            } else {
                Ok(CollectPlan::SingleFile(DestinationChoice::AsGiven))
            }
        },
        SourceKind::Directory => {
            if !recursive {
                Err(CollectError::DirectoryNeedsRecursive)
            } else if dest_is_dir {
                Ok(CollectPlan::WalkDirectory(DestinationChoice::JoinSourceName))
            } else {
                Ok(CollectPlan::WalkDirectory(DestinationChoice::AsGiven))
            }
        },
        SourceKind::Other => Ok(CollectPlan::Nothing),
    }
}

/// What a collection plan promises, over every input:
/// - a missing source is refused as missing, whatever else holds;
/// - a file is never refused, and the recursive flag does not change
///   where it goes: into the destination exactly when the destination is
///   an existing directory or is written with a trailing separator, else
///   to the destination path itself;
/// - a directory is refused without the recursive flag; with it, every
///   file below it is walked, into the destination exactly when that is an
///   existing directory (a trailing separator alone does not count);
/// - anything else yields nothing to copy.
pub proof fn lemma_collect_plan(source: SourceKind, dest_is_dir: bool, dest_ends_with_separator: bool, recursive: bool)
    ensures
        source == SourceKind::Missing ==> spec_plan_collect(source, dest_is_dir, dest_ends_with_separator, recursive)
            == Err::<CollectPlan, CollectError>(CollectError::SourceMissing),
        source == SourceKind::File ==> spec_plan_collect(source, dest_is_dir, dest_ends_with_separator, recursive)
            == spec_plan_collect(source, dest_is_dir, dest_ends_with_separator, !recursive),
        source == SourceKind::File && (dest_is_dir || dest_ends_with_separator) ==>
            spec_plan_collect(source, dest_is_dir, dest_ends_with_separator, recursive)
                == Ok::<CollectPlan, CollectError>(CollectPlan::SingleFile(DestinationChoice::JoinSourceName)),
        source == SourceKind::File && !dest_is_dir && !dest_ends_with_separator ==>
            spec_plan_collect(source, dest_is_dir, dest_ends_with_separator, recursive)
                == Ok::<CollectPlan, CollectError>(CollectPlan::SingleFile(DestinationChoice::AsGiven)),
        source == SourceKind::Directory && !recursive ==>
            spec_plan_collect(source, dest_is_dir, dest_ends_with_separator, recursive)
                == Err::<CollectPlan, CollectError>(CollectError::DirectoryNeedsRecursive),
        source == SourceKind::Directory && recursive && dest_is_dir ==>
            spec_plan_collect(source, dest_is_dir, dest_ends_with_separator, recursive)
                == Ok::<CollectPlan, CollectError>(CollectPlan::WalkDirectory(DestinationChoice::JoinSourceName)),
        source == SourceKind::Directory && recursive && !dest_is_dir ==>
            spec_plan_collect(source, dest_is_dir, dest_ends_with_separator, recursive)
                == Ok::<CollectPlan, CollectError>(CollectPlan::WalkDirectory(DestinationChoice::AsGiven)),
        source == SourceKind::Other ==> spec_plan_collect(source, dest_is_dir, dest_ends_with_separator, recursive)
            == Ok::<CollectPlan, CollectError>(CollectPlan::Nothing),
{
}

// ── Per-file decisions ───────────────────────────────────────────────

/// An existing destination is left alone only in `Skip` mode; the other
/// modes copy over it.
pub fn skip_existing(mode: OverwriteMode, destination_exists: bool) -> (r: bool)
    ensures
        r == (destination_exists && mode == OverwriteMode::Skip),
{
    destination_exists && mode == OverwriteMode::Skip
}

pub open spec fn small_buffer() -> usize {
    65536
}

pub open spec fn large_buffer() -> usize {
    1048576
}

/// Adaptive buffer: 64 KiB for files under 1 MiB, 1 MiB otherwise.
pub fn buffer_size(file_size: u64) -> (r: usize)
    ensures
        file_size < 1048576 ==> r == small_buffer(),
        file_size >= 1048576 ==> r == large_buffer(),
{
    if file_size < 1048576 {
        65536
    } else {
        1048576
    }
}

/// What the copy loop does before reading the next chunk.
#[derive(Debug, Clone, Copy, PartialEq, Eq, Structural)]
pub enum Gate {
    /// Cancelled: the copy fails.
    Abort,
    /// Paused: wait and look again.
    Wait,
    /// Read the next chunk.
    Proceed,
}

/// Cancellation wins over pausing; otherwise a paused copy waits.
pub fn gate(cancelled: bool, paused: bool) -> (r: Gate)
    ensures
        cancelled ==> r == Gate::Abort,
        !cancelled && paused ==> r == Gate::Wait,
        !cancelled && !paused ==> r == Gate::Proceed,
{
    if cancelled {
        Gate::Abort
    } else if paused {
        Gate::Wait
    } else {
        Gate::Proceed
    }
}

/// Progress of one file's copy.
#[derive(Debug, Clone, Copy, PartialEq, Eq, Structural)]
pub struct ChunkProgress {
    /// Bytes written so far.
    pub copied: u64,
    /// Size of the source when the copy started.
    pub total: u64,
}

/// What a read brought.
#[derive(Debug, Clone, Copy, PartialEq, Eq, Structural)]
pub enum AfterRead {
    /// End of the source: the copy is complete.
    Finished,
    /// A chunk to write; the progress already counts it.
    Write(ChunkProgress),
}

impl ChunkProgress {
    pub fn start(total: u64) -> (r: Self)
        ensures
            r.copied == 0,
            r.total == total,
    {
        ChunkProgress { copied: 0, total }
    }

    /// Accounts for a read of `n` bytes; a read of nothing ends the copy.
    pub fn after_read(&self, n: u64) -> (r: AfterRead)
        requires
            self.copied + n <= u64::MAX,
        ensures
            n == 0 ==> r == AfterRead::Finished,
            n > 0 ==> r == AfterRead::Write(ChunkProgress { copied: (self.copied + n) as u64, total: self.total }),
    {
        if n == 0 {
            AfterRead::Finished
        } else {
            AfterRead::Write(ChunkProgress { copied: self.copied + n, total: self.total })
        }
    }

    /// The file counts as complete once all of a non-empty source is copied.
    pub fn is_complete(&self) -> (r: bool)
        ensures
            r == (self.copied >= self.total && self.total > 0),
    {
        self.copied >= self.total && self.total > 0
    }
}

// ── Retrying the delete of a moved file ──────────────────────────────

/// Exponential backoff with jitter, capped.
#[derive(Debug, Clone, Copy, PartialEq, Eq, Structural)]
pub struct RetryStrategy {
    pub initial_ms: u64,
    pub max_ms: u64,
    /// Number of attempts in all.
    pub max_retries: u32,
    /// Largest jitter, in thousandths of the delay.
    pub jitter_permille: u64,
}

/// The delay after failed attempt `attempt` (from 1): the initial delay
/// doubled for each earlier failure, never above the cap.
pub open spec fn spec_backoff(initial: nat, max: nat, attempt: nat) -> nat
    decreases attempt,
{
    if attempt <= 1 {
        if initial <= max { initial } else { max }
    } else {
        let prev = spec_backoff(initial, max, (attempt - 1) as nat);
        if prev * 2 <= max { prev * 2 } else { max }
    }
}

/// A delay moved by `offset` thousandths of itself, rounded toward the
/// delay, and held within the range of `u64`.
pub open spec fn spec_jitter(delay: nat, offset: int) -> nat {
    if offset >= 0 {
        let v = delay + (delay * offset) / 1000;
        if v > u64::MAX { u64::MAX as nat } else { v as nat }
    } else {
        (delay - (delay * (-offset)) / 1000) as nat
    }
}

/// What follows a failed delete.
#[derive(Debug, Clone, Copy, PartialEq, Eq, Structural)]
pub enum RetryDecision {
    RetryAfterMs(u64),
    GiveUp,
}

impl RetryStrategy {
    /// 100 ms at first, at most 5 s, three attempts, ±30 % jitter.
    pub fn default_strategy() -> (r: Self)
        ensures
            r.initial_ms == 100,
            r.max_ms == 5000,
            r.max_retries == 3,
            r.jitter_permille == 300,
    {
        RetryStrategy { initial_ms: 100, max_ms: 5000, max_retries: 3, jitter_permille: 300 }
    }

    /// The delay after failed attempt `attempt`, without jitter.
    pub fn delay_ms(&self, attempt: u32) -> (r: u64)
        ensures
            r == spec_backoff(self.initial_ms as nat, self.max_ms as nat, attempt as nat),
    {
        let mut d: u64 = if self.initial_ms <= self.max_ms { self.initial_ms } else { self.max_ms };
        let mut a: u32 = 1;
        while a < attempt
            invariant
                1 <= a,
                a <= attempt || attempt <= 1,
                attempt <= 1 ==> a == 1,
                d == spec_backoff(self.initial_ms as nat, self.max_ms as nat, a as nat),
                d <= self.max_ms,
            decreases attempt - a,
        {
            assert(((a + 1) - 1) as nat == a as nat);
            d = if d <= self.max_ms / 2 { d * 2 } else { self.max_ms };
            a += 1;
        }
        assert(attempt <= 1 ==> spec_backoff(self.initial_ms as nat, self.max_ms as nat, attempt as nat)
            == spec_backoff(self.initial_ms as nat, self.max_ms as nat, 1));
        d
    }

    /// Applies a jitter of `offset_permille` thousandths (within the
    /// strategy's bound) to a delay; parts of a millisecond are dropped.
    pub fn jittered_ms(&self, delay: u64, offset_permille: i64) -> (r: u64)
        requires
            -(self.jitter_permille as int) <= offset_permille <= self.jitter_permille as int,
            self.jitter_permille <= 1000,
        ensures
            r == spec_jitter(delay as nat, offset_permille as int),
    {
        if offset_permille >= 0 {
            let off = offset_permille as u128;
            assert((delay as u128) * off <= 18446744073709551615u128 * 1000) by (nonlinear_arith)
                requires off <= 1000, delay <= 18446744073709551615u64;
            let shift = (delay as u128) * off / 1000;
            assert((delay as u128) * off <= delay as int * 1000) by (nonlinear_arith)
                requires off <= 1000;
            let total = delay as u128 + shift;
            if total > u64::MAX as u128 {
                u64::MAX
            } else {
                total as u64
            }
        } else {
            let off = (-(offset_permille as i128)) as u128;
            assert((delay as u128) * off <= 18446744073709551615u128 * 1000) by (nonlinear_arith)
                requires off <= 1000, delay <= 18446744073709551615u64;
            let shift = (delay as u128) * off / 1000;
            assert((delay as u128) * off <= delay as int * 1000) by (nonlinear_arith)
                requires off <= 1000;
            assert(shift <= delay as int);
            (delay as u128 - shift) as u64
        }
    }

    /// After failed attempt `attempt` (from 1): retry after the backoff
    /// delay while attempts remain, otherwise give up.
    pub fn after_failure(&self, attempt: u32) -> (r: RetryDecision)
        ensures
            attempt < self.max_retries ==> r == RetryDecision::RetryAfterMs(
                spec_backoff(self.initial_ms as nat, self.max_ms as nat, attempt as nat) as u64),
            attempt >= self.max_retries ==> r == RetryDecision::GiveUp,
    {
        if attempt < self.max_retries {
            RetryDecision::RetryAfterMs(self.delay_ms(attempt))
        } else {
            RetryDecision::GiveUp
        }
    }
}

/// Every backoff delay stays within the cap.
pub proof fn lemma_backoff_capped(initial: nat, max: nat, attempt: nat)
    ensures
        spec_backoff(initial, max, attempt) <= max,
    decreases attempt,
{
    if attempt > 1 {
        lemma_backoff_capped(initial, max, (attempt - 1) as nat);
    }
}

/// Backoff delays never shrink from one attempt to the next.
pub proof fn lemma_backoff_monotone(initial: nat, max: nat, attempt: nat)
    ensures
        spec_backoff(initial, max, attempt) <= spec_backoff(initial, max, attempt + 1),
{
    lemma_backoff_capped(initial, max, attempt);
}

/// Below the cap, each delay doubles the one before.
pub proof fn lemma_backoff_doubles(initial: nat, max: nat, attempt: nat)
    requires
        attempt >= 1,
        spec_backoff(initial, max, attempt) * 2 <= max,
    ensures
        spec_backoff(initial, max, attempt + 1) == 2 * spec_backoff(initial, max, attempt),
{
}

/// A jitter of at most `bound` thousandths keeps a delay within that many
/// thousandths of itself (±30 % with the default strategy).
pub proof fn lemma_jitter_within_bound(delay: nat, offset: int, bound: nat)
    requires
        -(bound as int) <= offset <= bound as int,
        bound <= 1000,
        delay <= u64::MAX,
    ensures
        delay - (delay * bound) / 1000 <= spec_jitter(delay, offset) <= delay + (delay * bound) / 1000,
{
    if offset >= 0 {
        assert(delay * offset <= delay * bound) by (nonlinear_arith)
            requires 0 <= offset <= bound;
        assert((delay * offset) / 1000 <= (delay * bound) / 1000) by (nonlinear_arith)
            requires delay * offset <= delay * bound;
    } else {
        assert(delay * (-offset) <= delay * bound) by (nonlinear_arith)
            requires 0 <= -offset <= bound;
        assert((delay * (-offset)) / 1000 <= (delay * bound) / 1000) by (nonlinear_arith)
            requires delay * (-offset) <= delay * bound;
        assert((delay * (-offset)) / 1000 <= delay) by (nonlinear_arith)
            requires 0 <= -offset <= 1000;
    }
}

// ── Outcomes of a whole run ──────────────────────────────────────────

/// How bad a file's outcome was, from harmless to fatal.
#[derive(Debug, Clone, Copy, PartialEq, Eq, Structural)]
pub enum CopySeverity {
    Clean,
    Skipped,
    Warning,
    Error,
    Fatal,
}

pub open spec fn severity_rank(s: CopySeverity) -> nat {
    match s {
        CopySeverity::Clean => 0,
        CopySeverity::Skipped => 1,
        CopySeverity::Warning => 2,
        CopySeverity::Error => 3,
        CopySeverity::Fatal => 4,
    }
}

impl CopySeverity {
    /// Position in the order None < Skipped < Warning < Error < Fatal.
    pub fn rank(&self) -> (r: u8)
        ensures
            r == severity_rank(*self),
    {
        match self {
            CopySeverity::Clean => 0,
            CopySeverity::Skipped => 1,
            CopySeverity::Warning => 2,
            CopySeverity::Error => 3,
            CopySeverity::Fatal => 4,
        }
    }

    /// Errors and fatal errors count as failures.
    pub fn is_error(&self) -> (r: bool)
        ensures
            r == (severity_rank(*self) >= 3),
    {
        self.rank() >= 3
    }
}

/// The result of copying one file. The paths are kept as the text they
/// are shown by, which is all that reports read of them.
#[derive(Debug, Clone)]
pub struct CopyOutcome {
    pub src: String,
    pub dst: String,
    pub severity: CopySeverity,
    pub message: String,
    pub bytes: u64,
}

/// All per-file results of a run; the run goes on past failures.
#[derive(Debug, Clone)]
pub struct EngineResult {
    pub outcomes: Vec<CopyOutcome>,
}

pub open spec fn is_failure(o: CopyOutcome) -> bool {
    severity_rank(o.severity) >= 3
}

/// Positions of the failed outcomes, in order.
pub open spec fn failure_positions(s: Seq<CopyOutcome>) -> Seq<int>
    decreases s.len(),
{
    if s.len() == 0 {
        Seq::empty()
    } else {
        let prev = failure_positions(s.drop_last());
        if is_failure(s.last()) { prev.push(s.len() - 1) } else { prev }
    }
}

/// Each failure position names a failed outcome of the run.
pub proof fn lemma_failure_positions_bounds(s: Seq<CopyOutcome>)
    ensures
        forall|k: int| 0 <= k < failure_positions(s).len() ==>
            0 <= #[trigger] failure_positions(s)[k] < s.len() && is_failure(s[failure_positions(s)[k]]),
        failure_positions(s).len() <= s.len(),
    decreases s.len(),
{
    if s.len() > 0 {
        lemma_failure_positions_bounds(s.drop_last());
    }
}

/// Merging runs adds up their failures: the failed files of the merged run
/// are those of the first run followed by those of the second.
pub proof fn lemma_failures_of_merge(a: Seq<CopyOutcome>, b: Seq<CopyOutcome>)
    ensures
        failure_positions(a + b).len() == failure_positions(a).len() + failure_positions(b).len(),
    decreases b.len(),
{
    if b.len() == 0 {
        assert(a + b =~= a);
    } else {
        assert((a + b).drop_last() =~= a + b.drop_last());
        lemma_failures_of_merge(a, b.drop_last());
    }
}

impl EngineResult {
    pub fn new() -> (r: Self)
        ensures
            r.outcomes@.len() == 0,
    {
        EngineResult { outcomes: Vec::new() }
    }

    /// Records one more file.
    pub fn push(&mut self, outcome: CopyOutcome)
        ensures
            final(self).outcomes@ == old(self).outcomes@.push(outcome),
    {
        self.outcomes.push(outcome);
    }

    /// Appends the outcomes of another run after these.
    pub fn merge(&mut self, other: EngineResult)
        ensures
            final(self).outcomes@ == old(self).outcomes@ + other.outcomes@,
    {
        let mut other = other;
        self.outcomes.append(&mut other.outcomes);
    }

    /// Number of files in the run.
    pub fn count(&self) -> (r: usize)
        ensures
            r == self.outcomes@.len(),
    {
        self.outcomes.len()
    }

    /// Positions of the failed files, in order.
    pub fn error_positions(&self) -> (r: Vec<usize>)
        ensures
            r@.len() == failure_positions(self.outcomes@).len(),
            forall|k: int| 0 <= k < r@.len() ==> r@[k] as int == #[trigger] failure_positions(self.outcomes@)[k],
    {
        let mut r: Vec<usize> = Vec::new();
        let n = self.outcomes.len();
        let mut i: usize = 0;
        while i < n
            invariant
                n == self.outcomes@.len(),
                i <= n,
                r@.len() == failure_positions(self.outcomes@.take(i as int)).len(),
                forall|k: int| 0 <= k < r@.len() ==> r@[k] as int == #[trigger] failure_positions(self.outcomes@.take(i as int))[k],
            decreases n - i,
        {
            assert(self.outcomes@.take(i + 1).drop_last() =~= self.outcomes@.take(i as int));
            if self.outcomes[i].severity.is_error() {
                r.push(i);
            }
            i += 1;
        }
        assert(self.outcomes@.take(n as int) =~= self.outcomes@);
        r
    }

    /// Number of failed files.
    pub fn error_count(&self) -> (r: usize)
        ensures
            r == failure_positions(self.outcomes@).len(),
    {
        proof { lemma_failure_positions_bounds(self.outcomes@); }
        self.error_positions().len()
    }

    /// Whether some file failed.
    pub fn has_errors(&self) -> (r: bool)
        ensures
            r == (failure_positions(self.outcomes@).len() > 0),
    {
        self.error_count() > 0
    }
}

} // verus!

//! A Scan → Copy → Verify → Report pipeline: systems are grouped by stage
//! and run stage after stage, each stage's systems in the order they were
//! added, stopping at the first failure.

use std::path::PathBuf;
use vstd::prelude::*;

verus! {

/// A pipeline stage.
#[derive(Debug, Clone, Copy, PartialEq, Eq, Hash, Structural)]
pub enum Stage {
    Scan,
    Copy,
    Verify,
    Report,
}

/// The stages in execution order.
pub open spec fn stage_order() -> Seq<Stage> {
    seq![Stage::Scan, Stage::Copy, Stage::Verify, Stage::Report]
}

impl Stage {
    /// Returns the stages in execution order.
    pub fn ordered() -> (r: Vec<Stage>)
        ensures
            r@ == stage_order(),
    {
        let r = vec![Stage::Scan, Stage::Copy, Stage::Verify, Stage::Report];
        assert(r@ =~= stage_order());
        r
    }
}

/// Pipeline state shared between stages.
#[derive(Debug, Clone)]
pub struct PipelineState {
    pub source: Option<PathBuf>,
    pub destination: Option<PathBuf>,
    pub files: Vec<(PathBuf, PathBuf)>,
    pub total_bytes: u64,
    pub bytes_copied: u64,
    pub verified: bool,
    pub errors: u64,
}

impl Default for PipelineState {
    fn default() -> (r: Self)
        ensures
            r.source is None,
            r.destination is None,
            r.files@.len() == 0,
            r.total_bytes == 0,
            r.bytes_copied == 0,
            !r.verified,
            r.errors == 0,
    {
        PipelineState {
            source: None,
            destination: None,
            files: Vec::new(),
            total_bytes: 0,
            bytes_copied: 0,
            verified: false,
            errors: 0,
        }
    }
}

/// The sum of the sizes that could be read.
pub open spec fn known_total(sizes: Seq<Option<u64>>) -> int
    decreases sizes.len(),
{
    if sizes.len() == 0 {
        0
    } else {
        known_total(sizes.drop_last()) + match sizes.last() {
            Some(n) => n as int,
            None => 0int,
        }
    }
}

/// How many destinations were not found.
pub open spec fn missing_count(present: Seq<bool>) -> int
    decreases present.len(),
{
    if present.len() == 0 {
        0
    } else {
        missing_count(present.drop_last()) + if present.last() { 0int } else { 1int }
    }
}

proof fn lemma_known_total_grows(sizes: Seq<Option<u64>>, i: int)
    requires
        0 <= i <= sizes.len(),
    ensures
        known_total(sizes.take(i)) <= known_total(sizes),
    decreases sizes.len() - i,
{
    if i < sizes.len() {
        lemma_known_total_grows(sizes, i + 1);
        assert(sizes.take(i + 1).drop_last() =~= sizes.take(i));
    } else {
        assert(sizes.take(i) =~= sizes);
    }
}

proof fn lemma_missing_count_grows(present: Seq<bool>, i: int)
    requires
        0 <= i <= present.len(),
    ensures
        missing_count(present.take(i)) <= missing_count(present),
    decreases present.len() - i,
{
    if i < present.len() {
        lemma_missing_count_grows(present, i + 1);
        assert(present.take(i + 1).drop_last() =~= present.take(i));
    } else {
        assert(present.take(i) =~= present);
    }
}

impl PipelineState {
    /// Records what a scan found: the files to copy, and as total the sum
    /// of the source sizes that could be read.
    pub fn record_scan(&mut self, files: Vec<(PathBuf, PathBuf)>, sizes: &Vec<Option<u64>>)
        requires
            known_total(sizes@) <= u64::MAX,
        ensures
            final(self).files@ == files@,
            final(self).total_bytes == known_total(sizes@),
            final(self).source == old(self).source,
            final(self).destination == old(self).destination,
            final(self).bytes_copied == old(self).bytes_copied,
            final(self).verified == old(self).verified,
            final(self).errors == old(self).errors,
    {
        let mut total: u64 = 0;
        let mut i: usize = 0;
        while i < sizes.len()
            invariant
                i <= sizes@.len(),
                total == known_total(sizes@.take(i as int)),
                known_total(sizes@) <= u64::MAX,
            decreases sizes@.len() - i,
        {
            proof {
                assert(sizes@.take(i + 1).drop_last() =~= sizes@.take(i as int));
                lemma_known_total_grows(sizes@, i + 1);
            }
            match sizes[i] {
                Some(n) => {
                    total = total + n;
                },
                None => {},
            }
            i += 1;
        }
        proof {
            assert(sizes@.take(i as int) =~= sizes@);
        }
        self.total_bytes = total;
        self.files = files;
    }

    /// Hands the files over to the copy stage, leaving none behind; fails
    /// when there is nothing to copy.
    pub fn take_files(&mut self) -> (r: Result<Vec<(PathBuf, PathBuf)>, String>)
        ensures
            final(self).files@.len() == 0,
            r matches Ok(files) ==> files@ == old(self).files@ && files@.len() > 0,
            r is Err <==> old(self).files@.len() == 0,
            r matches Err(e) ==> e@ == "No files to copy"@,
            final(self).source == old(self).source,
            final(self).destination == old(self).destination,
            final(self).total_bytes == old(self).total_bytes,
            final(self).bytes_copied == old(self).bytes_copied,
            final(self).verified == old(self).verified,
            final(self).errors == old(self).errors,
    {
        let mut files: Vec<(PathBuf, PathBuf)> = Vec::new();
        std::mem::swap(&mut files, &mut self.files);
        if files.len() == 0 {
            return Err("No files to copy".to_string());
        }
        Ok(files)
    }

    /// Records a verification: each file whose destination is missing
    /// counts as an error, and the state is verified when no error was
    /// counted at all.
    pub fn record_verification(&mut self, present: &Vec<bool>)
        requires
            old(self).errors + missing_count(present@) <= u64::MAX,
        ensures
            final(self).errors == old(self).errors + missing_count(present@),
            final(self).verified == (final(self).errors == 0),
            final(self).files@ == old(self).files@,
            final(self).source == old(self).source,
            final(self).destination == old(self).destination,
            final(self).total_bytes == old(self).total_bytes,
            final(self).bytes_copied == old(self).bytes_copied,
    {
        let mut i: usize = 0;
        while i < present.len()
            invariant
                i <= present@.len(),
                self.errors == old(self).errors + missing_count(present@.take(i as int)),
                old(self).errors + missing_count(present@) <= u64::MAX,
                self.files@ == old(self).files@,
                self.source == old(self).source,
                self.destination == old(self).destination,
                self.total_bytes == old(self).total_bytes,
                self.bytes_copied == old(self).bytes_copied,
            decreases present@.len() - i,
        {
            proof {
                assert(present@.take(i + 1).drop_last() =~= present@.take(i as int));
                lemma_missing_count_grows(present@, i + 1);
            }
            if !present[i] {
                self.errors = self.errors + 1;
            }
            i += 1;
        }
        proof {
            assert(present@.take(i as int) =~= present@);
        }
        self.verified = self.errors == 0;
    }
}

/// A system mutates the pipeline state.
pub trait System: Send {
    fn name(&self) -> &str;

    /// What running this system on a state returns, and the state it
    /// leaves. A system states it by overriding this; one that does not
    /// behaves in a way that nothing is known of.
    closed spec fn spec_run(&self, state: PipelineState) -> (Result<(), String>, PipelineState) {
        arbitrary()
    }

    fn run(&self, state: &mut PipelineState) -> (r: Result<(), String>)
        ensures
            (r, *final(state)) == self.spec_run(*old(state)),
    ;
}

/// One system, seen as what it does to a state.
pub type Step = spec_fn(PipelineState) -> (Result<(), String>, PipelineState);

/// The systems of `systems` that belong to `stage`, in order.
pub open spec fn in_stage(systems: Seq<(Stage, Step)>, stage: Stage) -> Seq<Step>
    decreases systems.len(),
{
    if systems.len() == 0 {
        Seq::empty()
    } else {
        let rest = in_stage(systems.drop_last(), stage);
        if systems.last().0 == stage {
            rest.push(systems.last().1)
        } else {
            rest
        }
    }
}

/// The systems of the stages before position `k` of the stage order.
pub open spec fn stages_before(systems: Seq<(Stage, Step)>, k: int) -> Seq<Step>
    decreases k,
{
    if k <= 0 {
        Seq::empty()
    } else {
        stages_before(systems, k - 1) + in_stage(systems, stage_order()[k - 1])
    }
}

/// The order in which a schedule runs its systems: by stage, and within a
/// stage by the order of addition.
pub open spec fn execution_order(systems: Seq<(Stage, Step)>) -> Seq<Step> {
    stages_before(systems, 4)
}

/// Running steps one after another until one fails: the first failure and
/// the state it left, or `Ok` and the final state.
pub open spec fn run_steps(steps: Seq<Step>, state: PipelineState) -> (Result<(), String>, PipelineState)
    decreases steps.len(),
{
    if steps.len() == 0 {
        (Ok(()), state)
    } else {
        let prev = run_steps(steps.drop_last(), state);
        if prev.0 is Err {
            prev
        } else {
            (steps.last())(prev.1)
        }
    }
}

struct Scheduled {
    stage: Stage,
    system: Box<dyn System>,
}

spec fn entry_view(e: Scheduled) -> (Stage, Step) {
    (e.stage, |s: PipelineState| e.system.spec_run(s))
}

/// `Box::new` (std), boxing the system as a trait object: the system is
/// moved to the heap unchanged, so the entry runs as the system does.
/// Verus relates a boxed trait object to the value in it only where the
/// value's type is known, not for a type parameter, hence this statement.
#[verifier::external_body]
fn scheduled<S: System + 'static>(stage: Stage, system: S) -> (r: Scheduled)
    ensures
        r.stage == stage,
        forall|state: PipelineState| #[trigger] (entry_view(r).1)(state) == system.spec_run(state),
{
    Scheduled { stage, system: Box::new(system) }
}

/// The schedule runs systems grouped by stage.
pub struct Schedule {
    systems: Vec<Scheduled>,
}

impl View for Schedule {
    type V = Seq<(Stage, Step)>;

    /// Each system with its stage, in the order of addition.
    closed spec fn view(&self) -> Seq<(Stage, Step)> {
        self.systems@.map_values(|e: Scheduled| entry_view(e))
    }
}

/// A success carries the unit value.
pub proof fn lemma_unit_ok(r: Result<(), String>)
    requires
        r is Ok,
    ensures
        r == Ok::<(), String>(()),
{
    let u = r->Ok_0;
    assert(u == ());
}

/// A failure in a prefix decides the outcome of the whole sequence.
pub proof fn lemma_failure_is_final(a: Seq<Step>, b: Seq<Step>, state: PipelineState)
    requires
        run_steps(a, state).0 is Err,
    ensures
        run_steps(a + b, state) == run_steps(a, state),
    decreases b.len(),
{
    if b.len() == 0 {
        assert(a + b =~= a);
    } else {
        assert((a + b).drop_last() =~= a + b.drop_last());
        lemma_failure_is_final(a, b.drop_last(), state);
    }
}

/// Splitting the list of systems splits each stage's systems the same way.
pub proof fn lemma_in_stage_append(a: Seq<(Stage, Step)>, b: Seq<(Stage, Step)>, stage: Stage)
    ensures
        in_stage(a + b, stage) == in_stage(a, stage) + in_stage(b, stage),
    decreases b.len(),
{
    if b.len() == 0 {
        assert(a + b =~= a);
        assert(in_stage(a, stage) + in_stage(b, stage) =~= in_stage(a, stage));
    } else {
        assert((a + b).drop_last() =~= a + b.drop_last());
        lemma_in_stage_append(a, b.drop_last(), stage);
        if b.last().0 == stage {
            assert(in_stage(a, stage) + in_stage(b.drop_last(), stage).push(b.last().1)
                =~= (in_stage(a, stage) + in_stage(b.drop_last(), stage)).push(b.last().1));
        }
    }
}

proof fn lemma_stages_before_prefix(systems: Seq<(Stage, Step)>, k: int)
    requires
        0 <= k <= 4,
    ensures
        exists|rest: Seq<Step>| #[trigger] (stages_before(systems, k) + rest) == execution_order(systems),
    decreases 4 - k,
{
    if k == 4 {
        assert(stages_before(systems, 4) + Seq::<Step>::empty() =~= execution_order(systems));
    } else {
        lemma_stages_before_prefix(systems, k + 1);
        let rest = choose|rest: Seq<Step>| #[trigger] (stages_before(systems, k + 1) + rest) == execution_order(systems);
        let r2 = in_stage(systems, stage_order()[k]) + rest;
        assert(stages_before(systems, k) + r2 =~= stages_before(systems, k + 1) + rest);
    }
}

impl Schedule {
    pub fn new() -> (r: Self)
        ensures
            r@ == Seq::<(Stage, Step)>::empty(),
    {
        let r = Schedule { systems: Vec::new() };
        assert(r@ =~= Seq::<(Stage, Step)>::empty());
        r
    }

    /// Adds a system to a stage, after the systems already added.
    pub fn add_system<S: System + 'static>(&mut self, stage: Stage, system: S)
        ensures
            final(self)@ == old(self)@.push((stage, |state: PipelineState| system.spec_run(state))),
    {
        let e = scheduled(stage, system);
        assert(entry_view(e).1 =~= (|state: PipelineState| system.spec_run(state)));
        assert(entry_view(e) == (stage, |state: PipelineState| system.spec_run(state)));
        self.systems.push(e);
        assert(self@ =~= old(self)@.push((stage, |state: PipelineState| system.spec_run(state))));
    }

    /// Runs all systems in stage order; returns the first error, leaving
    /// the state as the failing system left it.
    pub fn run(&self, state: &mut PipelineState) -> (r: Result<(), String>)
        ensures
            (r, *final(state)) == run_steps(execution_order(self@), *old(state)),
    {
        let stages = Stage::ordered();
        let ghost start = *state;
        let ghost all = self@;
        let n = self.systems.len();
        let mut si: usize = 0;
        while si < stages.len()
            invariant
                stages@ == stage_order(),
                si <= 4,
                n == all.len(),
                all == self@,
                start == *old(state),
                run_steps(stages_before(all, si as int), start) == (Ok::<(), String>(()), *state),
            decreases 4 - si,
        {
            let stage = stages[si];
            let ghost before = stages_before(all, si as int);
            let mut j: usize = 0;
            assert(all.take(0) =~= Seq::<(Stage, Step)>::empty());
            assert(before + in_stage(all.take(0), stage) =~= before);
            while j < n
                invariant
                    stages@ == stage_order(),
                    si < 4,
                    stage == stage_order()[si as int],
                    n == all.len(),
                    all == self@,
                    start == *old(state),
                    j <= n,
                    before == stages_before(all, si as int),
                    run_steps(before + in_stage(all.take(j as int), stage), start)
                        == (Ok::<(), String>(()), *state),
                decreases n - j,
            {
                let ghost done = before + in_stage(all.take(j as int), stage);
                assert(all.take(j + 1).drop_last() =~= all.take(j as int));
                assert(all[j as int] == entry_view(self.systems@[j as int]));
                assert(all.take(j + 1).last() == all[j as int]);
                if self.systems[j].stage != stage {
                    assert(in_stage(all.take(j + 1), stage) == in_stage(all.take(j as int), stage));
                }
                if self.systems[j].stage == stage {
                    let ghost pre = *state;
                    let r = self.systems[j].system.run(state);
                    proof {
                        let step = all[j as int].1;
                        assert(in_stage(all.take(j + 1), stage) == in_stage(all.take(j as int), stage).push(step));
                        assert(done.push(step) =~= before + in_stage(all.take(j + 1), stage));
                        assert(done.push(step).drop_last() =~= done);
                        assert((r, *state) == step(pre));
                        assert(run_steps(done.push(step), start) == step(run_steps(done, start).1));
                        assert(run_steps(before + in_stage(all.take(j + 1), stage), start) == (r, *state));
                    }
                    if r.is_err() {
                        proof {
                            let done2 = before + in_stage(all.take(j + 1), stage);
                            let full = execution_order(all);
                            lemma_in_stage_append(all.take(j + 1), all.skip(j + 1), stage);
                            assert(all.take(j + 1) + all.skip(j + 1) =~= all);
                            lemma_stages_before_prefix(all, si + 1);
                            let rest = choose|rest: Seq<Step>| #[trigger] (stages_before(all, si + 1) + rest) == full;
                            let tail = in_stage(all.skip(j + 1), stage) + rest;
                            assert(done2 + tail =~= stages_before(all, si + 1) + rest);
                            lemma_failure_is_final(done2, tail, start);
                        }
                        return r;
                    }
                    proof { lemma_unit_ok(r); }
                } else {
                    assert(run_steps(before + in_stage(all.take(j + 1), stage), start)
                        == (Ok::<(), String>(()), *state));
                }
                j += 1;
            }
            assert(all.take(n as int) =~= all);
            si += 1;
        }
        Ok(())
    }
}

/// Report system: reports the final statistics; the state is left as it is.
pub struct ReportSystem;

impl System for ReportSystem {
    fn name(&self) -> (r: &str)
        ensures
            r@ == "report"@,
    {
        "report"
    }

    open spec fn spec_run(&self, state: PipelineState) -> (Result<(), String>, PipelineState) {
        (Ok(()), state)
    }

    fn run(&self, state: &mut PipelineState) -> (r: Result<(), String>) {
        Ok(())
    }
}

proof fn lemma_stage_sizes(systems: Seq<(Stage, Step)>)
    ensures
        in_stage(systems, Stage::Scan).len() + in_stage(systems, Stage::Copy).len()
            + in_stage(systems, Stage::Verify).len() + in_stage(systems, Stage::Report).len()
            == systems.len(),
    decreases systems.len(),
{
    if systems.len() > 0 {
        lemma_stage_sizes(systems.drop_last());
    }
}

/// Every system added to a schedule runs exactly once: the execution order
/// holds as many steps as the schedule holds systems.
pub proof fn lemma_each_system_once(systems: Seq<(Stage, Step)>)
    ensures
        execution_order(systems).len() == systems.len(),
{
    lemma_stage_sizes(systems);
    reveal_with_fuel(stages_before, 5);
}

/// An empty schedule succeeds and leaves the state as it was.
pub proof fn lemma_empty_schedule(state: PipelineState)
    ensures
        run_steps(execution_order(Seq::<(Stage, Step)>::empty()), state) == (Ok::<(), String>(()), state),
{
    let e = Seq::<(Stage, Step)>::empty();
    assert(execution_order(e) =~= Seq::<Step>::empty()) by {
        reveal_with_fuel(stages_before, 5);
    }
}

} // verus!

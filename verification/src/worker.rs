//! What the copy worker reports to the window at each step of a copy:
//! when the scan starts, what the scan found, and how the run ended.
//! Walking the folders and running the engine stay with the worker thread.

use crate::engine::{failure_positions, lemma_failure_positions_bounds, CopyOutcome, EngineResult};
use crate::hash::{spec_decimal, to_decimal};
use crate::session::ProgressReport;
use vstd::prelude::*;

verus! {

/// A report that only carries log lines.
pub open spec fn is_log_only(r: ProgressReport) -> bool {
    &&& r.file@.len() == 0
    &&& r.bytes_copied == 0
    &&& r.total_bytes == 0
}

fn log_report(is_done: bool, error: String, log: Vec<String>) -> (r: ProgressReport)
    ensures
        is_log_only(r),
        r.is_done == is_done,
        r.error@ == error@,
        r.log@ == log@,
{
    ProgressReport { file: String::new(), bytes_copied: 0, total_bytes: 0, is_done, error, log }
}

/// `prefix` followed by `rest`.
fn joined(prefix: &str, rest: &str) -> (s: String)
    ensures
        s@ == prefix@ + rest@,
{
    let mut s = prefix.to_string();
    s.append(rest);
    s
}

/// The report that opens a scan of `source`.
pub fn scan_report(source: &str) -> (r: ProgressReport)
    ensures
        is_log_only(r),
        !r.is_done,
        r.error@.len() == 0,
        r.log@.len() == 1,
        r.log@[0]@ == "Scanning: "@ + source@,
{
    let line = joined("Scanning: ", source);
    log_report(false, String::new(), vec![line])
}

/// The report on what a scan found: its error ends the copy, so does an
/// empty list; otherwise the count of files found is logged and the copy
/// goes on.
pub fn collect_report(found: &Result<usize, String>) -> (r: ProgressReport)
    ensures
        is_log_only(r),
        r.log@.len() == 1,
        r.is_done == !(found matches Ok(n) && n > 0),
        found matches Err(e) ==> r.error@ == e@ && r.log@[0]@ == "Error: "@ + e@,
        found matches Ok(n) ==> (n == 0 ==> r.error@ == "No files to copy"@ && r.log@[0]@ == "No files to copy"@),
        found matches Ok(n) ==> (n > 0 ==> r.error@.len() == 0
            && r.log@[0]@ == "Found "@ + spec_decimal(n as nat) + " file(s)."@),
{
    match found {
        Err(e) => {
            let line = joined("Error: ", e.as_str());
            log_report(true, e.clone(), vec![line])
        },
        Ok(n) => {
            if *n == 0 {
                log_report(true, "No files to copy".to_string(), vec!["No files to copy".to_string()])
            } else {
                let count = to_decimal(*n as u128);
                let mut line = joined("Found ", count.as_str());
                line.append(" file(s).");
                log_report(false, String::new(), vec![line])
            }
        },
    }
}

/// The line logged for a failed file: its path, then its message.
pub open spec fn is_failure_line(line: Seq<char>, o: CopyOutcome) -> bool {
    line == "  ✗ "@ + o.src@ + ": "@ + o.message@
}

/// The report that ends a run. With failures, the error names their count
/// and the first one's message, and the log lists each failed file after a
/// count line; otherwise the log says how many files were copied.
pub fn final_report(result: &EngineResult) -> (r: ProgressReport)
    ensures
        is_log_only(r),
        r.is_done,
        ({
            let fails = failure_positions(result.outcomes@);
            if fails.len() == 0 {
                &&& r.error@.len() == 0
                &&& r.log@.len() == 1
                &&& r.log@[0]@ == "✓ Copy complete: "@ + spec_decimal(result.outcomes@.len()) + " file(s) OK"@
            } else {
                &&& r.error@ == spec_decimal(fails.len()) + " error(s): "@ + result.outcomes@[fails[0]].message@
                &&& r.log@.len() == fails.len() + 1
                &&& r.log@[0]@ == "✗ "@ + spec_decimal(fails.len()) + " file(s) had errors"@
                &&& forall|k: int| 0 <= k < fails.len() ==>
                    is_failure_line(#[trigger] r.log@[k + 1]@, result.outcomes@[fails[k]])
            }
        }),
{
    let positions = result.error_positions();
    let n_err = positions.len();
    if n_err == 0 {
        let count = to_decimal(result.outcomes.len() as u128);
        let mut line = joined("✓ Copy complete: ", count.as_str());
        line.append(" file(s) OK");
        return log_report(true, String::new(), vec![line]);
    }
    let count = to_decimal(n_err as u128);
    proof {
        lemma_failure_positions_bounds(result.outcomes@);
        assert(positions@[0] as int == failure_positions(result.outcomes@)[0]);
    }
    let first = &result.outcomes[positions[0]].message;
    let mut error = joined(count.as_str(), " error(s): ");
    error.append(first.as_str());
    let mut head = joined("✗ ", count.as_str());
    head.append(" file(s) had errors");
    let mut log: Vec<String> = vec![head];
    let mut k: usize = 0;
    while k < n_err
        invariant
            n_err == positions@.len(),
            positions@.len() == failure_positions(result.outcomes@).len(),
            forall|q: int| 0 <= q < positions@.len() ==>
                positions@[q] as int == #[trigger] failure_positions(result.outcomes@)[q],
            forall|q: int| 0 <= q < positions@.len() ==>
                0 <= #[trigger] failure_positions(result.outcomes@)[q] < result.outcomes@.len(),
            k <= n_err,
            log@.len() == k + 1,
            log@[0]@ == "✗ "@ + spec_decimal(n_err as nat) + " file(s) had errors"@,
            forall|q: int| 0 <= q < k ==>
                is_failure_line(#[trigger] log@[q + 1]@, result.outcomes@[failure_positions(result.outcomes@)[q]]),
        decreases n_err - k,
    {
        assert(positions@[k as int] as int == failure_positions(result.outcomes@)[k as int]);
        let o = &result.outcomes[positions[k]];
        let mut line = joined("  ✗ ", o.src.as_str());
        line.append(": ");
        line.append(o.message.as_str());
        let ghost before = log@;
        log.push(line);
        proof {
            assert(log@[k + 1]@ == "  ✗ "@ + o.src@ + ": "@ + o.message@);
            assert(is_failure_line(log@[k + 1]@, *o));
            assert forall|q: int| 0 <= q < k + 1 implies
                is_failure_line(#[trigger] log@[q + 1]@, result.outcomes@[failure_positions(result.outcomes@)[q]]) by {
                if q < k {
                    assert(log@[q + 1] == before[q + 1]);
                }
            }
        }
        k += 1;
    }
    log_report(true, error, log)
}

} // verus!

//! Counting completed files from a stream of progress reports: a file
//! counts once, when a report shows all of its non-empty contents copied.

use crate::text::str_equal;
use vstd::prelude::*;

verus! {

/// The files seen complete so far, in the order they completed.
pub struct CompletionTracker {
    completed: Vec<String>,
}

pub open spec fn distinct(s: Seq<Seq<char>>) -> bool {
    forall|i: int, j: int| 0 <= i < j < s.len() ==> s[i] != s[j]
}

/// Whether a report completes a file not counted yet.
pub open spec fn newly_complete(done: Seq<Seq<char>>, file: Seq<char>, copied: u64, total: u64) -> bool {
    copied >= total && total > 0 && !done.contains(file)
}

impl View for CompletionTracker {
    type V = Seq<Seq<char>>;

    closed spec fn view(&self) -> Seq<Seq<char>> {
        self.completed@.map_values(|s: String| s@)
    }
}

impl CompletionTracker {
    pub fn new() -> (r: Self)
        ensures
            r@ == Seq::<Seq<char>>::empty(),
    {
        let r = CompletionTracker { completed: Vec::new() };
        assert(r@ =~= Seq::<Seq<char>>::empty());
        r
    }

    /// Takes a progress report; returns whether it completes a file that
    /// was not complete before, which is then remembered.
    pub fn record(&mut self, file: &str, bytes_copied: u64, total_bytes: u64) -> (r: bool)
        ensures
            r == newly_complete(old(self)@, file@, bytes_copied, total_bytes),
            r ==> final(self)@ == old(self)@.push(file@),
            !r ==> final(self)@ == old(self)@,
    {
        if !(bytes_copied >= total_bytes && total_bytes > 0) {
            return false;
        }
        let n = self.completed.len();
        let mut i: usize = 0;
        while i < n
            invariant
                n == self@.len(),
                i <= n,
                forall|j: int| 0 <= j < i ==> self@[j] != file@,
            decreases n - i,
        {
            if str_equal(self.completed[i].as_str(), file) {
                assert(self@[i as int] == file@);
                return false;
            }
            i += 1;
        }
        let ghost before = self@;
        self.completed.push(file.to_owned());
        assert(self@ =~= before.push(file@));
        true
    }

    /// Number of files completed so far.
    pub fn count(&self) -> (r: usize)
        ensures
            r == self@.len(),
    {
        self.completed.len()
    }
}

/// Recording keeps the completed files free of repeats: each file is
/// counted at most once.
pub proof fn lemma_record_keeps_distinct(done: Seq<Seq<char>>, file: Seq<char>, copied: u64, total: u64)
    requires
        distinct(done),
    ensures
        distinct(if newly_complete(done, file, copied, total) { done.push(file) } else { done }),
{
    if newly_complete(done, file, copied, total) {
        let d2 = done.push(file);
        assert forall|i: int, j: int| 0 <= i < j < d2.len() implies d2[i] != d2[j] by {
            if j == done.len() {
                assert(done.contains(d2[i]) ==> d2[i] != file);
                assert(done[i] == d2[i]);
            }
        }
    }
}

} // verus!

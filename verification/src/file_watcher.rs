//! File system changes reported by the directory watcher, and how a raw
//! notification becomes one.

use std::path::PathBuf;
use vstd::prelude::*;

verus! {

/// A debounced file system change event.
#[derive(Debug, Clone)]
pub enum FileChange {
    Created(PathBuf),
    Modified(PathBuf),
    Removed(PathBuf),
    Renamed(PathBuf, PathBuf),
    Any(PathBuf),
}

/// The kind of a raw notification, as far as it matters here.
#[derive(Debug, Clone, Copy, PartialEq, Eq, Structural)]
pub enum ChangeKind {
    Create,
    /// A modification that renames.
    Rename,
    /// Any other modification.
    Modify,
    Remove,
    Other,
}

/// `PathBuf::new` (std): the empty path.
#[verifier::external_body]
fn empty_path() -> PathBuf {
    PathBuf::new()
}

/// The change a notification stands for; `None` when it names no path.
/// A rename pairs the first path with the second (empty when missing).
pub open spec fn spec_classify(kind: ChangeKind, paths: Seq<PathBuf>, empty: PathBuf) -> Option<FileChange> {
    if paths.len() == 0 {
        None
    } else {
        let first = paths[0];
        Some(match kind {
            ChangeKind::Create => FileChange::Created(first),
            ChangeKind::Rename => FileChange::Renamed(first, if paths.len() > 1 { paths[1] } else { empty }),
            ChangeKind::Modify => FileChange::Modified(first),
            ChangeKind::Remove => FileChange::Removed(first),
            ChangeKind::Other => FileChange::Any(first),
        })
    }
}

/// Turns a raw notification into a change; `fallback` stands for a
/// missing second path of a rename.
pub fn classify(kind: ChangeKind, paths: Vec<PathBuf>, fallback: PathBuf) -> (r: Option<FileChange>)
    ensures
        r == spec_classify(kind, paths@, fallback),
{
    let mut paths = paths;
    if paths.len() == 0 {
        return None;
    }
    let second = if paths.len() > 1 {
        paths.remove(1)
    } else {
        fallback
    };
    let first = paths.remove(0);
    Some(match kind {
        ChangeKind::Create => FileChange::Created(first),
        ChangeKind::Rename => FileChange::Renamed(first, second),
        ChangeKind::Modify => FileChange::Modified(first),
        ChangeKind::Remove => FileChange::Removed(first),
        ChangeKind::Other => FileChange::Any(first),
    })
}

/// The changes of a batch of notifications, in order, without those that
/// name no path.
pub open spec fn classify_all(events: Seq<(ChangeKind, Vec<PathBuf>)>, empty: PathBuf) -> Seq<FileChange>
    decreases events.len(),
{
    if events.len() == 0 {
        Seq::empty()
    } else {
        let rest = classify_all(events.drop_first(), empty);
        match spec_classify(events[0].0, events[0].1@, empty) {
            Some(c) => seq![c] + rest,
            None => rest,
        }
    }
}

/// Turns a batch of notifications into changes, dropping those without a
/// path and keeping the order of the rest. A rename without a second path
/// pairs with the empty path.
pub fn classify_batch(events: Vec<(ChangeKind, Vec<PathBuf>)>) -> (r: Vec<FileChange>)
    ensures
        exists|empty: PathBuf| r@ == classify_all(events@, empty),
{
    let empty = empty_path();
    let mut out: Vec<FileChange> = Vec::new();
    let mut events = events;
    let ghost all = events@;
    let n = events.len();
    assert(all.skip(n as int) =~= Seq::<(ChangeKind, Vec<PathBuf>)>::empty());
    while events.len() > 0
        invariant
            all.len() == n,
            events@.len() <= n,
            events@ == all.take(events@.len() as int),
            out@ == classify_all(all.skip(events@.len() as int), empty),
        decreases events@.len(),
    {
        let ghost before = events@;
        let (kind, paths) = events.pop().unwrap();
        let ghost k = events@.len() as int;
        assert(all.skip(k).drop_first() =~= all.skip(k + 1));
        assert(all.skip(k)[0] == all[k]);
        assert(all.take(k) =~= before.drop_last());
        let fallback = empty.clone();
        match classify(kind, paths, fallback) {
            Some(c) => {
                out.insert(0, c);
                assert(out@ =~= seq![c] + classify_all(all.skip(k + 1), empty));
            },
            None => {},
        }
    }
    assert(all.skip(0) =~= all);
    out
}

} // verus!

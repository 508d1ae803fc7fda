//! The state of the copy window: status, which controls are enabled, the
//! file list, and how button presses and progress reports change them.
//! Drawing, timing and the worker thread stay with the window itself.

use crate::config::{available_cpus, HashAlgorithm};
use crate::text::str_equal;
use vstd::prelude::*;

verus! {

#[derive(Debug, Clone, Copy, PartialEq, Eq, Structural)]
pub enum AppStatus {
    Idle,
    Scanning,
    Copying,
    Paused,
    Done,
    Error,
}

#[derive(Debug, Clone, Copy, PartialEq, Eq, Structural)]
pub enum EntryStatus {
    Pending,
    Copying,
    Done,
}

/// One file of the list.
#[derive(Debug, Clone)]
pub struct FileEntry {
    pub name: String,
    pub size: u64,
    /// Bytes copied and size, as last reported (the bar shows their ratio).
    pub copied: u64,
    pub total: u64,
    pub status: EntryStatus,
}

/// A line of the log.
#[derive(Debug, Clone)]
pub enum LogEntry {
    Text(String),
    /// Files handed over by the shell.
    ShellLoaded(usize),
    /// Sources will be deleted after the copy.
    MoveMode,
    Cancelled,
}

/// A notification popped up when a copy ends.
#[derive(Debug, Clone)]
pub enum Toast {
    /// The copy completed, with this many files done.
    Completed(usize),
    /// The copy failed with this message.
    Failed(String),
}

/// Which controls can be used.
#[derive(Debug, Clone, Copy, PartialEq, Eq, Structural)]
pub struct Controls {
    pub start: bool,
    pub pause: bool,
    pub resume: bool,
    pub cancel: bool,
    pub clear: bool,
}

/// What a start asks the worker to do.
#[derive(Debug, Clone)]
pub struct StartRequest {
    pub source: String,
    pub destination: String,
    pub recursive: bool,
    pub verify: bool,
    pub hash_algorithm: HashAlgorithm,
    pub threads: usize,
}

/// A progress report from the worker.
#[derive(Debug, Clone)]
pub struct ProgressReport {
    pub file: String,
    pub bytes_copied: u64,
    pub total_bytes: u64,
    pub is_done: bool,
    pub error: String,
    pub log: Vec<String>,
}

/// The state of the window.
#[derive(Debug, Clone)]
pub struct Session {
    pub source: String,
    pub destination: String,
    pub recursive: bool,
    pub verify: bool,
    pub hash_algorithm: HashAlgorithm,
    pub threads: usize,
    pub status: AppStatus,
    pub files: Vec<FileEntry>,
    pub current_file: String,
    pub files_done: usize,
    pub error_message: String,
    pub log: Vec<LogEntry>,
    pub toasts: Vec<Toast>,
    pub shell_sources: Vec<String>,
    pub move_mode: bool,
    pub pending_add: bool,
}

pub open spec fn spec_controls(s: Session) -> Controls {
    Controls {
        start: s.source@.len() > 0 && s.destination@.len() > 0 && s.status == AppStatus::Idle,
        pause: s.status == AppStatus::Copying,
        resume: s.status == AppStatus::Paused,
        cancel: s.status == AppStatus::Copying || s.status == AppStatus::Paused,
        clear: s.status == AppStatus::Done || s.status == AppStatus::Error,
    }
}

/// A fresh window: empty paths and lists, BLAKE3, one thread per CPU, idle.
pub open spec fn is_fresh(s: Session) -> bool {
    &&& s.source@.len() == 0
    &&& s.destination@.len() == 0
    &&& !s.recursive
    &&& !s.verify
    &&& s.hash_algorithm == HashAlgorithm::Blake3
    &&& s.threads >= 1
    &&& s.status == AppStatus::Idle
    &&& s.files@.len() == 0
    &&& s.current_file@.len() == 0
    &&& s.files_done == 0
    &&& s.error_message@.len() == 0
    &&& s.log@.len() == 0
    &&& s.toasts@.len() == 0
    &&& s.shell_sources@.len() == 0
    &&& !s.move_mode
    &&& !s.pending_add
}

/// The copy settings of `b` are those of `a`: paths, options, shell
/// sources and the move and add flags.
pub open spec fn same_settings(a: Session, b: Session) -> bool {
    &&& b.source@ == a.source@
    &&& b.destination@ == a.destination@
    &&& b.recursive == a.recursive
    &&& b.verify == a.verify
    &&& b.hash_algorithm == a.hash_algorithm
    &&& b.threads == a.threads
    &&& b.shell_sources@ == a.shell_sources@
    &&& b.move_mode == a.move_mode
    &&& b.pending_add == a.pending_add
}

/// Besides its status and log, nothing of the window differs between `a`
/// and `b`.
pub open spec fn same_besides_status_and_log(a: Session, b: Session) -> bool {
    &&& same_settings(a, b)
    &&& b.files@ == a.files@
    &&& b.current_file@ == a.current_file@
    &&& b.files_done == a.files_done
    &&& b.error_message@ == a.error_message@
    &&& b.toasts@ == a.toasts@
}

/// The position of the entry named `name`, if any.
pub open spec fn entry_named(files: Seq<FileEntry>, name: Seq<char>, i: int) -> bool {
    &&& 0 <= i < files.len()
    &&& files[i].name@ == name
    &&& forall|j: int| 0 <= j < i ==> files[j].name@ != name
}

/// Some entry of the list is named `name`.
pub open spec fn lists_name(files: Seq<FileEntry>, name: Seq<char>) -> bool {
    exists|j: int| 0 <= j < files.len() && #[trigger] files[j].name@ == name
}

fn find_entry(files: &Vec<FileEntry>, name: &str) -> (r: Option<usize>)
    ensures
        r matches Some(i) ==> entry_named(files@, name@, i as int),
        r is None ==> forall|j: int| 0 <= j < files@.len() ==> files@[j].name@ != name@,
{
    let mut i: usize = 0;
    while i < files.len()
        invariant
            i <= files@.len(),
            forall|j: int| 0 <= j < i ==> files@[j].name@ != name@,
        decreases files@.len() - i,
    {
        if str_equal(files[i].name.as_str(), name) {
            return Some(i);
        }
        i += 1;
    }
    None
}

/// An entry after a progress report for it: the bar follows a non-empty
/// report; a complete one marks the entry done, otherwise a pending entry
/// starts copying.
pub open spec fn spec_update_entry(e: FileEntry, copied: u64, total: u64) -> FileEntry {
    FileEntry {
        copied: if total > 0 { copied } else { e.copied },
        total: if total > 0 { total } else { e.total },
        status: if copied >= total && total > 0 {
            EntryStatus::Done
        } else if e.status == EntryStatus::Pending {
            EntryStatus::Copying
        } else {
            e.status
        },
        ..e
    }
}

impl Session {
    pub fn new() -> (r: Self)
        ensures
            is_fresh(r),
    {
        Session {
            source: String::new(),
            destination: String::new(),
            recursive: false,
            verify: false,
            hash_algorithm: HashAlgorithm::Blake3,
            threads: available_cpus(),
            status: AppStatus::Idle,
            files: Vec::new(),
            current_file: String::new(),
            files_done: 0,
            error_message: String::new(),
            log: Vec::new(),
            toasts: Vec::new(),
            shell_sources: Vec::new(),
            move_mode: false,
            pending_add: false,
        }
    }

    /// A window opened with files from the shell, to be loaded on the
    /// first frame.
    pub fn with_sources(sources: Vec<String>) -> (r: Self)
        ensures
            r.shell_sources@ == sources@,
            r.pending_add,
            !r.move_mode,
            r.status == AppStatus::Idle,
            r.files@.len() == 0,
    {
        let mut s = Session::new();
        s.shell_sources = sources;
        s.pending_add = true;
        s
    }

    /// Like `with_sources`, but the sources are deleted after the copy.
    pub fn with_sources_move(sources: Vec<String>) -> (r: Self)
        ensures
            r.shell_sources@ == sources@,
            r.pending_add,
            r.move_mode,
            r.status == AppStatus::Idle,
            r.files@.len() == 0,
    {
        let mut s = Session::new();
        s.shell_sources = sources;
        s.move_mode = true;
        s.pending_add = true;
        s
    }

    /// A window opened with a destination folder from the shell.
    pub fn with_destination(dest: String) -> (r: Self)
        ensures
            r.destination@ == dest@,
            r.source@.len() == 0,
            !r.pending_add,
            r.status == AppStatus::Idle,
    {
        let mut s = Session::new();
        s.destination = dest;
        s
    }

    /// Which controls are enabled: start needs both paths and an idle
    /// window; pause needs a running copy, resume a paused one; cancel
    /// either; clear a finished or failed one.
    pub fn controls(&self) -> (r: Controls)
        ensures
            r == spec_controls(*self),
    {
        Controls {
            start: self.source.as_str().unicode_len() > 0 && self.destination.as_str().unicode_len() > 0
                && self.status == AppStatus::Idle,
            pause: self.status == AppStatus::Copying,
            resume: self.status == AppStatus::Paused,
            cancel: self.status == AppStatus::Copying || self.status == AppStatus::Paused,
            clear: self.status == AppStatus::Done || self.status == AppStatus::Error,
        }
    }

    /// Pause: a running copy pauses; otherwise nothing happens.
    pub fn pause(&mut self) -> (r: bool)
        ensures
            r == (old(self).status == AppStatus::Copying),
            r ==> final(self).status == AppStatus::Paused,
            !r ==> final(self).status == old(self).status,
            final(self).log@ == old(self).log@,
            same_besides_status_and_log(*old(self), *final(self)),
    {
        if self.status == AppStatus::Copying {
            self.status = AppStatus::Paused;
            true
        } else {
            false
        }
    }

    /// Resume: a paused copy runs again; otherwise nothing happens.
    pub fn resume(&mut self) -> (r: bool)
        ensures
            r == (old(self).status == AppStatus::Paused),
            r ==> final(self).status == AppStatus::Copying,
            !r ==> final(self).status == old(self).status,
            final(self).log@ == old(self).log@,
            same_besides_status_and_log(*old(self), *final(self)),
    {
        if self.status == AppStatus::Paused {
            self.status = AppStatus::Copying;
            true
        } else {
            false
        }
    }

    /// Cancel: a running or paused copy stops, the window is idle again
    /// and the log says so; otherwise nothing happens.
    pub fn cancel(&mut self) -> (r: bool)
        ensures
            r == (old(self).status == AppStatus::Copying || old(self).status == AppStatus::Paused),
            r ==> final(self).status == AppStatus::Idle,
            r ==> final(self).log@.len() == old(self).log@.len() + 1,
            r ==> final(self).log@.take(old(self).log@.len() as int) == old(self).log@,
            r ==> final(self).log@.last() matches LogEntry::Cancelled,
            !r ==> final(self).status == old(self).status && final(self).log@ == old(self).log@,
            same_besides_status_and_log(*old(self), *final(self)),
    {
        if self.status == AppStatus::Copying || self.status == AppStatus::Paused {
            self.log.push(LogEntry::Cancelled);
            self.status = AppStatus::Idle;
            assert(self.log@.take(old(self).log@.len() as int) =~= old(self).log@);
            true
        } else {
            false
        }
    }

    /// Clear: a finished or failed window starts afresh; otherwise
    /// nothing happens.
    pub fn clear(&mut self) -> (r: bool)
        ensures
            r == (old(self).status == AppStatus::Done || old(self).status == AppStatus::Error),
            r ==> is_fresh(*final(self)),
            !r ==> final(self).status == old(self).status,
    {
        if self.status == AppStatus::Done || self.status == AppStatus::Error {
            *self = Session::new();
            true
        } else {
            false
        }
    }

    /// Start: when allowed, the window starts scanning with an empty file
    /// list, log and error, and the worker is asked to copy with the
    /// chosen options; otherwise nothing happens.
    pub fn start(&mut self) -> (r: Option<StartRequest>)
        ensures
            r is Some == spec_controls(*old(self)).start,
            r matches Some(req) ==> {
                &&& req.source@ == old(self).source@
                &&& req.destination@ == old(self).destination@
                &&& req.recursive == old(self).recursive
                &&& req.verify == old(self).verify
                &&& req.hash_algorithm == old(self).hash_algorithm
                &&& req.threads == old(self).threads
                &&& final(self).status == AppStatus::Scanning
                &&& final(self).files@.len() == 0
                &&& final(self).log@.len() == 0
                &&& final(self).current_file@.len() == 0
                &&& final(self).error_message@.len() == 0
                &&& final(self).files_done == 0
                &&& final(self).source@ == old(self).source@
                &&& final(self).destination@ == old(self).destination@
            },
            r is None ==> final(self).status == old(self).status && final(self).files@ == old(self).files@,
    {
        if !self.controls().start {
            return None;
        }
        let req = StartRequest {
            source: self.source.clone(),
            destination: self.destination.clone(),
            recursive: self.recursive,
            verify: self.verify,
            hash_algorithm: self.hash_algorithm,
            threads: self.threads,
        };
        self.status = AppStatus::Scanning;
        self.current_file = String::new();
        self.files_done = 0;
        self.error_message = String::new();
        self.log = Vec::new();
        self.files = Vec::new();
        Some(req)
    }

    /// Loads the files handed over by the shell, once: a single file
    /// becomes the source, several make their folder (`parent_of_first`,
    /// when there is one) the source; each path not listed yet is added as
    /// pending with its size from `sizes`.
    pub fn load_shell_sources(&mut self, parent_of_first: Option<String>, sizes: &Vec<u64>) -> (r: bool)
        requires
            sizes@.len() == old(self).shell_sources@.len(),
        ensures
            r == (old(self).pending_add && old(self).shell_sources@.len() > 0),
            !r ==> final(self).files@ == old(self).files@ && final(self).source@ == old(self).source@,
            r ==> {
                &&& !final(self).pending_add
                &&& final(self).shell_sources@.len() == 0
                &&& final(self).source@ == (if old(self).shell_sources@.len() == 1 {
                    old(self).shell_sources@[0]@
                } else {
                    match parent_of_first {
                        Some(p) => p@,
                        None => old(self).shell_sources@[0]@,
                    }
                })
                &&& final(self).files@.take(old(self).files@.len() as int) == old(self).files@
                &&& forall|k: int| 0 <= k < old(self).shell_sources@.len() ==>
                    lists_name(final(self).files@, #[trigger] old(self).shell_sources@[k]@)
                &&& forall|j: int| old(self).files@.len() <= j < final(self).files@.len() ==>
                    #[trigger] final(self).files@[j].status == EntryStatus::Pending
                        && exists|k: int| 0 <= k < old(self).shell_sources@.len()
                            && final(self).files@[j].name@ == old(self).shell_sources@[k]@
                            && final(self).files@[j].size == sizes@[k]
            },
    {
        if !(self.pending_add && self.shell_sources.len() > 0) {
            return false;
        }
        let mut sources: Vec<String> = Vec::new();
        std::mem::swap(&mut sources, &mut self.shell_sources);
        self.pending_add = false;
        if sources.len() == 1 {
            self.source = sources[0].clone();
        } else {
            self.source = match parent_of_first {
                Some(p) => p,
                None => sources[0].clone(),
            };
        }
        let ghost start_files = self.files@;
        let ghost chosen_source = self.source@;
        let mut k: usize = 0;
        while k < sources.len()
            invariant
                sources@ == old(self).shell_sources@,
                !self.pending_add,
                self.shell_sources@.len() == 0,
                self.source@ == chosen_source,
                sizes@.len() == sources@.len(),
                k <= sources@.len(),
                start_files == old(self).files@,
                self.files@.len() >= start_files.len(),
                self.files@.take(start_files.len() as int) == start_files,
                forall|q: int| 0 <= q < k ==> lists_name(self.files@, #[trigger] sources@[q]@),
                forall|j: int| start_files.len() <= j < self.files@.len() ==>
                    #[trigger] self.files@[j].status == EntryStatus::Pending
                        && exists|q: int| 0 <= q < sources@.len()
                            && self.files@[j].name@ == sources@[q]@ && self.files@[j].size == sizes@[q],
            decreases sources@.len() - k,
        {
            let path = &sources[k];
            match find_entry(&self.files, path.as_str()) {
                Some(j) => {
                    assert(self.files@[j as int].name@ == sources@[k as int]@);
                },
                None => {
                    let ghost before = self.files@;
                    self.files.push(FileEntry {
                        name: path.clone(),
                        size: sizes[k],
                        copied: 0,
                        total: 0,
                        status: EntryStatus::Pending,
                    });
                    assert(self.files@.take(start_files.len() as int) =~= before.take(start_files.len() as int));
                    assert(self.files@[before.len() as int].name@ == sources@[k as int]@);
                    assert forall|q: int| 0 <= q < k implies lists_name(self.files@, #[trigger] sources@[q]@) by {
                        let j0 = choose|j: int| 0 <= j < before.len() && #[trigger] before[j].name@ == sources@[q]@;
                        assert(self.files@[j0] == before[j0]);
                    }
                },
            }
            k += 1;
        }
        self.log.push(LogEntry::ShellLoaded(sources.len()));
        if self.move_mode {
            self.log.push(LogEntry::MoveMode);
        }
        true
    }

    /// Applies a worker report. A final report ends the copy (done, or
    /// failed with its error, with a toast either way) and its log lines are
    /// added twice over; another report names the current file, updates that
    /// file's entry and counts it done when complete, and adds its log lines.
    pub fn apply_progress(&mut self, p: ProgressReport)
        requires
            old(self).files_done < usize::MAX,
        ensures
            final(self).current_file@ == p.file@,
            same_settings(*old(self), *final(self)),
            final(self).log@.len() == old(self).log@.len() + (if p.is_done { 2 * p.log@.len() } else { p.log@.len() }),
            final(self).log@.take(old(self).log@.len() as int) == old(self).log@,
            forall|k: int| 0 <= k < p.log@.len() ==>
                (#[trigger] final(self).log@[old(self).log@.len() + k] matches LogEntry::Text(t) && t == p.log@[k]),
            p.is_done ==> forall|k: int| 0 <= k < p.log@.len() ==>
                (#[trigger] final(self).log@[old(self).log@.len() + p.log@.len() + k] matches LogEntry::Text(t)
                    && t == p.log@[k]),
            p.is_done ==> {
                &&& final(self).status == (if p.error@.len() == 0 { AppStatus::Done } else { AppStatus::Error })
                &&& p.error@.len() > 0 ==> final(self).error_message@ == p.error@
                &&& p.error@.len() == 0 ==> final(self).error_message@ == old(self).error_message@
                &&& final(self).toasts@.len() == old(self).toasts@.len() + 1
                &&& (if p.error@.len() == 0 {
                        final(self).toasts@.last() matches Toast::Completed(n) && n == old(self).files_done
                    } else {
                        final(self).toasts@.last() matches Toast::Failed(m) && m@ == p.error@
                    })
                &&& final(self).files@ == old(self).files@
                &&& final(self).files_done == old(self).files_done
            },
            !p.is_done ==> {
                &&& final(self).status == old(self).status
                &&& final(self).error_message@ == old(self).error_message@
                &&& final(self).toasts@ == old(self).toasts@
                &&& final(self).files@.len() == old(self).files@.len()
                &&& (forall|i: int| entry_named(old(self).files@, p.file@, i) ==> {
                    &&& final(self).files@ == old(self).files@.update(i,
                        spec_update_entry(old(self).files@[i], p.bytes_copied, p.total_bytes))
                    &&& final(self).files_done as int == old(self).files_done as int
                        + if p.bytes_copied >= p.total_bytes && p.total_bytes > 0 { 1int } else { 0int }
                })
                &&& (forall|i: int| entry_named(old(self).files@, p.file@, i) && p.total_bytes > 0 ==> {
                    &&& final(self).files@[i].copied == p.bytes_copied
                    &&& final(self).files@[i].total == p.total_bytes
                })
                &&& ((forall|j: int| 0 <= j < old(self).files@.len() ==> old(self).files@[j].name@ != p.file@) ==>
                    final(self).files@ == old(self).files@ && final(self).files_done == old(self).files_done)
            },
    {
        self.current_file = p.file.clone();
        if p.is_done {
            let failed = p.error.as_str().unicode_len() > 0;
            if failed {
                self.error_message = p.error.clone();
                self.status = AppStatus::Error;
                self.toasts.push(Toast::Failed(p.error.clone()));
            } else {
                self.status = AppStatus::Done;
                self.toasts.push(Toast::Completed(self.files_done));
            }
            self.append_log(&p.log);
        } else {
            match find_entry(&self.files, p.file.as_str()) {
                Some(i) => {
                    let e = &self.files[i];
                    let complete = p.bytes_copied >= p.total_bytes && p.total_bytes > 0;
                    let updated = FileEntry {
                        name: e.name.clone(),
                        size: e.size,
                        copied: if p.total_bytes > 0 { p.bytes_copied } else { e.copied },
                        total: if p.total_bytes > 0 { p.total_bytes } else { e.total },
                        status: if complete {
                            EntryStatus::Done
                        } else if e.status == EntryStatus::Pending {
                            EntryStatus::Copying
                        } else {
                            e.status
                        },
                    };
                    self.files.set(i, updated);
                    if complete {
                        self.files_done = self.files_done + 1;
                    }
                    proof {
                        assert forall|i2: int| entry_named(old(self).files@, p.file@, i2) implies i2 == i as int by {
                            if i2 < i {
                                assert(old(self).files@[i2].name@ != p.file@);
                            } else if i2 > i {
                                assert(old(self).files@[i as int].name@ != p.file@);
                            }
                        }
                        assert(self.files@ =~= old(self).files@.update(i as int,
                            spec_update_entry(old(self).files@[i as int], p.bytes_copied, p.total_bytes)));
                    }
                },
                None => {},
            }
        }
        let ghost mid = self.log@;
        self.append_log(&p.log);
        proof {
            if p.is_done {
                assert forall|k: int| 0 <= k < p.log@.len() implies
                    (#[trigger] self.log@[old(self).log@.len() + k] matches LogEntry::Text(t) && t == p.log@[k]) by {
                    assert(self.log@.take(mid.len() as int)[old(self).log@.len() + k] == mid[old(self).log@.len() + k]);
                }
            }
        }
    }

    fn append_log(&mut self, lines: &Vec<String>)
        ensures
            final(self).log@.len() == old(self).log@.len() + lines@.len(),
            final(self).log@.take(old(self).log@.len() as int) == old(self).log@,
            forall|k: int| 0 <= k < lines@.len() ==>
                (#[trigger] final(self).log@[old(self).log@.len() + k] matches LogEntry::Text(t) && t == lines@[k]),
            final(self).status == old(self).status,
            final(self).files@ == old(self).files@,
            final(self).files_done == old(self).files_done,
            final(self).toasts@ == old(self).toasts@,
            final(self).current_file == old(self).current_file,
            final(self).error_message == old(self).error_message,
            same_settings(*old(self), *final(self)),
    {
        let mut k: usize = 0;
        while k < lines.len()
            invariant
                k <= lines@.len(),
                self.log@.len() == old(self).log@.len() + k,
                self.log@.take(old(self).log@.len() as int) == old(self).log@,
                forall|q: int| 0 <= q < k ==>
                    (#[trigger] self.log@[old(self).log@.len() + q] matches LogEntry::Text(t) && t == lines@[q]),
                self.status == old(self).status,
                self.files@ == old(self).files@,
                self.files_done == old(self).files_done,
                self.toasts@ == old(self).toasts@,
                self.current_file == old(self).current_file,
                self.error_message == old(self).error_message,
                same_settings(*old(self), *self),
            decreases lines@.len() - k,
        {
            let ghost before = self.log@;
            self.log.push(LogEntry::Text(lines[k].clone()));
            assert(self.log@.take(old(self).log@.len() as int) =~= before.take(old(self).log@.len() as int));
            k += 1;
        }
    }
}

/// Each button of the window is enabled exactly when its action acts:
/// pause on a running copy, resume on a paused one, cancel on either
/// (the condition under which `cancel` stops the copy), clear on a
/// finished or failed one, and start on an idle window with both paths
/// given. Cancel is offered exactly when pause or resume is, and never
/// together with start or clear.
pub proof fn lemma_controls_follow_status(s: Session)
    ensures
        spec_controls(s).pause <==> s.status == AppStatus::Copying,
        spec_controls(s).resume <==> s.status == AppStatus::Paused,
        spec_controls(s).cancel <==> (s.status == AppStatus::Copying || s.status == AppStatus::Paused),
        spec_controls(s).cancel <==> (spec_controls(s).pause || spec_controls(s).resume),
        spec_controls(s).clear <==> (s.status == AppStatus::Done || s.status == AppStatus::Error),
        spec_controls(s).start <==> (s.status == AppStatus::Idle && s.source@.len() > 0 && s.destination@.len() > 0),
        !(spec_controls(s).cancel && (spec_controls(s).start || spec_controls(s).clear)),
{
}

/// A progress report for a file updates its entry: with a known size the
/// entry then shows exactly the reported bytes copied out of the reported
/// size, and it is done exactly when all of them are copied; a report
/// without a size keeps the entry's figures. The entry's name and size on
/// disk never change, and a done entry stays done.
pub proof fn lemma_entry_follows_report(e: FileEntry, copied: u64, total: u64)
    ensures
        spec_update_entry(e, copied, total).name == e.name,
        spec_update_entry(e, copied, total).size == e.size,
        total > 0 ==> spec_update_entry(e, copied, total).copied == copied,
        total > 0 ==> spec_update_entry(e, copied, total).total == total,
        total == 0 ==> spec_update_entry(e, copied, total).copied == e.copied,
        total == 0 ==> spec_update_entry(e, copied, total).total == e.total,
        total > 0 && copied >= total ==> spec_update_entry(e, copied, total).status == EntryStatus::Done,
        e.status == EntryStatus::Done ==> spec_update_entry(e, copied, total).status == EntryStatus::Done,
        e.status == EntryStatus::Pending && !(total > 0 && copied >= total) ==>
            spec_update_entry(e, copied, total).status == EntryStatus::Copying,
{
}

} // verus!

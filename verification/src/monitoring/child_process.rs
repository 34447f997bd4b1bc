//! The child processes of the monitored process, found by scanning `/proc`:
//! an entry whose name is a pid and whose `stat` names the monitored process
//! as parent is a child; each child is handed out for monitoring once.

use vstd::prelude::*;
use crate::text::{chars_of, contains_u32, parse_u32, parse_unsigned, split_words, word_at};

verus! {

/// The pid that a `/proc` entry's name spells, if it is a `u32`.
pub open spec fn pid_of_name(name: Seq<char>) -> Option<u32> {
    match parse_unsigned(name, u32::MAX as nat) {
        Some(v) => Some(v as u32),
        None => None,
    }
}

/// The parent pid in a `/proc/<pid>/stat` text: its fourth
/// whitespace-separated word, when there is one and it is a `u32`.
pub open spec fn parent_pid_of_stat(stat: Seq<char>) -> Option<u32> {
    let words = split_words(stat);
    if words.len() > 3 {
        match parse_unsigned(words[3], u32::MAX as nat) {
            Some(v) => Some(v as u32),
            None => None,
        }
    } else {
        None
    }
}

/// The pid of a `/proc` entry, if its name is one.
pub fn entry_pid(name: &str) -> (pid: Option<u32>)
    ensures
        pid == pid_of_name(name@),
{
    parse_u32(name)
}

/// The parent pid that a `stat` text names.
pub fn parent_pid_from_stat(stat: &str) -> (ppid: Option<u32>)
    ensures
        ppid == parent_pid_of_stat(stat@),
{
    let chars = chars_of(stat);
    match word_at(chars.as_slice(), 3) {
        Some(word) => {
            let text = crate::text::parse_unsigned_chars(word.as_slice(), u32::MAX as u64);
            match text {
                Some(v) => Some(v as u32),
                None => None,
            }
        },
        None => None,
    }
}

/// What a child tracker knows.
pub struct ChildCounts {
    /// The monitored process.
    pub pid: u32,
    /// Every child handed out for monitoring, each once, in order.
    pub monitored: Seq<u32>,
    /// The most new children found in one scan.
    pub max: u16,
    /// The new children found in the scan under way.
    pub scan: u16,
}

/// Whether the entry `proc_pid`, whose `stat` text is `stat`, is a child of
/// the monitored process not handed out yet.
pub open spec fn is_new_child_of(counts: ChildCounts, proc_pid: u32, stat: Seq<char>) -> bool {
    parent_pid_of_stat(stat) == Some(counts.pid) && !counts.monitored.contains(proc_pid)
}


/// An entry is a new child exactly when the fourth word of its `stat` text
/// reads as the monitored pid and the entry was not handed out yet: an entry
/// whose `stat` names another parent, or none, is never a child, the
/// monitored process's own entry included.
pub proof fn lemma_new_child_by_stat(counts: ChildCounts, proc_pid: u32, stat: Seq<char>)
    ensures
        is_new_child_of(counts, proc_pid, stat) <==> (split_words(stat).len() > 3
            && parse_unsigned(split_words(stat)[3], u32::MAX as nat) == Some(counts.pid as nat)
            && !counts.monitored.contains(proc_pid)),
{
    let words = split_words(stat);
    if words.len() > 3 {
        match parse_unsigned(words[3], u32::MAX as nat) {
            Some(v) => {
                assert(v <= u32::MAX);
                assert((v as u32) as nat == v);
            },
            None => {},
        }
    }
}

/// Finds the children of one process, scan after scan.
pub struct ChildProcessTracker {
    pid: u32,
    monitored: Vec<u32>,
    max: u16,
    count: u16,
}

impl View for ChildProcessTracker {
    type V = ChildCounts;

    closed spec fn view(&self) -> ChildCounts {
        ChildCounts { pid: self.pid, monitored: self.monitored@, max: self.max, scan: self.count }
    }
}

impl ChildProcessTracker {
    /// No child is handed out twice.
    pub open spec fn wf(&self) -> bool {
        self@.monitored.no_duplicates()
    }

    /// Looks for the children of `pid`; none handed out yet.
    pub fn new(pid: u32) -> (tracker: ChildProcessTracker)
        ensures
            tracker.wf(),
            tracker@ == (ChildCounts { pid, monitored: Seq::empty(), max: 0, scan: 0 }),
    {
        ChildProcessTracker { pid, monitored: Vec::new(), max: 0, count: 0 }
    }

    /// Starts a scan of `/proc`.
    pub fn begin_scan(&mut self)
        requires
            old(self).wf(),
        ensures
            final(self).wf(),
            final(self)@ == (ChildCounts { scan: 0, ..old(self)@ }),
    {
        self.count = 0;
    }

    /// Whether the entry `proc_pid` with this `stat` text is a new child.
    pub fn is_new_child(&self, proc_pid: u32, stat: &str) -> (b: bool)
        ensures
            b == is_new_child_of(self@, proc_pid, stat@),
    {
        match parent_pid_from_stat(stat) {
            Some(ppid) => ppid == self.pid && !contains_u32(self.monitored.as_slice(), proc_pid),
            None => false,
        }
    }

    /// Takes the `stat` text of the entry `proc_pid`. A new child is counted
    /// in this scan and kept; the result says whether to start monitoring it.
    pub fn observe_stat(&mut self, proc_pid: u32, stat: &str) -> (start: bool)
        requires
            old(self).wf(),
            is_new_child_of(old(self)@, proc_pid, stat@) ==> old(self)@.scan < u16::MAX,
        ensures
            final(self).wf(),
            start == is_new_child_of(old(self)@, proc_pid, stat@),
            final(self)@ == if start {
                ChildCounts {
                    monitored: old(self)@.monitored.push(proc_pid),
                    scan: (old(self)@.scan + 1) as u16,
                    ..old(self)@
                }
            } else {
                old(self)@
            },
    {
        if self.is_new_child(proc_pid, stat) {
            self.count = self.count + 1;
            self.monitored.push(proc_pid);
            true
        } else {
            false
        }
    }

    /// Ends a scan: the most new children found in one scan is updated.
    pub fn end_scan(&mut self)
        requires
            old(self).wf(),
        ensures
            final(self).wf(),
            final(self)@ == (ChildCounts {
                max: if old(self)@.max < old(self)@.scan {
                    old(self)@.scan
                } else {
                    old(self)@.max
                },
                ..old(self)@
            }),
    {
        if self.max < self.count {
            self.max = self.count;
        }
    }

    /// The new children found in the scan under way.
    pub fn scan_count(&self) -> (r: u16)
        ensures
            r == self@.scan,
    {
        self.count
    }

    /// The most new children found in one scan.
    pub fn max(&self) -> (r: u16)
        ensures
            r == self@.max,
    {
        self.max
    }

    /// Every child handed out, in order.
    pub fn monitored(&self) -> (r: Vec<u32>)
        ensures
            r@ == self@.monitored,
    {
        self.monitored.clone()
    }
}

} // verus!

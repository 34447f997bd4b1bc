//! The threads of the monitored process, read from the entries of its
//! `/proc/<pid>/task` directory at each poll.

use vstd::prelude::*;
use crate::text::{contains_u32, decimal_text, lemma_parse_decimal_text, parse_u32, parse_unsigned};

verus! {

/// The thread id that a task entry's name spells, if it is a `u32`.
pub open spec fn thread_id_of(name: Seq<char>) -> Option<u32> {
    match parse_unsigned(name, u32::MAX as nat) {
        Some(v) => Some(v as u32),
        None => None,
    }
}

/// The thread id of a task entry, if its name is one.
pub fn thread_id(name: &str) -> (tid: Option<u32>)
    ensures
        tid == thread_id_of(name@),
{
    parse_u32(name)
}


/// A task entry's name gives a thread id exactly when `str::parse::<u32>`
/// reads it, and then the same number.
pub proof fn lemma_thread_id_is_u32_parse(name: Seq<char>)
    ensures
        thread_id_of(name) is Some <==> parse_unsigned(name, u32::MAX as nat) is Some,
        thread_id_of(name) is Some ==> thread_id_of(name)->0 as nat == parse_unsigned(
            name,
            u32::MAX as nat,
        )->0,
{
    match parse_unsigned(name, u32::MAX as nat) {
        Some(v) => {
            assert(v <= u32::MAX);
        },
        None => {},
    }
}

/// Every thread id, up to `u32::MAX`, is read back from its decimal name.
pub proof fn lemma_every_thread_id_counted(tid: u32)
    ensures
        thread_id_of(decimal_text(tid as nat)) == Some(tid),
{
    lemma_parse_decimal_text(tid as nat, u32::MAX as nat);
}

/// What a thread tracker knows.
pub struct ThreadCounts {
    /// Every thread id seen so far, each once, in the order first seen.
    pub seen: Seq<u32>,
    /// The most threads counted in one scan.
    pub max: u16,
    /// The threads counted in the scan under way.
    pub scan: u16,
}

/// Collects the thread ids of the process and the most threads counted in
/// one scan of its task directory.
pub struct ThreadTracker {
    threads: Vec<u32>,
    max: u16,
    counter: u16,
}

impl View for ThreadTracker {
    type V = ThreadCounts;

    closed spec fn view(&self) -> ThreadCounts {
        ThreadCounts { seen: self.threads@, max: self.max, scan: self.counter }
    }
}

impl ThreadTracker {
    /// No thread id is kept twice.
    pub open spec fn wf(&self) -> bool {
        self@.seen.no_duplicates()
    }

    /// No thread seen yet.
    pub fn new() -> (tracker: ThreadTracker)
        ensures
            tracker.wf(),
            tracker@ == (ThreadCounts { seen: Seq::empty(), max: 0, scan: 0 }),
    {
        ThreadTracker { threads: Vec::new(), max: 0, counter: 0 }
    }

    /// Starts a scan of the task directory.
    pub fn begin_scan(&mut self)
        requires
            old(self).wf(),
        ensures
            final(self).wf(),
            final(self)@ == (ThreadCounts { scan: 0, ..old(self)@ }),
    {
        self.counter = 0;
    }

    /// Takes the name of one entry of the task directory: a name that is a
    /// thread id is counted in this scan, and its id is kept if it is new.
    pub fn observe_entry(&mut self, name: &str)
        requires
            old(self).wf(),
            thread_id_of(name@) is Some ==> old(self)@.scan < u16::MAX,
        ensures
            final(self).wf(),
            final(self)@ == match thread_id_of(name@) {
                Some(tid) => ThreadCounts {
                    seen: if old(self)@.seen.contains(tid) {
                        old(self)@.seen
                    } else {
                        old(self)@.seen.push(tid)
                    },
                    max: old(self)@.max,
                    scan: (old(self)@.scan + 1) as u16,
                },
                None => old(self)@,
            },
    {
        match parse_u32(name) {
            Some(tid) => {
                self.counter = self.counter + 1;
                if !contains_u32(self.threads.as_slice(), tid) {
                    self.threads.push(tid);
                }
            },
            None => {},
        }
    }

    /// Ends a scan: the most threads counted in one scan is updated.
    pub fn end_scan(&mut self)
        requires
            old(self).wf(),
        ensures
            final(self).wf(),
            final(self)@ == (ThreadCounts {
                max: if old(self)@.max < old(self)@.scan {
                    old(self)@.scan
                } else {
                    old(self)@.max
                },
                ..old(self)@
            }),
    {
        if self.max < self.counter {
            self.max = self.counter;
        }
    }

    /// The threads counted in the scan under way.
    pub fn scan_count(&self) -> (r: u16)
        ensures
            r == self@.scan,
    {
        self.counter
    }

    /// The most threads counted in one scan.
    pub fn max(&self) -> (r: u16)
        ensures
            r == self@.max,
    {
        self.max
    }

    /// Every thread id seen, each once.
    pub fn threads(&self) -> (r: Vec<u32>)
        ensures
            r@ == self@.seen,
    {
        self.threads.clone()
    }
}

} // verus!

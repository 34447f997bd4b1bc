//! Heap and stack sizes of the monitored process, read line by line from its
//! `/proc/<pid>/smaps`: after a line that names the `[heap]` (or `[stack]`)
//! mapping, the next `Size:` line gives its size in kB.

use vstd::prelude::*;
use crate::stats::Statistics;
use crate::text::{
    chars_of, contains_chars, contains_text, parse_unsigned, parse_unsigned_chars, split_words,
    starts_with_chars, starts_with_text, word_at,
};

verus! {

pub open spec fn heap_marker() -> Seq<char> {
    seq!['[', 'h', 'e', 'a', 'p', ']']
}

pub open spec fn stack_marker() -> Seq<char> {
    seq!['[', 's', 't', 'a', 'c', 'k', ']']
}

pub open spec fn size_prefix() -> Seq<char> {
    seq!['S', 'i', 'z', 'e', ':']
}

/// The size on a `Size:` line: its second whitespace-separated word, when it
/// is a `u64`.
pub open spec fn size_of_line(line: Seq<char>) -> Option<u64> {
    let words = split_words(line);
    if words.len() > 1 {
        match parse_unsigned(words[1], u64::MAX as nat) {
            Some(v) => Some(v as u64),
            None => None,
        }
    } else {
        None
    }
}

/// What the reader of `smaps` knows.
pub struct SmapsState {
    /// The heap sizes read, in order.
    pub heap: Seq<u64>,
    /// The stack sizes read, in order.
    pub stack: Seq<u64>,
    /// A `[heap]` line was read and its `Size:` line is still to come.
    pub in_heap: bool,
    /// A `[stack]` line was read and its `Size:` line is still to come.
    pub in_stack: bool,
}

/// The state after one more line of `smaps`.
pub open spec fn smaps_step(state: SmapsState, line: Seq<char>) -> SmapsState {
    let in_heap = state.in_heap || contains_text(line, heap_marker());
    let in_stack = state.in_stack || (!contains_text(line, heap_marker()) && contains_text(
        line,
        stack_marker(),
    ));
    let is_size = starts_with_text(line, size_prefix());
    if in_heap && is_size {
        SmapsState {
            heap: match size_of_line(line) {
                Some(v) => state.heap.push(v),
                None => state.heap,
            },
            stack: state.stack,
            in_heap: false,
            in_stack,
        }
    } else if in_stack && is_size {
        SmapsState {
            heap: state.heap,
            stack: match size_of_line(line) {
                Some(v) => state.stack.push(v),
                None => state.stack,
            },
            in_heap,
            in_stack: false,
        }
    } else {
        SmapsState { heap: state.heap, stack: state.stack, in_heap, in_stack }
    }
}

/// Statistics of the heap and stack sizes read from `smaps`.
pub struct SmapsMonitor {
    heap: Statistics,
    stack: Statistics,
    found_heap: bool,
    found_stack: bool,
}

impl View for SmapsMonitor {
    type V = SmapsState;

    closed spec fn view(&self) -> SmapsState {
        SmapsState {
            heap: self.heap@,
            stack: self.stack@,
            in_heap: self.found_heap,
            in_stack: self.found_stack,
        }
    }
}

/// The size on a `Size:` line.
pub fn line_size(line: &[char]) -> (size: Option<u64>)
    ensures
        size == size_of_line(line@),
{
    match word_at(line, 1) {
        Some(word) => parse_unsigned_chars(word.as_slice(), u64::MAX),
        None => None,
    }
}

impl SmapsMonitor {
    /// The kept statistics agree with the readings.
    pub closed spec fn wf(&self) -> bool {
        self.heap.wf() && self.stack.wf()
    }

    /// No line read yet.
    pub fn new() -> (monitor: SmapsMonitor)
        ensures
            monitor.wf(),
            monitor@ == (SmapsState {
                heap: Seq::empty(),
                stack: Seq::empty(),
                in_heap: false,
                in_stack: false,
            }),
    {
        SmapsMonitor {
            heap: Statistics::new(),
            stack: Statistics::new(),
            found_heap: false,
            found_stack: false,
        }
    }

    /// Reads one line of `smaps`.
    pub fn observe_line(&mut self, line: &str)
        requires
            old(self).wf(),
        ensures
            final(self).wf(),
            final(self)@ == smaps_step(old(self)@, line@),
    {
        let heap_text: Vec<char> = vec!['[', 'h', 'e', 'a', 'p', ']'];
        let stack_text: Vec<char> = vec!['[', 's', 't', 'a', 'c', 'k', ']'];
        let size_text: Vec<char> = vec!['S', 'i', 'z', 'e', ':'];
        assert(heap_text@ == heap_marker());
        assert(stack_text@ == stack_marker());
        assert(size_text@ == size_prefix());
        let chars = chars_of(line);
        if contains_chars(chars.as_slice(), heap_text.as_slice()) {
            self.found_heap = true;
        } else if contains_chars(chars.as_slice(), stack_text.as_slice()) {
            self.found_stack = true;
        }
        let is_size = starts_with_chars(chars.as_slice(), size_text.as_slice());
        if self.found_heap && is_size {
            match line_size(chars.as_slice()) {
                Some(value) => self.heap.record(value),
                None => {},
            }
            self.found_heap = false;
        } else if self.found_stack && is_size {
            match line_size(chars.as_slice()) {
                Some(value) => self.stack.record(value),
                None => {},
            }
            self.found_stack = false;
        }
    }

    /// The statistics of the heap sizes.
    pub fn heap(&self) -> (stats: &Statistics)
        requires
            self.wf(),
        ensures
            stats.wf(),
            stats@ == self@.heap,
    {
        &self.heap
    }

    /// The statistics of the stack sizes.
    pub fn stack(&self) -> (stats: &Statistics)
        requires
            self.wf(),
        ensures
            stats.wf(),
            stats@ == self@.stack,
    {
        &self.stack
    }
}


/// Where a memory region of a Windows process counts.
#[derive(Clone, Copy, Debug, PartialEq, Eq, Structural)]
pub enum RegionKind {
    Stack,
    Heap,
    Other,
}

/// `MEM_COMMIT`: the region's pages are committed.
pub const MEM_COMMIT: u32 = 0x1000;

/// `PAGE_READWRITE`: the region is readable and writable.
pub const PAGE_READWRITE: u32 = 0x04;

/// `MEM_PRIVATE`: the region is private to the process.
pub const MEM_PRIVATE: u32 = 0x20000;

/// A committed, read-write, private region counts as stack when its size is
/// from 0x10000 to 0x210000 bytes, as heap otherwise; any other region does
/// not count.
pub open spec fn region_kind(state: u32, protect: u32, region_type: u32, size: u64) -> RegionKind {
    if state == MEM_COMMIT && protect == PAGE_READWRITE && region_type == MEM_PRIVATE {
        if 0x10000 <= size && size <= 0x210000 {
            RegionKind::Stack
        } else {
            RegionKind::Heap
        }
    } else {
        RegionKind::Other
    }
}


/// A region counts as stack or heap exactly when it is committed (`0x1000`),
/// private (`0x20000`) and its protection is read-write (`0x04`) and nothing
/// else; such a region is stack exactly when its size is from 0x10000 to
/// 0x210000 bytes.
pub proof fn lemma_region_kind_exact(state: u32, protect: u32, region_type: u32, size: u64)
    ensures
        region_kind(state, protect, region_type, size) != RegionKind::Other <==> (state == 0x1000
            && protect == 0x04 && region_type == 0x20000),
        region_kind(state, protect, region_type, size) == RegionKind::Stack <==> (state == 0x1000
            && protect == 0x04 && region_type == 0x20000 && 0x10000 <= size && size <= 0x210000),
{
}

/// Where a region that `VirtualQueryEx` describes by its state, protection,
/// type and size counts.
pub fn classify_windows_region(state: u32, protect: u32, region_type: u32, size: u64) -> (kind:
    RegionKind)
    ensures
        kind == region_kind(state, protect, region_type, size),
{
    if state == MEM_COMMIT && protect == PAGE_READWRITE && region_type == MEM_PRIVATE {
        if 0x10000 <= size && size <= 0x210000 {
            RegionKind::Stack
        } else {
            RegionKind::Heap
        }
    } else {
        RegionKind::Other
    }
}

} // verus!

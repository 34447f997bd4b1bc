//! The virtual memory of the monitored process, sampled at each poll.

use vstd::prelude::*;
use crate::stats::Statistics;
use crate::monitoring::poll::{keep_polling, polls_again, ProcessState};

verus! {

/// Statistics of the virtual memory readings.
pub struct VirtualMemoryMonitor {
    stats: Statistics,
}

impl View for VirtualMemoryMonitor {
    type V = Seq<u64>;

    /// The readings recorded so far.
    closed spec fn view(&self) -> Seq<u64> {
        self.stats@
    }
}

impl VirtualMemoryMonitor {
    /// The kept statistics agree with the readings.
    pub closed spec fn wf(&self) -> bool {
        self.stats.wf()
    }

    /// No reading yet.
    pub fn new() -> (monitor: VirtualMemoryMonitor)
        ensures
            monitor.wf(),
            monitor@ == Seq::<u64>::empty(),
    {
        VirtualMemoryMonitor { stats: Statistics::new() }
    }

    /// Takes one poll: `None` when the process is gone, else its state and
    /// its virtual memory. The reading of a process that is there is
    /// recorded, a zombie's too; the result says whether to poll again.
    pub fn observe(&mut self, poll: Option<(ProcessState, u64)>) -> (again: bool)
        requires
            old(self).wf(),
        ensures
            final(self).wf(),
            again == polls_again(
                match poll {
                    Some((state, _)) => Some(state),
                    None => None,
                },
            ),
            final(self)@ == match poll {
                Some((_, memory)) => old(self)@.push(memory),
                None => old(self)@,
            },
    {
        match poll {
            Some((state, memory)) => {
                self.stats.record(memory);
                keep_polling(Some(state))
            },
            None => false,
        }
    }

    /// The statistics of the readings.
    pub fn stats(&self) -> (stats: &Statistics)
        requires
            self.wf(),
        ensures
            stats.wf(),
            stats@ == self@,
    {
        &self.stats
    }
}

} // verus!

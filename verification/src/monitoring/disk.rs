//! The disk traffic of the monitored process, sampled at each poll.

use vstd::prelude::*;
use crate::stats::Statistics;
use crate::monitoring::poll::{keep_polling, polls_again, ProcessState};

verus! {

/// One reading of disk traffic: bytes read and bytes written since the
/// previous refresh.
#[derive(Clone, Copy, Debug, PartialEq, Eq, Structural)]
pub struct DiskReading {
    pub read_bytes: u64,
    pub written_bytes: u64,
}

/// Statistics of the bytes read and of the bytes written.
pub struct DiskMonitor {
    read: Statistics,
    write: Statistics,
}

impl View for DiskMonitor {
    type V = (Seq<u64>, Seq<u64>);

    /// The bytes read and the bytes written, reading by reading.
    closed spec fn view(&self) -> (Seq<u64>, Seq<u64>) {
        (self.read@, self.write@)
    }
}

impl DiskMonitor {
    /// The kept statistics agree with the readings.
    pub closed spec fn wf(&self) -> bool {
        self.read.wf() && self.write.wf()
    }

    /// No reading yet.
    pub fn new() -> (monitor: DiskMonitor)
        ensures
            monitor.wf(),
            monitor@ == (Seq::<u64>::empty(), Seq::<u64>::empty()),
    {
        DiskMonitor { read: Statistics::new(), write: Statistics::new() }
    }

    /// Takes one poll: `None` when the process is gone, else its state and
    /// its disk reading, which is recorded (a zombie's too); the result says
    /// whether to poll again.
    pub fn observe(&mut self, poll: Option<(ProcessState, DiskReading)>) -> (again: bool)
        requires
            old(self).wf(),
        ensures
            final(self).wf(),
            again == polls_again(
                match poll {
                    Some((state, _)) => Some(state),
                    None => None,
                },
            ),
            final(self)@ == match poll {
                Some((_, reading)) => (
                    old(self)@.0.push(reading.read_bytes),
                    old(self)@.1.push(reading.written_bytes),
                ),
                None => old(self)@,
            },
    {
        match poll {
            Some((state, reading)) => {
                self.read.record(reading.read_bytes);
                self.write.record(reading.written_bytes);
                keep_polling(Some(state))
            },
            None => false,
        }
    }

    /// The statistics of the bytes read.
    pub fn read_stats(&self) -> (stats: &Statistics)
        requires
            self.wf(),
        ensures
            stats.wf(),
            stats@ == self@.0,
    {
        &self.read
    }

    /// The statistics of the bytes written.
    pub fn write_stats(&self) -> (stats: &Statistics)
        requires
            self.wf(),
        ensures
            stats.wf(),
            stats@ == self@.1,
    {
        &self.write
    }
}

} // verus!

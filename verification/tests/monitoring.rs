use perf_monitor::monitoring::child_process::{entry_pid, parent_pid_from_stat, ChildProcessTracker};
use perf_monitor::monitoring::disk::{DiskMonitor, DiskReading};
use perf_monitor::monitoring::memory_allocation::{classify_windows_region, RegionKind, SmapsMonitor};
use perf_monitor::monitoring::poll::{keep_polling, ProcessState};
use perf_monitor::monitoring::thread::{thread_id, ThreadTracker};
use perf_monitor::monitoring::virtual_memory::VirtualMemoryMonitor;

#[test]
fn polling_stops_when_gone_or_zombie() {
    assert!(keep_polling(Some(ProcessState::Running)));
    assert!(!keep_polling(Some(ProcessState::Zombie)));
    assert!(!keep_polling(None));
}

#[test]
fn virtual_memory_records_until_zombie() {
    let mut monitor = VirtualMemoryMonitor::new();
    assert!(monitor.observe(Some((ProcessState::Running, 300))));
    assert!(monitor.observe(Some((ProcessState::Running, 100))));
    assert!(!monitor.observe(Some((ProcessState::Zombie, 900))));
    assert_eq!(monitor.stats().max(), 900);
    assert_eq!(monitor.stats().min(), 100);
    assert!(!monitor.observe(None));
    assert_eq!(monitor.stats().max(), 900);
}

#[test]
fn disk_records_read_and_write() {
    let mut monitor = DiskMonitor::new();
    assert!(monitor.observe(Some((ProcessState::Running, DiskReading { read_bytes: 10, written_bytes: 0 }))));
    assert!(!monitor.observe(Some((ProcessState::Zombie, DiskReading { read_bytes: 4, written_bytes: 8 }))));
    assert_eq!((monitor.read_stats().max(), monitor.read_stats().min()), (10, 4));
    assert_eq!((monitor.write_stats().max(), monitor.write_stats().min()), (8, 0));
}

#[test]
fn stat_parent_pid() {
    assert_eq!(parent_pid_from_stat("4321 (sleep) S 1234 4321 99 0 -1"), Some(1234));
    assert_eq!(parent_pid_from_stat("4321 (sleep) S"), None);
    assert_eq!(parent_pid_from_stat("4321 (my prog) S 1234"), None);
    assert_eq!(parent_pid_from_stat("1 (init) S -1 1"), None);
    assert_eq!(entry_pid("4321"), Some(4321));
    assert_eq!(entry_pid("self"), None);
}

#[test]
fn children_are_handed_out_once() {
    let mut tracker = ChildProcessTracker::new(1234);
    tracker.begin_scan();
    assert!(tracker.observe_stat(50, "50 (a) S 1234 1"));
    assert!(!tracker.observe_stat(51, "51 (b) S 999 1"));
    assert!(tracker.observe_stat(52, "52 (c) R 1234 1"));
    assert_eq!(tracker.scan_count(), 2);
    tracker.end_scan();
    tracker.begin_scan();
    assert!(!tracker.observe_stat(50, "50 (a) S 1234 1"));
    assert!(tracker.is_new_child(53, "53 (d) S 1234 1"));
    assert!(tracker.observe_stat(53, "53 (d) S 1234 1"));
    tracker.end_scan();
    assert_eq!(tracker.max(), 2);
    assert_eq!(tracker.monitored(), vec![50, 52, 53]);
}

#[test]
fn threads_are_kept_once_and_counted_per_scan() {
    let mut tracker = ThreadTracker::new();
    tracker.begin_scan();
    for name in ["100", "101", "x", "102"] {
        tracker.observe_entry(name);
    }
    tracker.end_scan();
    tracker.begin_scan();
    for name in ["100", "103"] {
        tracker.observe_entry(name);
    }
    assert_eq!(tracker.scan_count(), 2);
    tracker.end_scan();
    assert_eq!(tracker.max(), 3);
    assert_eq!(tracker.threads(), vec![100, 101, 102, 103]);
}

#[test]
fn smaps_sizes_of_heap_and_stack() {
    let lines = [
        "55d0e000-55d2f000 rw-p 00000000 00:00 0                          [heap]",
        "Size:                132 kB",
        "KernelPageSize:        4 kB",
        "7ffd1000-7ffd3000 rw-p 00000000 00:00 0                          [stack]",
        "Rss:                   8 kB",
        "Size:                  8 kB",
        "Size:                 64 kB",
        "[heap]",
        "Size:            nonsense",
        "[heap]",
        "Size: 4",
    ];
    let mut monitor = SmapsMonitor::new();
    for line in lines {
        monitor.observe_line(line);
    }
    assert_eq!((monitor.heap().max(), monitor.heap().min()), (132, 4));
    assert_eq!((monitor.stack().max(), monitor.stack().min()), (8, 8));
}

#[test]
fn task_entry_names() {
    assert_eq!(thread_id("4242"), Some(4242));
    assert_eq!(thread_id("4242x"), None);
}

#[test]
fn windows_regions_are_classified() {
    use_classifier();
}

fn use_classifier() {
    let commit = 0x1000;
    let rw = 0x04;
    let private = 0x20000;
    assert_eq!(classify_windows_region(commit, rw, private, 0x10000), RegionKind::Stack);
    assert_eq!(classify_windows_region(commit, rw, private, 0x210000), RegionKind::Stack);
    assert_eq!(classify_windows_region(commit, rw, private, 0xffff), RegionKind::Heap);
    assert_eq!(classify_windows_region(commit, rw, private, 0x210001), RegionKind::Heap);
    assert_eq!(classify_windows_region(0x2000, rw, private, 0x10000), RegionKind::Other);
    assert_eq!(classify_windows_region(commit, 0x02, private, 0x10000), RegionKind::Other);
    assert_eq!(classify_windows_region(commit, rw, 0x40000, 0x10000), RegionKind::Other);
}

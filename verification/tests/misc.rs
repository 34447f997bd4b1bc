use perf_monitor::args::Args;
use perf_monitor::duration::{duration_unit, DurationUnit};
use perf_monitor::process::signal_description;

#[test]
fn concat_args_joins_with_spaces() {
    let args = Args::new(vec!["python3".to_string(), "a.py".to_string(), "--x".to_string()]);
    assert_eq!(args.get_concat_args(), "python3 a.py --x");
    assert_eq!(Args::new(vec![]).get_concat_args(), "");
    assert_eq!(Args::new(vec!["ls".to_string()]).get_concat_args(), "ls");
    assert_eq!(Args::new(vec!["".to_string(), "".to_string()]).get_concat_args(), " ");
}

#[test]
fn program_and_its_arguments() {
    let args = Args::new(vec!["python3".to_string(), "a.py".to_string(), "-v".to_string()]);
    assert_eq!(args.program(), "python3");
    assert_eq!(args.program_arguments(), vec!["a.py".to_string(), "-v".to_string()]);
}

#[test]
fn duration_units_at_thresholds() {
    let cases = [
        (0u128, DurationUnit::Nanoseconds, "ns", 1u128),
        (999, DurationUnit::Nanoseconds, "ns", 1),
        (1_000, DurationUnit::Microseconds, "µs", 1_000),
        (999_999, DurationUnit::Microseconds, "µs", 1_000),
        (1_000_000, DurationUnit::Milliseconds, "ms", 1_000_000),
        (1_000_000_000, DurationUnit::Seconds, "s", 1_000_000_000),
        (59_999_999_999, DurationUnit::Seconds, "s", 1_000_000_000),
        (60_000_000_000, DurationUnit::Minutes, "min", 60_000_000_000),
        (3_600_000_000_000, DurationUnit::Hours, "h", 3_600_000_000_000),
        (u128::MAX, DurationUnit::Hours, "h", 3_600_000_000_000),
    ];
    for (nanos, unit, suffix, per_unit) in cases {
        let got = duration_unit(nanos);
        assert_eq!(got, unit, "nanos {}", nanos);
        assert_eq!(got.suffix(), suffix);
        assert_eq!(got.nanos_per_unit(), per_unit);
    }
}

#[test]
fn signal_text_is_debug_of_option() {
    for signal in [None, Some(9), Some(0), Some(-15), Some(i32::MIN), Some(i32::MAX)] {
        assert_eq!(signal_description(signal), format!("{:?}", signal));
    }
}

#[test]
fn concat_args_split_round_trip() {
    let words = vec!["python3".to_string(), "a.py".to_string(), "".to_string(), "-v".to_string()];
    let line = Args::new(words.clone()).get_concat_args();
    let back: Vec<String> = line.split(' ').map(String::from).collect();
    assert_eq!(back, words);
}

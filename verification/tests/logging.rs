// Tests for the persisted log format: one line per instrument per
// aggregation cycle, `<nanosecond timestamp>,<value to two decimals>`.
use marketfeed::aggregator::Aggregator;
use marketfeed::logline::{format_log_line, log_lines};
use marketfeed::series::Series;

#[test]
fn line_format_is_timestamp_comma_fixed_value() {
    assert_eq!(format_log_line(5, 10300), "5,103.00");
    assert_eq!(format_log_line(123_456_789, 10000), "123456789,100.00");
    assert_eq!(format_log_line(0, 7), "0,0.07");
    assert_eq!(format_log_line(1, 250), "1,2.50");
    assert_eq!(format_log_line(u64::MAX, 1), "18446744073709551615,0.01");
}

#[test]
fn negative_values_carry_a_sign() {
    assert_eq!(format_log_line(9, -5), "9,-0.05");
    assert_eq!(format_log_line(9, -10300), "9,-103.00");
}

#[test]
fn one_cycle_two_instruments_two_lines() {
    let raw = vec![
        Series { id: 0, current_value: 1000, last_update: 0, history: vec![1000] },
        Series { id: 1, current_value: 3000, last_update: 0, history: vec![3000] },
    ];
    let mut a = Aggregator::new(2, 0, 4, 2, 0);
    a.aggregate(&raw, 100);
    let first_cycle = log_lines(&a.snapshot(), 100);
    assert_eq!(first_cycle.len(), 2);
    assert_eq!(first_cycle[0], "100,10.00");
    assert_eq!(first_cycle[1], "100,30.00");

    a.aggregate(&raw, 250);
    let second_cycle = log_lines(&a.snapshot(), 250);
    assert_eq!(second_cycle.len(), 2);

    // Each line matches the documented format, and timestamps strictly
    // increase across successive cycles.
    for line in first_cycle.iter().chain(second_cycle.iter()) {
        let (ts, value) = line.split_once(',').unwrap();
        assert!(!ts.is_empty() && ts.chars().all(|c| c.is_ascii_digit()));
        let digits = value.strip_prefix('-').unwrap_or(value);
        let (units, cents) = digits.split_once('.').unwrap();
        assert!(!units.is_empty() && units.chars().all(|c| c.is_ascii_digit()));
        assert_eq!(cents.len(), 2);
        assert!(cents.chars().all(|c| c.is_ascii_digit()));
    }
    let ts1: u64 = first_cycle[0].split_once(',').unwrap().0.parse().unwrap();
    let ts2: u64 = second_cycle[0].split_once(',').unwrap().0.parse().unwrap();
    assert!(ts2 > ts1);
}

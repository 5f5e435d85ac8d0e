// Tests for the aggregator half of the pipeline: windowed means over a
// frozen raw snapshot, and their stability.
use marketfeed::aggregator::{rolling_avg, window_mean, Aggregator};
use marketfeed::generator::Generator;
use marketfeed::series::Series;

fn frozen_series(id: usize, history: Vec<i64>) -> Series {
    let current_value = *history.last().unwrap();
    Series {
        id,
        current_value,
        last_update: 0,
        history,
    }
}

#[test]
fn mean_of_injected_history() {
    // history [10.00, 20.00, 30.00] with a window of 3 yields 20.00.
    assert_eq!(window_mean(&vec![1000, 2000, 3000], 3), 2000);
}

#[test]
fn window_shorter_history_uses_all_elements() {
    assert_eq!(window_mean(&vec![1000, 2000, 3000], 10), 2000);
    assert_eq!(window_mean(&vec![600], 4), 600);
    assert_eq!(window_mean(&vec![], 4), 0);
}

#[test]
fn window_takes_most_recent_elements() {
    assert_eq!(window_mean(&vec![900_000, 1000, 2000, 3000], 3), 2000);
    assert_eq!(window_mean(&vec![500, 700], 1), 700);
}

#[test]
fn mean_rounds_toward_negative_infinity() {
    assert_eq!(window_mean(&vec![0, 1], 2), 0);
    assert_eq!(window_mean(&vec![0, -1], 2), -1);
    assert_eq!(window_mean(&vec![-5, -6], 2), -6);
}

#[test]
fn rolling_avg_matches_whole_history_mean() {
    assert_eq!(rolling_avg(&vec![1000, 2000, 3000, 4000]), 2500);
    assert_eq!(rolling_avg(&vec![]), 0);
}

#[test]
fn aggregate_derives_windowed_mean_per_instrument() {
    let raw = vec![
        frozen_series(0, vec![1000, 2000, 3000]),
        frozen_series(1, vec![100, 200, 300, 400]),
    ];
    let mut a = Aggregator::new(2, 0, 5, 3, 0);
    a.aggregate(&raw, 9);
    let snap = a.snapshot();
    assert_eq!(snap[0].current_value, 2000);
    assert_eq!(snap[1].current_value, 300);
    assert_eq!(snap[0].last_update, 9);
    assert_eq!(snap[0].history, vec![0, 0, 0, 0, 2000]);
}

#[test]
fn aggregate_twice_is_stable() {
    // With no intervening tick the derived value is the same both times.
    let raw = vec![frozen_series(0, vec![1100, 1300, 1800])];
    let mut a = Aggregator::new(1, 0, 4, 2, 0);
    a.aggregate(&raw, 1);
    let first = a.snapshot()[0].current_value;
    a.aggregate(&raw, 2);
    let second = a.snapshot()[0].current_value;
    assert_eq!(first, second);
    assert_eq!(first, 1550);
}

#[test]
fn aggregate_follows_generator_snapshot() {
    let mut g = Generator::new(2, 10000, 6, 0, true, 0);
    g.tick_with(&vec![0, 0], 1);
    let mut a = Aggregator::new(2, 10000, 6, 4, 0);
    a.aggregate(&g.snapshot(), 2);
    let snap = a.snapshot();
    // A flat raw feed derives the same flat value.
    assert_eq!(snap[0].current_value, 10000);
    assert_eq!(snap[1].current_value, 10000);
    assert_eq!(snap[0].history.len(), 6);
    assert_eq!(*snap[0].history.last().unwrap(), 10000);
}

// Scenario tests for the tick-generator half of the pipeline. Values are
// fixed-point hundredths of a unit: 10000 is 100.00.
use marketfeed::generator::Generator;

#[test]
fn new_generator_prefills_histories() {
    let g = Generator::new(3, 10000, 100, 100, true, 0);
    let snap = g.snapshot();
    assert_eq!(snap.len(), 3);
    for (i, s) in snap.iter().enumerate() {
        assert_eq!(s.id, i);
        assert_eq!(s.current_value, 10000);
        assert_eq!(s.last_update, 0);
        assert_eq!(s.history.len(), 100);
        assert!(s.history.iter().all(|&v| v == 10000));
    }
}

#[test]
fn end_to_end_deterministic_ticks() {
    // One instrument at 100.00, history cap 5, perturbation range [0, 0]:
    // five no-op ticks leave the history flat.
    let mut g = Generator::new(1, 10000, 5, 0, true, 0);
    for t in 1..=5u64 {
        g.tick(t);
    }
    let snap = g.snapshot();
    assert_eq!(snap[0].history, vec![10000, 10000, 10000, 10000, 10000]);
    assert_eq!(snap[0].current_value, 10000);
    assert_eq!(snap[0].last_update, 5);

    // A sixth tick of +3.00 evicts the oldest entry.
    let mut g = Generator {
        max_delta: 300,
        ..g
    };
    g.tick_with(&vec![300], 6);
    let snap = g.snapshot();
    assert_eq!(snap[0].history, vec![10000, 10000, 10000, 10000, 10300]);
    assert_eq!(snap[0].current_value, 10300);
    assert_eq!(snap[0].last_update, 6);
}

#[test]
fn history_never_exceeds_cap() {
    let mut g = Generator::new(2, 5000, 8, 250, false, 0);
    for t in 1..=1000u64 {
        g.tick(t);
        for s in g.snapshot() {
            assert_eq!(s.history.len(), 8);
            assert_eq!(*s.history.last().unwrap(), s.current_value);
        }
    }
}

#[test]
fn clamp_keeps_values_nonnegative() {
    // From a low start, many random ticks with a symmetric range: the
    // clamp floors every value at zero.
    let mut g = Generator::new(1, 100, 16, 500, true, 0);
    for t in 1..=10_000u64 {
        g.tick(t);
        let snap = g.snapshot();
        assert!(snap[0].current_value >= 0);
        assert!(snap[0].history.iter().all(|&v| v >= 0));
    }
}

#[test]
fn downward_biased_deltas_floor_at_zero() {
    let mut g = Generator::new(1, 100, 4, 500, true, 0);
    for t in 1..=50u64 {
        g.tick_with(&vec![-500], t);
        let snap = g.snapshot();
        assert!(snap[0].current_value >= 0);
    }
    assert_eq!(g.snapshot()[0].current_value, 0);
}

#[test]
fn unclamped_values_may_go_negative() {
    let mut g = Generator::new(1, 100, 4, 500, false, 0);
    g.tick_with(&vec![-500], 1);
    assert_eq!(g.snapshot()[0].current_value, -400);
}

#[test]
fn snapshot_is_a_deep_copy() {
    let mut g = Generator::new(2, 10000, 6, 100, true, 0);
    let before = g.snapshot();
    g.tick_with(&vec![100, -100], 1);
    // The earlier snapshot is unaffected by the tick.
    assert!(before[0].history.iter().all(|&v| v == 10000));
    assert_eq!(before[0].current_value, 10000);
    let after = g.snapshot();
    assert_eq!(after[0].current_value, 10100);
    assert_eq!(after[1].current_value, 9900);
}

#[test]
fn snapshot_entries_are_internally_consistent() {
    let mut g = Generator::new(3, 10000, 10, 200, true, 7);
    for t in 8..=40u64 {
        g.tick(t);
        for (i, s) in g.snapshot().iter().enumerate() {
            // Each entry reflects one whole tick: id, latest history
            // entry and current value agree, and the timestamp is the
            // tick's.
            assert_eq!(s.id, i);
            assert_eq!(*s.history.last().unwrap(), s.current_value);
            assert_eq!(s.last_update, t);
        }
    }
}

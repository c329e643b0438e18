use rail::scanner::{build_frequency_list, dwell_polls, ScanAction, ScanOutcome, ScanSweep};

#[test]
fn frequency_list_inclusive_stop() {
    let f = build_frequency_list(87_500_000, 108_000_000, 200_000);
    assert_eq!(f.first(), Some(&87_500_000));
    assert_eq!(f.last(), Some(&107_900_000));
    assert_eq!(f.len(), 103);
}

#[test]
fn frequency_list_single_step() {
    let f = build_frequency_list(100_000_000, 100_000_000, 200_000);
    assert_eq!(f, vec![100_000_000]);
}

#[test]
fn frequency_list_exact_stop() {
    let f = build_frequency_list(100_000_000, 100_400_000, 200_000);
    assert_eq!(f, vec![100_000_000, 100_200_000, 100_400_000]);
}

#[test]
fn frequency_list_degenerate_inputs() {
    assert_eq!(build_frequency_list(5, 100, 0), vec![5]);
    assert_eq!(build_frequency_list(100, 5, 10), vec![100]);
    assert_eq!(
        build_frequency_list(u32::MAX - 5, u32::MAX, 4),
        vec![u32::MAX - 5, u32::MAX - 1, u32::MAX]
    );
}

#[test]
fn sweep_runs_to_completion() {
    let mut s = ScanSweep::new(vec![100, 200], 30);
    assert_eq!(s.next_action(), ScanAction::Retune { tuner_hz: 70, frequency_hz: 100 });
    s.record_measurement(false);
    assert_eq!(s.next_action(), ScanAction::Retune { tuner_hz: 170, frequency_hz: 200 });
    s.skip_current();
    assert_eq!(s.next_action(), ScanAction::Finish(ScanOutcome::Complete));
}

#[test]
fn sweep_stops_on_signal() {
    let mut s = ScanSweep::new(vec![10, 200, 300], 30);
    assert_eq!(s.next_action(), ScanAction::Retune { tuner_hz: 0, frequency_hz: 10 });
    s.record_measurement(false);
    s.record_measurement(true);
    assert_eq!(s.next_action(), ScanAction::Finish(ScanOutcome::StoppedAt(200)));
}

#[test]
fn dwell_poll_counts() {
    assert_eq!(dwell_polls(0), 0);
    assert_eq!(dwell_polls(20), 1);
    assert_eq!(dwell_polls(50), 3);
    assert_eq!(dwell_polls(60), 3);
}

#[test]
fn sweep_rises_and_stays_in_range() {
    let f = build_frequency_list(144_000_000, 146_000_000, 12_500);
    assert_eq!(f[0], 144_000_000);
    assert!(f.windows(2).all(|w| w[0] < w[1]));
    assert!(f.iter().all(|&x| (144_000_000..=146_000_000).contains(&x)));
    assert_eq!(f.len(), 161);
}

#[test]
fn frequency_list_is_a_walk_of_saturating_steps() {
    for (start, stop, step) in [
        (87_500_000u32, 108_000_000u32, 200_000u32),
        (u32::MAX - 5, u32::MAX, 4),
        (u32::MAX - 7, u32::MAX - 1, 3),
        (10, 5, 1),
        (7, 7, 0),
    ] {
        let f = build_frequency_list(start, stop, step);
        assert_eq!(f[0], start);
        for w in f.windows(2) {
            assert_eq!(w[1], w[0].saturating_add(step));
            assert!(w[1] <= stop && w[1] != w[0]);
        }
        let last = *f.last().unwrap();
        let next = last.saturating_add(step);
        assert!(next > stop || next == last);
    }
}

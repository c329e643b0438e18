use rail::perf::{record_audio_emit_interval, record_signal_level_emit_interval, record_waterfall_emit_interval, Ring};

#[test]
fn disabled_profiling_records_nothing() {
    let mut r = Ring::new("waterfall_channel_send".to_string(), 0);
    assert!(record_waterfall_emit_interval(&mut r, false, 10_000_000_000).is_none());
    // Enabling later: the first send only sets the reference time.
    assert!(record_waterfall_emit_interval(&mut r, true, 10_000_000_000).is_none());
}

#[test]
fn summary_after_period() {
    let mut r = Ring::new("audio_channel_send".to_string(), 0);
    assert_eq!(r.label(), "audio_channel_send");
    let mut t = 0u64;
    let mut last = None;
    for i in 0..5u64 {
        t += (i + 1) * 1_000;
        last = record_audio_emit_interval(&mut r, true, t);
    }
    assert!(last.is_none());
    let s = record_audio_emit_interval(&mut r, true, 4_000_000_000).unwrap();
    // Intervals: 2000, 3000, 4000, 5000 and the big gap.
    assert_eq!(s.count, 5);
    assert_eq!(s.p50_ns, 4_000);
    assert_eq!(s.p95_ns, 4_000_000_000 - 15_000);
    assert_eq!(s.avg_ns, (2_000 + 3_000 + 4_000 + 5_000 + (4_000_000_000 - 15_000)) / 5);
    // The period restarted: no summary right after.
    assert!(record_audio_emit_interval(&mut r, true, 4_000_000_100).is_none());
}

#[test]
fn ring_keeps_last_256_intervals() {
    let mut r = Ring::new("signal_level_json_emit".to_string(), 0);
    let mut t = 0u64;
    for i in 0..300u64 {
        t += i + 1;
        r.record_interval(t);
    }
    let s = r.maybe_log(10_000_000_000).unwrap();
    assert_eq!(s.count, 256);
    // Kept intervals are 45..=300; median is the 128th of them.
    assert_eq!(s.p50_ns, 45 + 128);
    assert_eq!(s.p95_ns, 45 + 256 * 95 / 100);
    assert!(record_signal_level_emit_interval(&mut r, true, 10_000_000_001).is_none());
}

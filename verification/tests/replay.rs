use rail::error::RailError;
use rail::replay::{
    meta_path_for, ms_to_sample_idx, prefill_plan, replay_info_from_meta, replay_info_from_meta_bytes,
    ControlAction,
    ReplayControl, ReplayInfo, ReplayRead, ReplayTransport, SigMfMetaFields,
};

fn fields() -> SigMfMetaFields {
    SigMfMetaFields {
        sample_rate: Some(2_048_000),
        center_frequency_hz: Some(100_000_000),
        capture_frequency: Some(99_000_000),
        demod_mode: Some("AM".to_string()),
        filter_bandwidth_hz: Some(10_000),
        datetime: Some("2024-01-01T12:00:00Z".to_string()),
        datatype: Some("cf32_le".to_string()),
    }
}

fn info(rate: u32, total: u64) -> ReplayInfo {
    ReplayInfo {
        data_path: "/a.sigmf-data".to_string(),
        meta_path: "/a.sigmf-meta".to_string(),
        sample_rate_hz: rate,
        center_frequency_hz: 0,
        demod_mode: "FM".to_string(),
        filter_bandwidth_hz: 200_000,
        total_samples: total,
        datetime_iso8601: String::new(),
    }
}

#[test]
fn meta_path_swaps_extension() {
    let p = meta_path_for("/x/y.sigmf-data");
    assert_eq!(p, "/x/y.sigmf-meta");
}

#[test]
fn meta_path_falls_back_when_ext_unexpected() {
    let p = meta_path_for("/x/y.bin");
    assert_eq!(p, "/x/y.sigmf-meta");
}

#[test]
fn meta_path_fallback_follows_the_file_stem() {
    assert_eq!(meta_path_for("/x/y"), "/x/y.sigmf-meta");
    assert_eq!(meta_path_for("/x/y.tar.gz"), "/x/y.tar.sigmf-meta");
    assert_eq!(meta_path_for("/x.d/y"), "/x.d/y.sigmf-meta");
    assert_eq!(meta_path_for("/x/.hidden"), "/x/.hidden.sigmf-meta");
    assert_eq!(meta_path_for("y."), "y.sigmf-meta");
    assert_eq!(meta_path_for("rec.iq"), "rec.sigmf-meta");
}

#[test]
fn ms_to_sample_idx_clamps() {
    assert_eq!(ms_to_sample_idx(1_000, 1_000, 500), 500);
    assert_eq!(ms_to_sample_idx(2_500, 2_000, 10_000), 5_000);
    assert_eq!(ms_to_sample_idx(0, 2_048_000, 10_000), 0);
}

#[test]
fn ms_to_sample_idx_zero_rate_and_saturation() {
    assert_eq!(ms_to_sample_idx(1_000, 0, 500), 0);
    assert_eq!(ms_to_sample_idx(u64::MAX, 2_048_000, u64::MAX), u64::MAX / 1_000);
}

#[test]
fn duration_of_capture() {
    assert_eq!(info(2_048_000, 4_096_000).duration_ms(), 2_000);
    assert_eq!(info(0, 4_096_000).duration_ms(), 0);
}

#[test]
fn info_from_complete_meta() {
    let i = replay_info_from_meta("/a.sigmf-data".into(), "/a.sigmf-meta".into(), 81, fields())
        .unwrap();
    assert_eq!(i.sample_rate_hz, 2_048_000);
    assert_eq!(i.center_frequency_hz, 100_000_000);
    assert_eq!(i.demod_mode, "AM");
    assert_eq!(i.filter_bandwidth_hz, 10_000);
    assert_eq!(i.total_samples, 10);
    assert_eq!(i.datetime_iso8601, "2024-01-01T12:00:00Z");
}

#[test]
fn info_defaults_for_missing_fields() {
    let f = SigMfMetaFields {
        sample_rate: Some(1_000),
        center_frequency_hz: None,
        capture_frequency: Some(99_000_000),
        demod_mode: None,
        filter_bandwidth_hz: None,
        datetime: None,
        datatype: None,
    };
    let i = replay_info_from_meta("d".into(), "m".into(), 16, f).unwrap();
    assert_eq!(i.center_frequency_hz, 99_000_000);
    assert_eq!(i.demod_mode, "FM");
    assert_eq!(i.filter_bandwidth_hz, 200_000);
    assert_eq!(i.datetime_iso8601, "");
}

#[test]
fn info_errors() {
    let mut f = fields();
    f.sample_rate = None;
    assert_eq!(
        replay_info_from_meta("d".into(), "m".into(), 16, f).unwrap_err(),
        RailError::CaptureError("sigmf meta missing or zero core:sample_rate".to_string())
    );
    let mut g = fields();
    g.datatype = Some("ci16_le".to_string());
    assert_eq!(
        replay_info_from_meta("d".into(), "m".into(), 16, g).unwrap_err(),
        RailError::CaptureError(
            "unsupported SigMF datatype ci16_le (RAIL only reads cf32_le)".to_string()
        )
    );
}

#[test]
fn prefill_offsets_end_at_seek_point() {
    let plan = prefill_plan(3_000, 50_000);
    // 40 ms at 50 kHz is 2 000 samples: one full window fits before 3 000.
    assert_eq!(plan.row_byte_offsets, vec![(3_000 - 2_000) * 8]);
    assert_eq!(plan.resume_byte_offset, Some(3_000 * 8));
    let none = prefill_plan(3_000, 10);
    assert!(none.row_byte_offsets.is_empty());
    assert_eq!(none.resume_byte_offset, None);
    let many = prefill_plan(1_000_000, 2_048_000);
    assert_eq!(many.row_byte_offsets.len(), 12);
}

#[test]
fn transport_plays_pauses_seeks_and_stops() {
    let mut t = ReplayTransport::new(&info(1_000, 100));
    assert!(t.is_playing());
    assert_eq!(t.chunk_samples(), 40);
    assert_eq!(t.next_read(), ReplayRead::Chunk { samples: 40 });
    t.advance(40);
    assert_eq!(t.sample_idx(), 40);
    assert_eq!(t.on_control(Some(ReplayControl::Play)), ControlAction::Ignore);
    assert_eq!(t.on_control(Some(ReplayControl::Pause)), ControlAction::Report);
    assert_eq!(t.on_control(Some(ReplayControl::Pause)), ControlAction::Ignore);
    assert!(!t.is_playing());
    assert_eq!(t.on_control(Some(ReplayControl::Play)), ControlAction::ResumeAndReport);
    assert_eq!(
        t.on_control(Some(ReplayControl::Seek { sample_idx: 1_000 })),
        ControlAction::Backfill { sample_idx: 100 }
    );
    assert_eq!(t.next_read(), ReplayRead::Rewind);
    t.rewind();
    assert_eq!(t.sample_idx(), 0);
    assert_eq!(t.on_control(Some(ReplayControl::Stop)), ControlAction::Finish);
    assert_eq!(t.on_control(None), ControlAction::Finish);
}

#[test]
fn transport_last_chunk_is_short_and_position_reports() {
    let mut t = ReplayTransport::new(&info(1_000, 50));
    t.advance(40);
    assert_eq!(t.next_read(), ReplayRead::Chunk { samples: 10 });
    let p = t.position(true);
    assert_eq!(p.sample_idx, 40);
    assert_eq!(p.position_ms, 40);
    assert_eq!(p.total_ms, 50);
    assert!(p.playing);
    let slow = ReplayTransport::new(&info(10, 50));
    assert_eq!(slow.chunk_samples(), 1);
}

#[test]
fn meta_bytes_full_document_reads_every_field() {
    let doc = br#"{
        "global": {
            "core:datatype": "cf32_le",
            "core:sample_rate": 2048000,
            "core:version": "1.0.0",
            "core:description": "d",
            "core:author": "a",
            "rail:center_frequency_hz": 100000000,
            "rail:tuner_gain_db": 19.7,
            "rail:demod_mode": "AM",
            "rail:filter_bandwidth_hz": 10000
        },
        "captures": [
            {"core:sample_start": 0, "core:datetime": "2024-01-01T12:00:00Z", "core:frequency": 100000000}
        ],
        "annotations": []
    }"#;
    let i = replay_info_from_meta_bytes("/a.sigmf-data".into(), "/a.sigmf-meta".into(), 81, doc)
        .unwrap();
    assert_eq!(i.sample_rate_hz, 2_048_000);
    assert_eq!(i.center_frequency_hz, 100_000_000);
    assert_eq!(i.demod_mode, "AM");
    assert_eq!(i.filter_bandwidth_hz, 10_000);
    assert_eq!(i.total_samples, 10);
    assert_eq!(i.datetime_iso8601, "2024-01-01T12:00:00Z");
    assert_eq!(i.meta_path, "/a.sigmf-meta");
}

#[test]
fn meta_bytes_loose_document_takes_defaults() {
    let doc = br#"{"global": {"core:sample_rate": 1024000}, "captures": [{"core:frequency": 433920000}]}"#;
    let i = replay_info_from_meta_bytes("d".into(), "m".into(), 16, doc).unwrap();
    assert_eq!(i.sample_rate_hz, 1_024_000);
    assert_eq!(i.center_frequency_hz, 433_920_000);
    assert_eq!(i.demod_mode, "FM");
    assert_eq!(i.filter_bandwidth_hz, 200_000);
    assert_eq!(i.datetime_iso8601, "");
    assert_eq!(i.total_samples, 2);
}

#[test]
fn meta_bytes_refusals() {
    match replay_info_from_meta_bytes("d".into(), "m".into(), 16, b"not json") {
        Err(RailError::CaptureError(m)) => assert!(m.starts_with("sigmf meta parse: ")),
        other => panic!("unexpected {other:?}"),
    }
    assert_eq!(
        replay_info_from_meta_bytes("d".into(), "m".into(), 16, b"{}").unwrap_err(),
        RailError::CaptureError("sigmf meta missing or zero core:sample_rate".to_string())
    );
    let doc = br#"{"global": {"core:sample_rate": 8000, "core:datatype": "ci16_le"}}"#;
    assert_eq!(
        replay_info_from_meta_bytes("d".into(), "m".into(), 16, doc).unwrap_err(),
        RailError::CaptureError(
            "unsupported SigMF datatype ci16_le (RAIL only reads cf32_le)".to_string()
        )
    );
}

use rail::capture::{
    build_header, capture_duration_ms, check_png, iso8601_compact, name_at, suggested_name,
    suggested_name_at, temp_file_name, timestamp_at, timestamp_now, wav_size_fields, RecorderSlot, RecordingKind,
    SigMfCapture, StopAudioCaptureReply, StopIqCaptureReply,
};
use rail::clock::secs_from_nanos;
use rail::error::RailError;

#[test]
fn iso8601_is_20240101t000000z_at_epoch_plus_one_day() {
    assert_eq!(iso8601_compact(86_400), "19700102T000000Z");
}

#[test]
fn iso8601_matches_2024_01_02_12_34_56() {
    assert_eq!(iso8601_compact(1_704_198_896), "20240102T123456Z");
}

#[test]
fn suggested_name_is_formatted_as_expected() {
    let name = suggested_name(100_100_000, "wav").unwrap();
    assert!(name.starts_with("RAIL_100.100MHz_"));
    assert!(name.ends_with(".wav"));
}

#[test]
fn iso8601_epoch_and_leap_day() {
    assert_eq!(iso8601_compact(0), "19700101T000000Z");
    // 2000-02-29T23:59:59Z
    assert_eq!(iso8601_compact(951_868_799), "20000229T235959Z");
    // 2100-03-01T00:00:00Z (2100 is not a leap year)
    assert_eq!(iso8601_compact(4_107_542_400), "21000301T000000Z");
}

#[test]
fn suggested_name_at_fixed_time() {
    assert_eq!(
        suggested_name_at(100_100_000, "wav", 1_704_198_896),
        "RAIL_100.100MHz_20240102T123456Z.wav"
    );
    assert_eq!(
        suggested_name_at(7_074_000, "sigmf-data", 86_400),
        "RAIL_7.074MHz_19700102T000000Z.sigmf-data"
    );
    assert_eq!(
        suggested_name_at(98_765_432, "png", 0),
        "RAIL_98.765MHz_19700101T000000Z.png"
    );
}

#[test]
fn wav_header_fields() {
    let h = build_header(4, 44_100);
    assert_eq!(&h[0..4], b"RIFF");
    assert_eq!(u32::from_le_bytes(h[4..8].try_into().unwrap()), 36 + 16);
    assert_eq!(&h[8..12], b"WAVE");
    assert_eq!(&h[12..16], b"fmt ");
    assert_eq!(u32::from_le_bytes(h[16..20].try_into().unwrap()), 16);
    assert_eq!(u16::from_le_bytes(h[20..22].try_into().unwrap()), 3);
    assert_eq!(u16::from_le_bytes(h[22..24].try_into().unwrap()), 1);
    assert_eq!(u32::from_le_bytes(h[24..28].try_into().unwrap()), 44_100);
    assert_eq!(u32::from_le_bytes(h[28..32].try_into().unwrap()), 44_100 * 4);
    assert_eq!(u16::from_le_bytes(h[32..34].try_into().unwrap()), 4);
    assert_eq!(u16::from_le_bytes(h[34..36].try_into().unwrap()), 32);
    assert_eq!(&h[36..40], b"data");
    assert_eq!(u32::from_le_bytes(h[40..44].try_into().unwrap()), 16);
}

#[test]
fn wav_size_fields_for_small_and_huge_counts() {
    assert_eq!(wav_size_fields(5), (36 + 20, 20));
    assert_eq!(wav_size_fields(0), (36, 0));
    assert_eq!(wav_size_fields(u64::MAX), (u32::MAX, u32::MAX));
}

#[test]
fn recorder_slot_allows_one_recording() {
    let mut slot: RecorderSlot<u32> = RecorderSlot::new(RecordingKind::Audio);
    assert!(!slot.is_recording());
    assert!(slot.check_can_start().is_ok());
    slot.start(7);
    assert!(slot.is_recording());
    assert_eq!(
        slot.check_can_start(),
        Err(RailError::CaptureError("audio recording already in progress".to_string()))
    );
    assert_eq!(slot.stop(), Ok(7));
    assert_eq!(
        slot.stop(),
        Err(RailError::CaptureError("no audio recording in progress".to_string()))
    );
}

#[test]
fn recorder_slot_iq_messages_and_abandon() {
    let mut slot: RecorderSlot<u32> = RecorderSlot::new(RecordingKind::Iq);
    slot.start(1);
    assert_eq!(
        slot.check_can_start(),
        Err(RailError::CaptureError("IQ recording already in progress".to_string()))
    );
    if let Some(w) = slot.writer_mut() {
        *w = 2;
    }
    slot.abandon();
    assert!(!slot.is_recording());
    assert_eq!(
        slot.stop(),
        Err(RailError::CaptureError("no IQ recording in progress".to_string()))
    );
}

#[test]
fn capture_duration_rounds_down_and_handles_zero_rate() {
    assert_eq!(capture_duration_ms(44_100, 44_100), 1_000);
    assert_eq!(capture_duration_ms(100, 44_100), 2);
    assert_eq!(capture_duration_ms(100, 0), 0);
    assert_eq!(capture_duration_ms(u64::MAX, 1_000), u64::MAX / 1_000);
}

#[test]
fn temp_file_name_is_hex_nanos() {
    assert_eq!(temp_file_name(255, "wav"), "rail-ff.wav");
    assert_eq!(temp_file_name(0, "sigmf-data"), "rail-0.sigmf-data");
    assert_eq!(
        temp_file_name(1_700_000_000_123_456_789, "png"),
        format!("rail-{:x}.png", 1_700_000_000_123_456_789u128)
    );
}

#[test]
fn png_signature_is_checked() {
    let good = vec![0x89, b'P', b'N', b'G', b'\r', b'\n', 0x1a, b'\n', 0, 1];
    assert!(check_png(&good).is_ok());
    let short = vec![0x89, b'P', b'N', b'G'];
    assert_eq!(
        check_png(&short),
        Err(RailError::CaptureError("expected PNG bytes".to_string()))
    );
    let mut bad = good.clone();
    bad[3] = b'X';
    assert!(check_png(&bad).is_err());
}

#[test]
fn sigmf_capture_segment_starts_at_zero() {
    let c = SigMfCapture::at_start("20240102T123456Z".to_string(), 100_000_000);
    assert_eq!(c.sample_start, 0);
    assert_eq!(c.datetime, "20240102T123456Z");
    assert_eq!(c.frequency, 100_000_000);
}

#[test]
fn stop_replies_carry_duration() {
    let a = StopAudioCaptureReply::new(
        "/t/a.wav".to_string(),
        "n.wav".to_string(),
        98_000_000,
        "FM".to_string(),
        88_200,
        44_100,
    );
    assert_eq!(a.duration_ms, 2_000);
    assert_eq!(a.mode, "FM");
    let q = StopIqCaptureReply::new(
        "/t/a.sigmf-meta".to_string(),
        "/t/a.sigmf-data".to_string(),
        "n.sigmf-data".to_string(),
        98_000_000,
        1_024_000,
        2_048_000,
    );
    assert_eq!(q.duration_ms, 500);
    assert_eq!(q.frequency_hz, 98_000_000);
}

#[test]
fn clock_readings_become_whole_seconds() {
    assert_eq!(secs_from_nanos(0), 0);
    assert_eq!(secs_from_nanos(999_999_999), 0);
    assert_eq!(secs_from_nanos(1_704_198_896_123_456_789), 1_704_198_896);
    assert_eq!(secs_from_nanos(u64::MAX as u128 * 1_000_000_000 + 999_999_999), u64::MAX);
}

#[test]
fn timestamp_and_name_at_a_reading() {
    assert_eq!(timestamp_at(1_704_198_896), Ok("20240102T123456Z".to_string()));
    assert_eq!(
        name_at(100_100_000, "wav", 1_704_198_896),
        Ok("RAIL_100.100MHz_20240102T123456Z.wav".to_string())
    );
    let refused = Err(RailError::CaptureError("clock reading out of range".to_string()));
    assert_eq!(timestamp_at(u64::MAX), refused);
    assert_eq!(name_at(100_100_000, "wav", u64::MAX), refused);
    let stamp = timestamp_now().unwrap();
    assert_eq!(stamp.len(), 16);
    assert!(stamp.ends_with('Z'));
}

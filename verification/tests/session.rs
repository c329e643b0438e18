use rail::error::RailError;
use rail::replay::ReplayInfo;
use rail::session::{
    carrier_for, check_bandwidth, check_idle, check_replay, check_running, check_tuner,
    lo_offset_hz, manual_gain, parse_mode, radio_snapshot, requested_sample_rate,
    sample_rate_candidates, seek_target, session_gains, session_poisoned, tuner_center_for,
    DemodMode, LiveTuning, RadioSession, RateProbe, ReplayInfoReply, SessionSource, StartKind,
    StartReplayReply, StartStreamReply, TuneRequest,
};

fn invalid(msg: &str) -> RailError {
    RailError::InvalidParameter(msg.to_string())
}

fn capture(rate: u32, total: u64) -> ReplayInfo {
    ReplayInfo {
        data_path: "/x/y.sigmf-data".to_string(),
        meta_path: "/x/y.sigmf-meta".to_string(),
        sample_rate_hz: rate,
        center_frequency_hz: 98_000_000,
        demod_mode: String::new(),
        filter_bandwidth_hz: 0,
        total_samples: total,
        datetime_iso8601: "20240102T123456Z".to_string(),
    }
}

#[test]
fn sample_rate_candidates_keep_requested_first() {
    let c = sample_rate_candidates(2_400_000);
    assert_eq!(c[0], 2_400_000);
    assert!(c.contains(&2_048_000));
}

#[test]
fn sample_rate_candidates_dedup_requested_rate() {
    let c = sample_rate_candidates(2_048_000);
    let count = c.iter().filter(|&&hz| hz == 2_048_000).count();
    assert_eq!(count, 1);
}

#[test]
fn sample_rate_candidates_full_order() {
    assert_eq!(
        sample_rate_candidates(2_400_000),
        vec![2_400_000, 2_048_000, 1_800_000, 1_400_000, 1_024_000, 900_000]
    );
    assert_eq!(
        sample_rate_candidates(1_400_000),
        vec![1_400_000, 2_048_000, 1_800_000, 1_024_000, 900_000]
    );
}

#[test]
fn requested_rate_defaults() {
    assert_eq!(requested_sample_rate(None), 2_048_000);
    assert_eq!(requested_sample_rate(Some(1_024_000)), 1_024_000);
}

#[test]
fn rate_probe_takes_first_accepted() {
    let mut p = RateProbe::new(2_400_000);
    assert_eq!(p.next_candidate(), Some(2_400_000));
    p.refuse("stream error: rtlsdr_set_sample_rate -> -1");
    assert_eq!(p.next_candidate(), Some(2_048_000));
    p.accept();
    assert_eq!(p.next_candidate(), None);
    assert_eq!(p.outcome(), Ok(2_048_000));
}

#[test]
fn rate_probe_reports_every_refusal() {
    let mut p = RateProbe::new(2_048_000);
    while let Some(_) = p.next_candidate() {
        p.refuse("bad");
    }
    assert_eq!(
        p.outcome(),
        Err(RailError::StreamError(
            "failed to set sample rate (requested 2048000): 2048000: bad | 1800000: bad | \
             1400000: bad | 1024000: bad | 900000: bad"
                .to_string()
        ))
    );
}

#[test]
fn lo_offset_and_carrier_round_trip() {
    assert_eq!(lo_offset_hz(2_048_000), 512_000);
    assert_eq!(tuner_center_for(100_000_000, 2_048_000), 99_488_000);
    assert_eq!(carrier_for(99_488_000, 2_048_000), 100_000_000);
    assert_eq!(tuner_center_for(100_000, 2_048_000), 0);
    assert_eq!(carrier_for(u32::MAX - 10, 2_048_000), u32::MAX);
}

#[test]
fn parse_mode_accepts_all_six_modes() {
    assert_eq!(parse_mode("FM"), Ok(DemodMode::Fm));
    assert_eq!(parse_mode("NFM"), Ok(DemodMode::Nfm));
    assert_eq!(parse_mode("AM"), Ok(DemodMode::Am));
    assert_eq!(parse_mode("USB"), Ok(DemodMode::Usb));
    assert_eq!(parse_mode("LSB"), Ok(DemodMode::Lsb));
    assert_eq!(parse_mode("CW"), Ok(DemodMode::Cw));
    assert_eq!(DemodMode::Fm.name(), "FM");
    assert_eq!(DemodMode::Am.name(), "AM");
    assert_eq!(DemodMode::Cw.name(), "CW");
}

#[test]
fn parse_mode_refuses_unknown() {
    assert_eq!(parse_mode("fm"), Err(invalid("unknown mode: fm")));
    assert_eq!(parse_mode("WFM"), Err(invalid("unknown mode: WFM")));
    assert_eq!(parse_mode(""), Err(invalid("unknown mode: ")));
}

#[test]
fn live_session_defaults() {
    let s = RadioSession::live(2_048_000, 100_000_000, vec![0, 9, 14]);
    assert_eq!(s.mode, "FM");
    assert_eq!(s.bandwidth_hz, 200_000);
    assert_eq!(s.gain_tenths_db, None);
    assert_eq!(session_gains(Some(&s)), vec![0, 9, 14]);
    assert_eq!(session_gains(None), Vec::<i32>::new());
}

#[test]
fn replay_session_takes_capture_settings() {
    let mut info = capture(2_048_000, 10);
    info.center_frequency_hz = 5_000_000_000;
    let s = RadioSession::replay(info);
    assert_eq!(s.frequency_hz, u32::MAX);
    assert_eq!(s.mode, "FM");
    assert_eq!(s.bandwidth_hz, 200_000);
    assert_eq!(session_gains(Some(&s)), Vec::<i32>::new());
    let mut info2 = capture(2_048_000, 10);
    info2.demod_mode = "AM".to_string();
    info2.filter_bandwidth_hz = 10_000;
    let s2 = RadioSession::replay(info2);
    assert_eq!(s2.mode, "AM");
    assert_eq!(s2.bandwidth_hz, 10_000);
    assert_eq!(s2.frequency_hz, 98_000_000);
}

#[test]
fn set_mode_records_wire_name() {
    let mut s = RadioSession::live(2_048_000, 100_000_000, vec![]);
    s.set_mode(DemodMode::Am);
    assert_eq!(s.mode, "AM");
    s.set_mode(DemodMode::Usb);
    assert_eq!(s.mode, "USB");
}

#[test]
fn start_refused_while_running() {
    let s = RadioSession::live(2_048_000, 100_000_000, vec![]);
    assert!(check_idle(None, StartKind::Stream).is_ok());
    assert_eq!(check_idle(Some(&s), StartKind::Stream), Err(invalid("stream already running")));
    assert_eq!(
        check_idle(Some(&s), StartKind::Replay),
        Err(invalid("stop the current stream before opening a file"))
    );
    assert_eq!(check_running(None), Err(invalid("stream not running")));
    assert!(check_running(Some(&s)).is_ok());
}

#[test]
fn tuner_checks() {
    let live = RadioSession::live(2_048_000, 100_000_000, vec![]);
    let replay = RadioSession::replay(capture(2_048_000, 10));
    assert!(check_tuner(Some(&live), TuneRequest::Gain).is_ok());
    assert_eq!(check_tuner(None, TuneRequest::Gain), Err(invalid("stream not running")));
    assert_eq!(
        check_tuner(Some(&replay), TuneRequest::Gain),
        Err(invalid("gain cannot be changed during replay"))
    );
    assert_eq!(
        check_tuner(Some(&replay), TuneRequest::Retune),
        Err(invalid("retune is not supported during replay"))
    );
    assert_eq!(
        check_tuner(Some(&replay), TuneRequest::Ppm),
        Err(invalid("PPM correction is not available during replay"))
    );
    let mut gone = RadioSession::live(2_048_000, 100_000_000, vec![]);
    gone.source = SessionSource::Live(LiveTuning { tuner_available: false, gains: vec![] });
    assert_eq!(check_tuner(Some(&gone), TuneRequest::Ppm), Err(invalid("tuner unavailable")));
}

#[test]
fn manual_gain_rules() {
    let gains = vec![0, 9, 14, 27];
    assert_eq!(manual_gain(&gains, None), Err(invalid("manual gain requires tenthsDb")));
    assert_eq!(manual_gain(&gains, Some(14)), Ok(14));
    assert_eq!(manual_gain(&gains, Some(15)), Err(invalid("gain 15 not in supported set")));
    assert_eq!(manual_gain(&gains, Some(-10)), Err(invalid("gain -10 not in supported set")));
    assert_eq!(manual_gain(&vec![], Some(123)), Ok(123));
}

#[test]
fn bandwidth_floor() {
    assert_eq!(check_bandwidth(999), Err(invalid("bandwidth must be >= 1 kHz")));
    assert!(check_bandwidth(1_000).is_ok());
}

#[test]
fn replay_transport_checks_and_seek() {
    let live = RadioSession::live(2_048_000, 100_000_000, vec![]);
    let replay = RadioSession::replay(capture(1_000, 500));
    assert_eq!(check_replay(None), Err(invalid("no session running")));
    assert_eq!(check_replay(Some(&live)), Err(invalid("no replay in progress")));
    assert!(check_replay(Some(&replay)).is_ok());
    assert_eq!(seek_target(Some(&replay), 250), Ok(250));
    assert_eq!(seek_target(Some(&replay), 1_000), Ok(500));
    assert_eq!(seek_target(Some(&live), 10), Err(invalid("no replay in progress")));
    assert_eq!(seek_target(None, 10), Err(invalid("no session running")));
}

#[test]
fn snapshot_copies_tuning() {
    let mut s = RadioSession::live(2_048_000, 100_000_000, vec![]);
    s.gain_tenths_db = Some(9);
    let snap = radio_snapshot(Some(&s)).unwrap();
    assert_eq!(snap.frequency_hz, 100_000_000);
    assert_eq!(snap.mode, "FM");
    assert_eq!(snap.gain_tenths_db, Some(9));
    assert_eq!(snap.sample_rate_hz, 2_048_000);
    assert!(radio_snapshot(None).is_err());
}

#[test]
fn poisoned_lock_is_stream_error() {
    let err = std::sync::PoisonError::new(0u8);
    assert_eq!(
        session_poisoned(err),
        RailError::StreamError("session lock poisoned".to_string())
    );
}

#[test]
fn replies_carry_constants() {
    let r = StartStreamReply::new(2_048_000, 100_000_000, vec![1, 2]);
    assert_eq!(r.fft_size, 8192);
    assert_eq!(r.audio_sample_rate_hz, 44_100);
    assert_eq!(r.audio_chunk_samples, 1764);
    assert_eq!(r.available_gains_tenths_db, vec![1, 2]);
    let info = capture(2_048_000, 4_096_000);
    let reply = ReplayInfoReply::from_info(&info);
    assert_eq!(reply.duration_ms, 2_000);
    assert_eq!(reply.data_path, "/x/y.sigmf-data");
    let session = RadioSession::replay(capture(2_048_000, 4_096_000));
    let start = StartReplayReply::new(&session, &info);
    assert_eq!(start.frequency_hz, 98_000_000);
    assert_eq!(start.info.total_samples, 4_096_000);
}

#[test]
fn recorded_mode_names_parse_back() {
    for m in [
        DemodMode::Fm,
        DemodMode::Nfm,
        DemodMode::Am,
        DemodMode::Usb,
        DemodMode::Lsb,
        DemodMode::Cw,
    ] {
        assert_eq!(parse_mode(m.name()), Ok(m));
    }
}

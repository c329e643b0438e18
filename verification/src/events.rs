//! Payloads of the JSON events sent to the front end. Emitting them is
//! done by the desktop shell.
use crate::classifier::Mode;
use vstd::prelude::*;
use vstd::string::*;

verus! {

/// Payload of the `device-status` event.
#[derive(Debug, Clone)]
pub struct DeviceStatus {
    pub connected: bool,
    pub error: Option<String>,
}

impl DeviceStatus {
    /// A device that is connected and streaming.
    pub fn connected() -> (r: Self)
        ensures
            r.connected,
            r.error is None,
    {
        DeviceStatus { connected: true, error: None }
    }

    /// A device that went away, with the reason.
    pub fn disconnected_with(err: String) -> (r: Self)
        ensures
            !r.connected,
            r.error matches Some(e) && e@ == err@,
    {
        DeviceStatus { connected: false, error: Some(err) }
    }
}

/// Payload of the `scan-step` event: the frequency the scanner just tuned.
#[derive(Debug, Clone, Copy)]
pub struct ScanStep {
    pub frequency_hz: u32,
}

/// Payload of the `scan-complete` event: a sweep visited every frequency.
#[derive(Debug, Clone, Copy)]
pub struct ScanComplete;

/// Payload of the `scan-stopped` event: a sweep stopped on a signal.
#[derive(Debug, Clone, Copy)]
pub struct ScanStopped {
    pub frequency_hz: u32,
}

/// Payload of the `signal-classification` event.
#[derive(Debug, Clone)]
pub struct SignalClassification {
    pub confirmed: Option<Mode>,
    pub candidates: Vec<Mode>,
    pub reason: String,
}

/// Payload of the `replay-position` event.
#[derive(Debug, Clone, Copy)]
pub struct ReplayPosition {
    pub sample_idx: u64,
    pub position_ms: u64,
    pub total_ms: u64,
    pub playing: bool,
}

impl ReplayPosition {
    /// A replay position report.
    pub fn new(sample_idx: u64, position_ms: u64, total_ms: u64, playing: bool) -> (r: Self)
        ensures
            r.sample_idx == sample_idx,
            r.position_ms == position_ms,
            r.total_ms == total_ms,
            r.playing == playing,
    {
        ReplayPosition { sample_idx, position_ms, total_ms, playing }
    }
}

} // verus!

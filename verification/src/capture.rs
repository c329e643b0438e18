//! Capture support: file names for saved recordings, the WAV header and
//! its size fields, and the bookkeeping of in-progress recordings.
use crate::calendar::{civil_days_in_range, civil_from_days, days_from_civil, is_valid_date};
use crate::calendar::lemma_nonnegative_days_year;
use crate::clock::{is_clock_error_text, now_secs};
use crate::error::{RailError, RailErrorView};
use crate::replay::{duration_of, samples_to_ms};
use crate::text::{decimal, hex, push_padded, zero_pad};
use vstd::prelude::*;
use vstd::string::*;

verus! {

/// `n` rendered in decimal and zero-padded to `width` characters.
pub open spec fn padded(n: int, width: nat) -> Seq<char> {
    zero_pad(decimal(n as nat), width)
}

/// `YYYYMMDDTHHMMSSZ` for a calendar date and a second of that day.
pub open spec fn compact_timestamp(y: int, m: int, d: int, second_of_day: int) -> Seq<char> {
    padded(y, 4) + padded(m, 2) + padded(d, 2) + seq!['T'] + padded(second_of_day / 3600, 2)
        + padded(second_of_day % 3600 / 60, 2) + padded(second_of_day % 60, 2) + seq!['Z']
}

/// Epoch seconds whose calendar year [`iso8601_compact`] can represent.
pub open spec fn timestamp_in_range(epoch_secs: int) -> bool {
    civil_days_in_range(epoch_secs / 86400)
}

/// UTC time as `YYYYMMDDTHHMMSSZ` (ISO 8601 basic format, no separators)
/// for a count of seconds since the Unix epoch.
pub fn iso8601_compact(epoch_secs: u64) -> (r: String)
    requires
        timestamp_in_range(epoch_secs as int),
    ensures
        exists|y: int, m: int, d: int|
            #![trigger days_from_civil(y, m, d)]
            is_valid_date(y, m, d) && days_from_civil(y, m, d) == epoch_secs / 86400 && r@
                == compact_timestamp(y, m, d, (epoch_secs % 86400) as int),
{
    let days: u64 = epoch_secs / 86400;
    let secs_of_day: u64 = epoch_secs % 86400;
    let (y, m, d) = civil_from_days(days as i64);
    proof {
        lemma_nonnegative_days_year(y as int, m as int, d as int);
    }
    let h: u64 = secs_of_day / 3600;
    let mi: u64 = (secs_of_day % 3600) / 60;
    let se: u64 = secs_of_day % 60;
    let mut out = String::new();
    push_padded(&mut out, y as u128, 10, 4);
    push_padded(&mut out, m as u128, 10, 2);
    push_padded(&mut out, d as u128, 10, 2);
    proof {
        reveal_strlit("T");
        reveal_strlit("Z");
    }
    out.append("T");
    push_padded(&mut out, h as u128, 10, 2);
    push_padded(&mut out, mi as u128, 10, 2);
    push_padded(&mut out, se as u128, 10, 2);
    out.append("Z");
    proof {
        assert(out@ =~= compact_timestamp(y as int, m as int, d as int, secs_of_day as int));
    }
    out
}

/// The text of a clock reading whose year does not fit a timestamp.
pub open spec fn out_of_range_text() -> Seq<char> {
    "clock reading out of range"@
}

/// Whether `stamp` is the timestamp [`iso8601_compact`] gives for
/// `epoch_secs`.
pub open spec fn is_compact_timestamp_of(stamp: Seq<char>, epoch_secs: int) -> bool {
    exists|y: int, m: int, d: int|
        #![trigger days_from_civil(y, m, d)]
        is_valid_date(y, m, d) && days_from_civil(y, m, d) == epoch_secs / 86400 && stamp
            == compact_timestamp(y, m, d, epoch_secs % 86400)
}

/// The out-of-range test on a clock reading, in the arithmetic of
/// [`civil_days_in_range`].
fn reading_in_range(epoch_secs: u64) -> (r: bool)
    ensures
        r == timestamp_in_range(epoch_secs as int),
{
    (epoch_secs / 86400 + 719468) / 146097 <= 5_368_708
}

/// The UTC timestamp of a clock reading of `epoch_secs` seconds: what
/// [`iso8601_compact`] gives, or a `CaptureError` when its year does not
/// fit.
pub fn timestamp_at(epoch_secs: u64) -> (r: Result<String, RailError>)
    ensures
        (r is Ok) == timestamp_in_range(epoch_secs as int),
        r matches Ok(stamp) ==> is_compact_timestamp_of(stamp@, epoch_secs as int),
        r matches Err(e) ==> e@ == RailErrorView::CaptureError(out_of_range_text()),
{
    if !reading_in_range(epoch_secs) {
        proof {
            reveal_strlit("clock reading out of range");
        }
        return Err(RailError::CaptureError(String::from_str("clock reading out of range")));
    }
    let stamp = iso8601_compact(epoch_secs);
    Ok(stamp)
}

/// The current UTC time as `YYYYMMDDTHHMMSSZ`: [`timestamp_at`] of the
/// reading of [`now_secs`]. Fails when the system clock cannot be read, or
/// reads a time whose year does not fit.
pub fn timestamp_now() -> (r: Result<String, RailError>)
    ensures
        r matches Err(e) ==> (e@ matches RailErrorView::CaptureError(m) && (is_clock_error_text(m)
            || m == out_of_range_text())),
        r matches Ok(stamp) ==> exists|secs: int|
            0 <= secs && timestamp_in_range(secs) && is_compact_timestamp_of(stamp@, secs),
{
    let secs = now_secs()?;
    timestamp_at(secs)
}

/// Thousandths of a MHz in `frequency_hz`, rounded to the nearest kHz,
/// with half a kHz rounding up. This is integer rounding: a name rendered
/// from the frequency as a binary floating-point number of MHz can round
/// a half kHz either way (100 001 500 Hz gives `100.002` here where such
/// formatting gives `100.001`); on whole kHz the two agree.
pub open spec fn rounded_khz(frequency_hz: int) -> int {
    (frequency_hz + 500) / 1000
}

/// `RAIL_<MHz with three decimals>MHz_<timestamp>.<ext>`.
pub open spec fn capture_file_name(frequency_hz: int, ext: Seq<char>, stamp: Seq<char>) -> Seq<
    char,
> {
    let khz = rounded_khz(frequency_hz);
    seq!['R', 'A', 'I', 'L', '_'] + decimal((khz / 1000) as nat) + seq!['.'] + padded(khz % 1000, 3)
        + seq!['M', 'H', 'z', '_'] + stamp + seq!['.'] + ext
}

/// The suggested file name for a recording of `frequency_hz` made at
/// `epoch_secs`, with extension `ext`.
pub fn suggested_name_at(frequency_hz: u64, ext: &str, epoch_secs: u64) -> (r: String)
    requires
        timestamp_in_range(epoch_secs as int),
    ensures
        exists|y: int, m: int, d: int|
            #![trigger days_from_civil(y, m, d)]
            is_valid_date(y, m, d) && days_from_civil(y, m, d) == epoch_secs / 86400 && r@
                == capture_file_name(
                frequency_hz as int,
                ext@,
                compact_timestamp(y, m, d, (epoch_secs % 86400) as int),
            ),
{
    let khz: u128 = (frequency_hz as u128 + 500) / 1000;
    let stamp = iso8601_compact(epoch_secs);
    let mut out = String::new();
    proof {
        reveal_strlit("RAIL_");
        reveal_strlit(".");
        reveal_strlit("MHz_");
    }
    out.append("RAIL_");
    crate::text::push_digits(&mut out, khz / 1000, 10);
    out.append(".");
    push_padded(&mut out, khz % 1000, 10, 3);
    out.append("MHz_");
    out.append(stamp.as_str());
    out.append(".");
    out.append(ext);
    proof {
        let (y, m, d) = choose|y: int, m: int, d: int|
            #![trigger days_from_civil(y, m, d)]
            is_valid_date(y, m, d) && days_from_civil(y, m, d) == epoch_secs / 86400 && stamp@
                == compact_timestamp(y, m, d, (epoch_secs % 86400) as int);
        assert(out@ =~= capture_file_name(
            frequency_hz as int,
            ext@,
            compact_timestamp(y, m, d, (epoch_secs % 86400) as int),
        ));
    }
    out
}

/// Whether `name` is the name [`suggested_name_at`] gives for a recording
/// of `frequency_hz` with extension `ext` made at `epoch_secs`.
pub open spec fn is_capture_name_of(
    name: Seq<char>,
    frequency_hz: int,
    ext: Seq<char>,
    epoch_secs: int,
) -> bool {
    exists|y: int, m: int, d: int|
        #![trigger days_from_civil(y, m, d)]
        is_valid_date(y, m, d) && days_from_civil(y, m, d) == epoch_secs / 86400 && name
            == capture_file_name(frequency_hz, ext, compact_timestamp(y, m, d, epoch_secs % 86400))
}

/// The suggested file name for a recording of `frequency_hz` made at a
/// clock reading of `epoch_secs`: what [`suggested_name_at`] gives, or a
/// `CaptureError` when the reading's year does not fit.
pub fn name_at(frequency_hz: u64, ext: &str, epoch_secs: u64) -> (r: Result<String, RailError>)
    ensures
        (r is Ok) == timestamp_in_range(epoch_secs as int),
        r matches Ok(name) ==> is_capture_name_of(name@, frequency_hz as int, ext@, epoch_secs as int),
        r matches Err(e) ==> e@ == RailErrorView::CaptureError(out_of_range_text()),
{
    if !reading_in_range(epoch_secs) {
        proof {
            reveal_strlit("clock reading out of range");
        }
        return Err(RailError::CaptureError(String::from_str("clock reading out of range")));
    }
    let name = suggested_name_at(frequency_hz, ext, epoch_secs);
    Ok(name)
}

/// The suggested file name for a recording of `frequency_hz` made now:
/// [`name_at`] of the reading of [`now_secs`]. Fails when the system clock
/// cannot be read, or reads a time whose year does not fit the timestamp.
pub fn suggested_name(frequency_hz: u64, ext: &str) -> (r: Result<String, RailError>)
    ensures
        r matches Err(e) ==> (e@ matches RailErrorView::CaptureError(m) && (is_clock_error_text(m)
            || m == out_of_range_text())),
        r matches Ok(name) ==> exists|secs: int|
            0 <= secs && timestamp_in_range(secs) && is_capture_name_of(
                name@,
                frequency_hz as int,
                ext@,
                secs,
            ),
{
    let secs = now_secs()?;
    name_at(frequency_hz, ext, secs)
}

/// Little-endian bytes of a 16-bit value.
pub open spec fn le16(x: int) -> Seq<u8> {
    seq![(x % 256) as u8, (x / 256 % 256) as u8]
}

/// Little-endian bytes of a 32-bit value.
pub open spec fn le32(x: int) -> Seq<u8> {
    seq![(x % 256) as u8, (x / 256 % 256) as u8, (x / 65536 % 256) as u8, (x / 16777216 % 256) as u8]
}

/// The 44-byte header of a mono 32-bit IEEE-float WAV file holding
/// `sample_count` samples at `sample_rate_hz`.
pub open spec fn wav_header(sample_count: int, sample_rate_hz: int) -> Seq<u8> {
    seq![82u8, 73u8, 70u8, 70u8] + le32(36 + 4 * sample_count) + seq![87u8, 65u8, 86u8, 69u8]
        + seq![102u8, 109u8, 116u8, 32u8] + le32(16) + le16(3) + le16(1) + le32(sample_rate_hz)
        + le32(4 * sample_rate_hz) + le16(4) + le16(32) + seq![100u8, 97u8, 116u8, 97u8] + le32(
        4 * sample_count,
    )
}

fn put_le32(buf: &mut [u8; 44], at: usize, x: u32)
    requires
        at + 4 <= 44,
    ensures
        final(buf)@ == old(buf)@.subrange(0, at as int) + le32(x as int) + old(buf)@.subrange(
            at + 4,
            44,
        ),
{
    buf[at] = (x % 256) as u8;
    buf[at + 1] = (x / 256 % 256) as u8;
    buf[at + 2] = (x / 65536 % 256) as u8;
    buf[at + 3] = (x / 16777216 % 256) as u8;
    assert(buf@ =~= old(buf)@.subrange(0, at as int) + le32(x as int) + old(buf)@.subrange(
        at + 4,
        44,
    ));
}

fn put_le16(buf: &mut [u8; 44], at: usize, x: u16)
    requires
        at + 2 <= 44,
    ensures
        final(buf)@ == old(buf)@.subrange(0, at as int) + le16(x as int) + old(buf)@.subrange(
            at + 2,
            44,
        ),
{
    buf[at] = (x % 256) as u8;
    buf[at + 1] = (x / 256 % 256) as u8;
    assert(buf@ =~= old(buf)@.subrange(0, at as int) + le16(x as int) + old(buf)@.subrange(
        at + 2,
        44,
    ));
}

fn put_tag(buf: &mut [u8; 44], at: usize, a: u8, b: u8, c: u8, d: u8)
    requires
        at + 4 <= 44,
    ensures
        final(buf)@ == old(buf)@.subrange(0, at as int) + seq![a, b, c, d] + old(buf)@.subrange(
            at + 4,
            44,
        ),
{
    buf[at] = a;
    buf[at + 1] = b;
    buf[at + 2] = c;
    buf[at + 3] = d;
    assert(buf@ =~= old(buf)@.subrange(0, at as int) + seq![a, b, c, d] + old(buf)@.subrange(
        at + 4,
        44,
    ));
}

/// Builds the WAV header for `sample_count` mono float samples at
/// `sample_rate_hz`: RIFF/WAVE, a 16-byte `fmt ` chunk (format 3, one
/// channel, 32 bits per sample) and the `data` chunk size.
pub fn build_header(sample_count: u32, sample_rate_hz: u32) -> (r: [u8; 44])
    requires
        4 * sample_count + 36 <= u32::MAX,
        4 * sample_rate_hz <= u32::MAX,
    ensures
        r@ == wav_header(sample_count as int, sample_rate_hz as int),
{
    let channels: u16 = 1;
    let block_align: u32 = channels as u32 * 4;
    let byte_rate: u32 = sample_rate_hz * block_align;
    let data_size: u32 = sample_count * 4;
    let riff_size: u32 = 36 + data_size;
    let mut buf = [0u8; 44];
    put_tag(&mut buf, 0, 82, 73, 70, 70);
    put_le32(&mut buf, 4, riff_size);
    put_tag(&mut buf, 8, 87, 65, 86, 69);
    put_tag(&mut buf, 12, 102, 109, 116, 32);
    put_le32(&mut buf, 16, 16);
    put_le16(&mut buf, 20, 3);
    put_le16(&mut buf, 22, channels);
    put_le32(&mut buf, 24, sample_rate_hz);
    put_le32(&mut buf, 28, byte_rate);
    put_le16(&mut buf, 32, block_align as u16);
    put_le16(&mut buf, 34, 32);
    put_tag(&mut buf, 36, 100, 97, 116, 97);
    put_le32(&mut buf, 40, data_size);
    assert(buf@ =~= wav_header(sample_count as int, sample_rate_hz as int));
    buf
}

/// The RIFF size and data size that finish a WAV file once
/// `samples_written` samples have been appended: the sample count is
/// clamped to `u32::MAX` and both sizes saturate at `u32::MAX`.
pub fn wav_size_fields(samples_written: u64) -> (r: (u32, u32))
    ensures
        ({
            let count = if samples_written > u32::MAX { u32::MAX as int } else { samples_written as int };
            let data = if 4 * count > u32::MAX { u32::MAX as int } else { 4 * count };
            &&& r.1 == data
            &&& r.0 == if 36 + data > u32::MAX { u32::MAX as int } else { 36 + data }
        }),
{
    let sample_count: u32 = if samples_written > u32::MAX as u64 { u32::MAX } else { samples_written as u32 };
    let data_size: u32 = if sample_count > u32::MAX / 4 { u32::MAX } else { sample_count * 4 };
    let riff_size: u32 = if data_size > u32::MAX - 36 { u32::MAX } else { 36 + data_size };
    (riff_size, data_size)
}

/// Which kind of recording a [`RecorderSlot`] holds.
#[derive(Debug, Clone, Copy, PartialEq, Eq, Structural)]
pub enum RecordingKind {
    Audio,
    Iq,
}

/// The message of the error for starting a recording of `kind` while one
/// is in progress.
pub open spec fn already_recording_text(kind: RecordingKind) -> Seq<char> {
    match kind {
        RecordingKind::Audio => "audio recording already in progress"@,
        RecordingKind::Iq => "IQ recording already in progress"@,
    }
}

/// The message of the error for stopping a recording of `kind` when none
/// is in progress.
pub open spec fn not_recording_text(kind: RecordingKind) -> Seq<char> {
    match kind {
        RecordingKind::Audio => "no audio recording in progress"@,
        RecordingKind::Iq => "no IQ recording in progress"@,
    }
}

/// At most one in-progress recording of one kind. `W` is the writer that
/// streams it to disk.
pub struct RecorderSlot<W> {
    kind: RecordingKind,
    writer: Option<W>,
}

impl<W> RecorderSlot<W> {
    /// The kind of recording this slot holds.
    pub closed spec fn spec_kind(&self) -> RecordingKind {
        self.kind
    }

    /// The writer of the recording in progress, if any.
    pub closed spec fn spec_writer(&self) -> Option<W> {
        self.writer
    }

    /// An empty slot for recordings of `kind`.
    pub fn new(kind: RecordingKind) -> (r: Self)
        ensures
            r.spec_kind() == kind,
            r.spec_writer() is None,
    {
        RecorderSlot { kind, writer: None }
    }

    /// Whether a recording is in progress.
    pub fn is_recording(&self) -> (r: bool)
        ensures
            r == self.spec_writer() is Some,
    {
        self.writer.is_some()
    }

    /// Checks that a new recording may start: fails with a `CaptureError`
    /// exactly when one is already in progress.
    pub fn check_can_start(&self) -> (r: Result<(), RailError>)
        ensures
            r is Ok <==> self.spec_writer() is None,
            r matches Err(e) ==> e@ == RailErrorView::CaptureError(already_recording_text(self.spec_kind())),
    {
        if self.writer.is_some() {
            let msg = match self.kind {
                RecordingKind::Audio => {
                    proof { reveal_strlit("audio recording already in progress"); }
                    String::from_str("audio recording already in progress")
                },
                RecordingKind::Iq => {
                    proof { reveal_strlit("IQ recording already in progress"); }
                    String::from_str("IQ recording already in progress")
                },
            };
            Err(RailError::CaptureError(msg))
        } else {
            Ok(())
        }
    }

    /// Puts the writer of a newly started recording into the empty slot.
    pub fn start(&mut self, writer: W)
        requires
            old(self).spec_writer() is None,
        ensures
            final(self).spec_kind() == old(self).spec_kind(),
            final(self).spec_writer() == Some(writer),
    {
        self.writer = Some(writer);
    }

    /// Takes the writer of the recording in progress out of the slot; fails
    /// with a `CaptureError` exactly when there is none.
    pub fn stop(&mut self) -> (r: Result<W, RailError>)
        ensures
            final(self).spec_kind() == old(self).spec_kind(),
            final(self).spec_writer() is None,
            old(self).spec_writer() matches Some(w) ==> r == Ok::<W, RailError>(w),
            old(self).spec_writer() is None ==> (r matches Err(e) && e@ == RailErrorView::CaptureError(
                not_recording_text(old(self).spec_kind()),
            )),
    {
        match self.writer.take() {
            Some(w) => Ok(w),
            None => {
                let msg = match self.kind {
                    RecordingKind::Audio => {
                        proof { reveal_strlit("no audio recording in progress"); }
                        String::from_str("no audio recording in progress")
                    },
                    RecordingKind::Iq => {
                        proof { reveal_strlit("no IQ recording in progress"); }
                        String::from_str("no IQ recording in progress")
                    },
                };
                Err(RailError::CaptureError(msg))
            },
        }
    }

    /// Drops the recording in progress (used when its writer fails).
    pub fn abandon(&mut self)
        ensures
            final(self).spec_kind() == old(self).spec_kind(),
            final(self).spec_writer() is None,
    {
        self.writer = None;
    }

    /// The writer of the recording in progress, for appending samples.
    pub fn writer_mut(&mut self) -> (r: Option<&mut W>)
        ensures
            r is Some <==> old(self).spec_writer() is Some,
            final(self).spec_kind() == old(self).spec_kind(),
            r matches Some(w) ==> *w == old(self).spec_writer()->0 && final(self).spec_writer()
                == Some(*final(w)),
            r is None ==> final(self).spec_writer() is None,
    {
        self.writer.as_mut()
    }
}

/// Milliseconds of audio or IQ in `samples` samples at `sample_rate_hz`
/// (zero for a zero rate; the product saturates at `u64::MAX`).
pub fn capture_duration_ms(samples: u64, sample_rate_hz: u32) -> (r: u64)
    ensures
        r == samples_to_ms(samples as int, sample_rate_hz as int),
{
    duration_of(samples, sample_rate_hz)
}

/// `rail-<hex nanoseconds>.<ext>`, the name of a capture's temp file.
pub open spec fn temp_name_text(nanos: nat, ext: Seq<char>) -> Seq<char> {
    "rail-"@ + hex(nanos) + "."@ + ext
}

/// The temp file name of a capture started `nanos` nanoseconds after the
/// Unix epoch.
pub fn temp_file_name(nanos: u128, ext: &str) -> (r: String)
    ensures
        r@ == temp_name_text(nanos as nat, ext@),
{
    let mut out = String::from_str("rail-");
    crate::text::push_digits(&mut out, nanos, 16);
    out.append(".");
    out.append(ext);
    proof {
        reveal_strlit("rail-");
        reveal_strlit(".");
        assert(out@ =~= temp_name_text(nanos as nat, ext@));
    }
    out
}

/// The eight bytes every PNG file starts with.
pub open spec fn png_signature() -> Seq<u8> {
    seq![0x89u8, 0x50u8, 0x4eu8, 0x47u8, 0x0du8, 0x0au8, 0x1au8, 0x0au8]
}

/// Screenshot bytes must start with the PNG signature.
pub fn check_png(bytes: &Vec<u8>) -> (r: Result<(), RailError>)
    ensures
        r is Ok <==> bytes@.len() >= 8 && bytes@.take(8) == png_signature(),
        r matches Err(e) ==> e@ == RailErrorView::CaptureError("expected PNG bytes"@),
{
    let sig: [u8; 8] = [0x89, 0x50, 0x4e, 0x47, 0x0d, 0x0a, 0x1a, 0x0a];
    assert(sig@ == png_signature());
    let mut ok = bytes.len() >= 8;
    let mut i: usize = 0;
    while ok && i < 8
        invariant
            sig@ == png_signature(),
            i <= 8,
            ok ==> bytes@.len() >= 8 && forall|k: int| 0 <= k < i ==> bytes@[k] == sig@[k],
            !ok ==> !(bytes@.len() >= 8 && bytes@.take(8) == png_signature()),
        decreases 8 - i,
    {
        if bytes[i] != sig[i] {
            ok = false;
            proof {
                assert(bytes@.take(8)[i as int] != png_signature()[i as int]);
            }
        }
        i = i + 1;
    }
    if ok {
        proof {
            assert(bytes@.take(8) =~= png_signature());
        }
        Ok(())
    } else {
        Err(RailError::CaptureError(String::from_str("expected PNG bytes")))
    }
}

/// One entry of a SigMF `captures` array.
pub struct SigMfCapture {
    pub sample_start: u64,
    pub datetime: String,
    pub frequency: u64,
}

impl SigMfCapture {
    /// The single capture segment a recording writes: from sample zero,
    /// at the recording's start time and centre frequency.
    pub fn at_start(datetime: String, frequency: u64) -> (r: Self)
        ensures
            r.sample_start == 0,
            r.datetime@ == datetime@,
            r.frequency == frequency,
    {
        SigMfCapture { sample_start: 0, datetime, frequency }
    }
}

/// What starting an audio recording tells the front end.
pub struct StartAudioCaptureReply {
    pub temp_path: String,
    pub suggested_name: String,
}

/// What stopping an audio recording tells the front end.
pub struct StopAudioCaptureReply {
    pub temp_path: String,
    pub suggested_name: String,
    pub frequency_hz: u64,
    pub mode: String,
    pub duration_ms: u64,
}

impl StopAudioCaptureReply {
    /// The reply for `samples` recorded at `sample_rate_hz`.
    pub fn new(
        temp_path: String,
        suggested_name: String,
        frequency_hz: u64,
        mode: String,
        samples: u64,
        sample_rate_hz: u32,
    ) -> (r: Self)
        ensures
            r.temp_path@ == temp_path@,
            r.suggested_name@ == suggested_name@,
            r.frequency_hz == frequency_hz,
            r.mode@ == mode@,
            r.duration_ms == samples_to_ms(samples as int, sample_rate_hz as int),
    {
        StopAudioCaptureReply {
            temp_path,
            suggested_name,
            frequency_hz,
            mode,
            duration_ms: capture_duration_ms(samples, sample_rate_hz),
        }
    }
}

/// What starting an IQ recording tells the front end.
pub struct StartIqCaptureReply {
    pub temp_meta_path: String,
    pub temp_data_path: String,
    pub suggested_name: String,
}

/// What stopping an IQ recording tells the front end.
pub struct StopIqCaptureReply {
    pub temp_meta_path: String,
    pub temp_data_path: String,
    pub suggested_name: String,
    pub frequency_hz: u64,
    pub duration_ms: u64,
}

impl StopIqCaptureReply {
    /// The reply for `samples` recorded at `sample_rate_hz`.
    pub fn new(
        temp_meta_path: String,
        temp_data_path: String,
        suggested_name: String,
        frequency_hz: u64,
        samples: u64,
        sample_rate_hz: u32,
    ) -> (r: Self)
        ensures
            r.temp_meta_path@ == temp_meta_path@,
            r.temp_data_path@ == temp_data_path@,
            r.suggested_name@ == suggested_name@,
            r.frequency_hz == frequency_hz,
            r.duration_ms == samples_to_ms(samples as int, sample_rate_hz as int),
    {
        StopIqCaptureReply {
            temp_meta_path,
            temp_data_path,
            suggested_name,
            frequency_hz,
            duration_ms: capture_duration_ms(samples, sample_rate_hz),
        }
    }
}

/// Arguments of moving a finished recording to its chosen place.
pub struct FinalizeCaptureArgs {
    pub src: String,
    pub dst: String,
}

/// Arguments of moving a finished SigMF pair to its chosen place.
pub struct FinalizeIqCaptureArgs {
    pub src_meta: String,
    pub src_data: String,
    pub dst_meta: String,
    pub dst_data: String,
}

/// Arguments of discarding temp files.
pub struct DiscardCaptureArgs {
    pub paths: Vec<String>,
}

/// Arguments of saving a waterfall screenshot.
pub struct SaveScreenshotArgs {
    pub dst: String,
    pub png_bytes: Vec<u8>,
}

/// The suggested file name of a screenshot.
pub struct ScreenshotSuggestionReply {
    pub suggested_name: String,
}

} // verus!

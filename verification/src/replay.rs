//! SigMF IQ-file replay: capture metadata, the seek arithmetic, the
//! waterfall backfill plan, and the transport (play / pause / seek / stop)
//! state of the reader. File reads, pacing and event delivery are done by
//! the caller.
use crate::error::{RailError, RailErrorView};
use crate::events::ReplayPosition;
use crate::text::{has_suffix, str_eq};
use vstd::prelude::*;
use vstd::string::*;

verus! {

/// Bytes per `cf32_le` sample on disk (I and Q as little-endian `f32`).
pub const BYTES_PER_SAMPLE: u64 = 8;

/// Replay chunk length in milliseconds of file time.
pub const CHUNK_MS: u64 = 40;

/// Number of waterfall rows backfilled on a seek.
pub const WATERFALL_PREFILL_ROWS: u64 = 360;

/// Milliseconds of signal in `samples` samples at `rate` Hz (zero for a
/// zero rate); the product saturates at `u64::MAX` before dividing.
pub open spec fn samples_to_ms(samples: int, rate: int) -> int {
    if rate == 0 {
        0
    } else {
        (if samples * 1000 > u64::MAX { u64::MAX as int } else { samples * 1000 }) / rate
    }
}

/// `samples * 1000 / rate`, saturating, zero for a zero rate.
pub fn duration_of(samples: u64, rate: u32) -> (r: u64)
    ensures
        r == samples_to_ms(samples as int, rate as int),
{
    if rate == 0 {
        return 0;
    }
    let product: u64 = if samples > u64::MAX / 1000 { u64::MAX } else { samples * 1000 };
    product / rate as u64
}

/// Parsed metadata of an IQ capture on disk.
#[derive(Debug, Clone)]
pub struct ReplayInfo {
    pub data_path: String,
    pub meta_path: String,
    pub sample_rate_hz: u32,
    pub center_frequency_hz: u64,
    pub demod_mode: String,
    pub filter_bandwidth_hz: u32,
    pub total_samples: u64,
    pub datetime_iso8601: String,
}

impl ReplayInfo {
    /// Length of the capture in milliseconds.
    pub fn duration_ms(&self) -> (r: u64)
        ensures
            r == samples_to_ms(self.total_samples as int, self.sample_rate_hz as int),
    {
        duration_of(self.total_samples, self.sample_rate_hz)
    }
}

/// Transport commands for a running replay.
#[derive(Debug, Clone, Copy, PartialEq, Eq, Structural)]
pub enum ReplayControl {
    Play,
    Pause,
    /// Absolute sample index; the reader clamps it to the capture length.
    Seek { sample_idx: u64 },
    Stop,
}

/// The index of the last `c` in `s`, or -1 when `s` holds none.
pub open spec fn last_index_of(s: Seq<char>, c: char) -> int
    decreases s.len(),
{
    if s.len() == 0 {
        -1
    } else if s.last() == c {
        s.len() - 1
    } else {
        last_index_of(s.drop_last(), c)
    }
}

/// Where the last `/`-separated component of `p` (its file name) starts.
pub open spec fn file_name_start(p: Seq<char>) -> int {
    last_index_of(p, '/') + 1
}

/// Where the file stem of `p` ends: at the last `.` of the file name when
/// that `.` is not the name's first character, else at the end of `p`.
pub open spec fn file_stem_end(p: Seq<char>) -> int {
    let dot = last_index_of(p, '.');
    if dot > file_name_start(p) { dot } else { p.len() as int }
}

/// A path that splits the same way on every platform: non-empty, no `\\`
/// or `:` (Windows separators and drive prefixes), not starting with `//`
/// (a Windows network prefix), not ending in `/`, and with a file name
/// other than `.` and `..`.
pub open spec fn plain_path(p: Seq<char>) -> bool {
    let name = p.subrange(file_name_start(p), p.len() as int);
    &&& p.len() > 0
    &&& p.last() != '/'
    &&& forall|i: int| 0 <= i < p.len() ==> p[i] != '\\' && p[i] != ':'
    &&& !(p.len() >= 2 && p[0] == '/' && p[1] == '/')
    &&& name != seq!['.']
    &&& name != seq!['.', '.']
}

/// `p` with its extension set to `ext`: the path up to the end of its file
/// stem, then `.` and `ext` unless `ext` is empty.
pub open spec fn with_extension_text(p: Seq<char>, ext: Seq<char>) -> Seq<char> {
    let stem = p.subrange(0, file_stem_end(p));
    if ext.len() == 0 { stem } else { stem + seq!['.'] + ext }
}

/// Calls `Path::with_extension` on `path` and returns the result as text
/// (`to_string_lossy`, which keeps text that came from a `&str`). Per the
/// documentation of `Path::set_extension` and `Path::extension`, the
/// extension is the part of the file name after its last `.`, none when
/// that `.` is the name's first character or there is none, and setting it
/// replaces that part or adds one. The claim is made for plain paths only:
/// on others (`\\`, drive or network prefixes, trailing `/`, a file name of
/// `.` or `..`) the split differs between platforms. An extension holding
/// a path separator panics, so `ext` holds neither `/` nor `\\`.
#[verifier::external_body]
fn path_with_extension(path: &str, ext: &str) -> (r: String)
    requires
        forall|i: int| 0 <= i < ext@.len() ==> ext@[i] != '/' && ext@[i] != '\\',
    ensures
        plain_path(path@) ==> r@ == with_extension_text(path@, ext@),
{
    std::path::Path::new(path).with_extension(ext).to_string_lossy().into_owned()
}

/// The `.sigmf-meta` path beside a `.sigmf-data` path: the suffix
/// `.sigmf-data` is replaced by `.sigmf-meta`; any other path gets its
/// extension replaced by (or, without one, extended with) `.sigmf-meta`,
/// the way the platform's paths do it.
pub fn meta_path_for(data_path: &str) -> (r: String)
    ensures
        has_suffix(data_path@, ".sigmf-data"@) ==> r@ == data_path@.subrange(
            0,
            data_path@.len() - 11,
        ) + ".sigmf-meta"@,
        !has_suffix(data_path@, ".sigmf-data"@) && plain_path(data_path@) ==> r@
            == data_path@.subrange(0, file_stem_end(data_path@)) + ".sigmf-meta"@,
{
    proof {
        reveal_strlit(".sigmf-data");
        reveal_strlit("sigmf-meta");
        reveal_strlit(".sigmf-meta");
    }
    let n = data_path.unicode_len();
    if n >= 11 && str_eq(data_path.substring_char(n - 11, n), ".sigmf-data") {
        let mut out = String::from_str(data_path.substring_char(0, n - 11));
        out.append(".sigmf-meta");
        out
    } else {
        let r = path_with_extension(data_path, "sigmf-meta");
        proof {
            let p = data_path@;
            assert(seq!['.'] + "sigmf-meta"@ =~= ".sigmf-meta"@);
            assert(p.subrange(0, file_stem_end(p)) + seq!['.'] + "sigmf-meta"@ =~= p.subrange(
                0,
                file_stem_end(p),
            ) + ".sigmf-meta"@);
        }
        r
    }
}

/// The sample index of position `ms` at `rate` Hz, clamped to `total`
/// samples (zero for a zero rate); the product saturates at `u64::MAX`.
pub open spec fn sample_index_at(ms: int, rate: int, total: int) -> int {
    if rate == 0 {
        0
    } else {
        let idx = (if ms * rate > u64::MAX { u64::MAX as int } else { ms * rate }) / 1000;
        if idx < total { idx } else { total }
    }
}

/// Converts a position in milliseconds to a sample index, clamped to the
/// capture length (zero for a zero rate).
pub fn ms_to_sample_idx(ms: u64, sample_rate_hz: u32, total_samples: u64) -> (r: u64)
    ensures
        r == sample_index_at(ms as int, sample_rate_hz as int, total_samples as int),
        r <= total_samples,
{
    if sample_rate_hz == 0 {
        return 0;
    }
    let rate = sample_rate_hz as u64;
    proof {
        if ms <= u64::MAX / rate {
            assert(ms * rate <= u64::MAX) by (nonlinear_arith)
                requires ms <= u64::MAX / rate, rate > 0;
        } else {
            assert(ms * rate > u64::MAX) by (nonlinear_arith)
                requires ms > u64::MAX / rate, rate > 0;
        }
    }
    let product: u64 = if ms > u64::MAX / rate { u64::MAX } else { ms * rate };
    let idx = product / 1000;
    if idx < total_samples { idx } else { total_samples }
}

/// The metadata fields a replay reads from a `.sigmf-meta` document, each
/// absent when the document lacks it (or holds it with the wrong type).
pub struct SigMfMetaFields {
    /// `global.core:sample_rate`
    pub sample_rate: Option<u64>,
    /// `global.rail:center_frequency_hz`
    pub center_frequency_hz: Option<u64>,
    /// `captures[0].core:frequency`
    pub capture_frequency: Option<u64>,
    /// `global.rail:demod_mode`
    pub demod_mode: Option<String>,
    /// `global.rail:filter_bandwidth_hz`
    pub filter_bandwidth_hz: Option<u64>,
    /// `captures[0].core:datetime`
    pub datetime: Option<String>,
    /// `global.core:datatype`
    pub datatype: Option<String>,
}

/// The text of an optional string field, or `default` when it is absent.
pub open spec fn text_or(v: Option<String>, default: Seq<char>) -> Seq<char> {
    match v {
        Some(s) => s@,
        None => default,
    }
}

/// The capture's sample rate as the replay uses it: the field truncated to
/// 32 bits, zero when absent.
pub open spec fn meta_sample_rate(f: SigMfMetaFields) -> u32 {
    match f.sample_rate {
        Some(r) => r as u32,
        None => 0,
    }
}

/// The capture's centre frequency as the replay uses it: the global
/// field, else the first capture segment's, else zero.
pub open spec fn meta_center_frequency(f: SigMfMetaFields) -> u64 {
    match f.center_frequency_hz {
        Some(c) => c,
        None => match f.capture_frequency {
            Some(c) => c,
            None => 0,
        },
    }
}

/// The capture's filter bandwidth as the replay uses it: the field
/// truncated to 32 bits, 200 kHz when absent.
pub open spec fn meta_bandwidth(f: SigMfMetaFields) -> u32 {
    match f.filter_bandwidth_hz {
        Some(b) => b as u32,
        None => 200_000,
    }
}

/// Why the replay refuses a capture's metadata, if it does: a missing or
/// zero sample rate, or a datatype other than `cf32_le`.
pub open spec fn meta_refusal(f: SigMfMetaFields) -> Option<Seq<char>> {
    if meta_sample_rate(f) == 0 {
        Some("sigmf meta missing or zero core:sample_rate"@)
    } else if text_or(f.datatype, "cf32_le"@) != "cf32_le"@ {
        Some(
            "unsupported SigMF datatype "@ + text_or(f.datatype, "cf32_le"@)
                + " (RAIL only reads cf32_le)"@,
        )
    } else {
        None
    }
}

/// `info` is what the replay reads from the fields `f` of the capture at
/// `data_path` (meta file `meta_path`, `data_len` bytes of samples).
pub open spec fn info_read_from(
    info: ReplayInfo,
    data_path: Seq<char>,
    meta_path: Seq<char>,
    data_len: int,
    f: SigMfMetaFields,
) -> bool {
    &&& info.data_path@ == data_path
    &&& info.meta_path@ == meta_path
    &&& info.sample_rate_hz == meta_sample_rate(f)
    &&& info.center_frequency_hz == meta_center_frequency(f)
    &&& info.demod_mode@ == text_or(f.demod_mode, "FM"@)
    &&& info.filter_bandwidth_hz == meta_bandwidth(f)
    &&& info.total_samples == data_len / 8
    &&& info.datetime_iso8601@ == text_or(f.datetime, ""@)
}

/// Builds the replay metadata of the capture at `data_path` (with meta file
/// `meta_path` and `data_len` bytes of samples) from its metadata fields.
/// Missing fields take defaults: centre frequency from the first capture
/// segment or 0, mode `FM`, bandwidth 200 kHz, empty date, datatype
/// `cf32_le`. Fails when the sample rate is missing or zero, or the
/// datatype is not `cf32_le`. A trailing partial sample is ignored.
pub fn replay_info_from_meta(
    data_path: String,
    meta_path: String,
    data_len: u64,
    fields: SigMfMetaFields,
) -> (r: Result<ReplayInfo, RailError>)
    ensures
        match meta_refusal(fields) {
            Some(msg) => (r matches Err(e) && e@ == RailErrorView::CaptureError(msg)),
            None => (r matches Ok(info) && info_read_from(
                info,
                data_path@,
                meta_path@,
                data_len as int,
                fields,
            )),
        },
{
    let ghost f = fields;
    let total_samples = data_len / BYTES_PER_SAMPLE;
    let sample_rate_hz: u32 = match fields.sample_rate {
        Some(r) => #[verifier::truncate] (r as u32),
        None => 0,
    };
    let center_frequency_hz: u64 = match fields.center_frequency_hz {
        Some(c) => c,
        None => match fields.capture_frequency {
            Some(c) => c,
            None => 0,
        },
    };
    let demod_mode = match fields.demod_mode {
        Some(m) => m,
        None => String::from_str("FM"),
    };
    let filter_bandwidth_hz: u32 = match fields.filter_bandwidth_hz {
        Some(b) => #[verifier::truncate] (b as u32),
        None => 200_000,
    };
    let datetime = match fields.datetime {
        Some(d) => d,
        None => String::new(),
    };
    proof {
        reveal_strlit("");
        assert(""@ =~= Seq::<char>::empty());
        assert(datetime@ == text_or(f.datetime, ""@));
    }
    if sample_rate_hz == 0 {
        return Err(RailError::CaptureError(String::from_str("sigmf meta missing or zero core:sample_rate")));
    }
    let datatype = match fields.datatype {
        Some(t) => t,
        None => String::from_str("cf32_le"),
    };
    if !str_eq(datatype.as_str(), "cf32_le") {
        let mut msg = String::from_str("unsupported SigMF datatype ");
        msg.append(datatype.as_str());
        msg.append(" (RAIL only reads cf32_le)");
        return Err(RailError::CaptureError(msg));
    }
    Ok(ReplayInfo {
        data_path,
        meta_path,
        sample_rate_hz,
        center_frequency_hz,
        demod_mode,
        filter_bandwidth_hz,
        total_samples,
        datetime_iso8601: datetime,
    })
}

#[verifier::external_type_specification]
#[verifier::external_body]
pub struct ExJsonError(serde_json::Error);

/// The metadata fields of a `.sigmf-meta` document, when its bytes are
/// JSON; `None` when they are not.
pub uninterp spec fn sigmf_fields(bytes: Seq<u8>) -> Option<SigMfMetaFields>;

/// Calls `serde_json::from_slice` to parse `bytes` as a JSON `Value`, then
/// reads each field with `Value`'s indexing (`v["global"][key]`,
/// `v["captures"][0][key]`, `Null` where a level is missing) and its
/// `as_u64` / `as_str`. The claim: it succeeds exactly when the bytes are
/// JSON, and what it returns depends on the bytes alone.
#[verifier::external_body]
fn parse_sigmf_fields(bytes: &[u8]) -> (r: Result<SigMfMetaFields, serde_json::Error>)
    ensures
        (r is Ok) == (sigmf_fields(bytes@) is Some),
        r matches Ok(f) ==> sigmf_fields(bytes@) == Some(f),
{
    let v: serde_json::Value = serde_json::from_slice(bytes)?;
    let (g, c) = (&v["global"], &v["captures"][0]);
    Ok(SigMfMetaFields {
        sample_rate: g["core:sample_rate"].as_u64(),
        center_frequency_hz: g["rail:center_frequency_hz"].as_u64(),
        capture_frequency: c["core:frequency"].as_u64(),
        demod_mode: g["rail:demod_mode"].as_str().map(String::from),
        filter_bandwidth_hz: g["rail:filter_bandwidth_hz"].as_u64(),
        datetime: c["core:datetime"].as_str().map(String::from),
        datatype: g["core:datatype"].as_str().map(String::from),
    })
}

/// Calls `ToString::to_string` on a JSON error (its `Display` text).
#[verifier::external_body]
fn json_error_text(e: &serde_json::Error) -> String {
    e.to_string()
}

/// Whether `m` is the text of a metadata file that is not JSON: it begins
/// with `sigmf meta parse: `.
pub open spec fn is_meta_parse_error_text(m: Seq<char>) -> bool {
    m.len() >= 18 && m.subrange(0, 18) == "sigmf meta parse: "@
}

/// Builds the replay metadata of the capture at `data_path` from the bytes
/// of its `.sigmf-meta` file (at `meta_path`) and the `data_len` bytes of
/// its samples. Bytes that are not JSON fail with a `CaptureError`;
/// otherwise the fields read from the document decide as in
/// [`replay_info_from_meta`].
pub fn replay_info_from_meta_bytes(
    data_path: String,
    meta_path: String,
    data_len: u64,
    meta_bytes: &[u8],
) -> (r: Result<ReplayInfo, RailError>)
    ensures
        match sigmf_fields(meta_bytes@) {
            None => (r matches Err(e) && e@ matches RailErrorView::CaptureError(m)
                && is_meta_parse_error_text(m)),
            Some(f) => match meta_refusal(f) {
                Some(msg) => (r matches Err(e) && e@ == RailErrorView::CaptureError(msg)),
                None => (r matches Ok(info) && info_read_from(
                    info,
                    data_path@,
                    meta_path@,
                    data_len as int,
                    f,
                )),
            },
        },
{
    match parse_sigmf_fields(meta_bytes) {
        Ok(fields) => replay_info_from_meta(data_path, meta_path, data_len, fields),
        Err(e) => {
            let mut msg = String::from_str("sigmf meta parse: ");
            msg.append(json_error_text(&e).as_str());
            proof {
                reveal_strlit("sigmf meta parse: ");
                assert(msg@.subrange(0, 18) =~= "sigmf meta parse: "@);
            }
            Err(RailError::CaptureError(msg))
        },
    }
}

/// A recording's metadata replays as recorded: when every field a
/// recording writes is present, with a nonzero sample rate and the
/// `cf32_le` datatype, the replay accepts it and takes the rate, centre
/// frequency, mode, bandwidth and start time as written.
pub proof fn lemma_recorded_meta_replays(
    f: SigMfMetaFields,
    info: ReplayInfo,
    data_path: Seq<char>,
    meta_path: Seq<char>,
    data_len: int,
    rate: u32,
    center: u64,
    mode: Seq<char>,
    bandwidth: u32,
    datetime: Seq<char>,
)
    requires
        rate > 0,
        f.sample_rate == Some(rate as u64),
        f.center_frequency_hz == Some(center),
        f.demod_mode matches Some(m) && m@ == mode,
        f.filter_bandwidth_hz == Some(bandwidth as u64),
        f.datetime matches Some(d) && d@ == datetime,
        f.datatype matches Some(t) && t@ == "cf32_le"@,
    ensures
        meta_refusal(f) is None,
        info_read_from(info, data_path, meta_path, data_len, f) ==> {
            &&& info.sample_rate_hz == rate
            &&& info.center_frequency_hz == center
            &&& info.demod_mode@ == mode
            &&& info.filter_bandwidth_hz == bandwidth
            &&& info.datetime_iso8601@ == datetime
        },
{
    assert((rate as u64) as u32 == rate);
    assert((bandwidth as u64) as u32 == bandwidth);
}

/// Samples per replay chunk (and per backfill row) at `rate` Hz.
pub open spec fn chunk_len(rate: int) -> int {
    rate * 40 / 1000
}

/// Where a seek's waterfall backfill reads: the byte offsets of up to
/// `WATERFALL_PREFILL_ROWS` windows, one chunk apart and ending one chunk
/// before the target, oldest first; and the byte offset to resume reading
/// from (none when the rate is too low for a chunk).
pub struct PrefillPlan {
    pub row_byte_offsets: Vec<u64>,
    pub resume_byte_offset: Option<u64>,
}

/// Number of backfill rows before `sample_idx` with chunks of `step`.
pub open spec fn prefill_rows(sample_idx: int, step: int) -> int {
    if sample_idx / step < 360 { sample_idx / step } else { 360 }
}

/// A seek backfills one row per whole chunk before the target, but never
/// more than `WATERFALL_PREFILL_ROWS`: every row that fits up to that many,
/// and exactly that many once the target is far enough in.
pub proof fn lemma_prefill_row_count(sample_idx: u64, sample_rate_hz: u32)
    requires
        chunk_len(sample_rate_hz as int) > 0,
    ensures
        ({
            let step = chunk_len(sample_rate_hz as int);
            let n = prefill_rows(sample_idx as int, step);
            &&& 0 <= n <= WATERFALL_PREFILL_ROWS
            &&& n * step <= sample_idx
            &&& (sample_idx as int) >= WATERFALL_PREFILL_ROWS * step ==> n == WATERFALL_PREFILL_ROWS
            &&& (sample_idx as int) < WATERFALL_PREFILL_ROWS * step ==> sample_idx < (n + 1) * step
        }),
{
    let step = chunk_len(sample_rate_hz as int);
    let q = sample_idx as int / step;
    assert(q * step <= sample_idx && sample_idx < (q + 1) * step) by (nonlinear_arith)
        requires
            step > 0,
            q == sample_idx as int / step,
            sample_idx >= 0,
    ;
    if (sample_idx as int) >= WATERFALL_PREFILL_ROWS * step {
        assert(q >= WATERFALL_PREFILL_ROWS) by (nonlinear_arith)
            requires
                step > 0,
                sample_idx < (q + 1) * step,
                sample_idx >= 360 * step,
                WATERFALL_PREFILL_ROWS == 360,
        ;
    } else {
        assert(q < WATERFALL_PREFILL_ROWS) by (nonlinear_arith)
            requires
                step > 0,
                q * step <= sample_idx,
                sample_idx < 360 * step,
                WATERFALL_PREFILL_ROWS == 360,
        ;
    }
    if q >= WATERFALL_PREFILL_ROWS {
        assert(WATERFALL_PREFILL_ROWS * step <= q * step) by (nonlinear_arith)
            requires
                step > 0,
                q >= WATERFALL_PREFILL_ROWS,
        ;
    }
}

/// Plans the waterfall backfill for a seek to `sample_idx`.
pub fn prefill_plan(sample_idx: u64, sample_rate_hz: u32) -> (r: PrefillPlan)
    requires
        chunk_len(sample_rate_hz as int) > 0 && sample_idx >= chunk_len(sample_rate_hz as int)
            ==> sample_idx - chunk_len(sample_rate_hz as int) <= u64::MAX / 8,
    ensures
        chunk_len(sample_rate_hz as int) == 0 ==> r.row_byte_offsets@.len() == 0
            && r.resume_byte_offset is None,
        chunk_len(sample_rate_hz as int) > 0 ==> ({
            let step = chunk_len(sample_rate_hz as int);
            let n = prefill_rows(sample_idx as int, step);
            &&& r.row_byte_offsets@.len() == n
            &&& r.row_byte_offsets@.len() == if (sample_idx as int) / step < WATERFALL_PREFILL_ROWS {
                sample_idx as int / step
            } else {
                WATERFALL_PREFILL_ROWS as int
            }
            &&& forall|i: int|
                0 <= i < n ==> #[trigger] r.row_byte_offsets@[i] == (sample_idx - (n - i) * step)
                    * 8
            &&& r.resume_byte_offset == Some(
                (if sample_idx * 8 > u64::MAX { u64::MAX as int } else { sample_idx * 8 }) as u64,
            )
        }),
{
    let step: u64 = (sample_rate_hz as u64 * CHUNK_MS) / 1_000;
    let mut rows: Vec<u64> = Vec::new();
    if step == 0 {
        return PrefillPlan { row_byte_offsets: rows, resume_byte_offset: None };
    }
    let available = sample_idx / step;
    let n_rows: u64 = if available < WATERFALL_PREFILL_ROWS { available } else { WATERFALL_PREFILL_ROWS };
    proof {
        assert(n_rows * step <= sample_idx) by (nonlinear_arith)
            requires n_rows <= sample_idx / step, step > 0;
    }
    let mut i: u64 = 0;
    while i < n_rows
        invariant
            step == chunk_len(sample_rate_hz as int),
            step > 0,
            n_rows == prefill_rows(sample_idx as int, step as int),
            n_rows <= 360,
            n_rows * step <= sample_idx,
            n_rows > 0 ==> sample_idx - step <= u64::MAX / 8,
            i <= n_rows,
            rows@.len() == i,
            forall|j: int| 0 <= j < i ==> #[trigger] rows@[j] == (sample_idx - (n_rows - j) * step) * 8,
        decreases n_rows - i,
    {
        let age: u64 = n_rows - i;
        proof {
            assert(age * step <= n_rows * step) by (nonlinear_arith)
                requires age <= n_rows, step > 0;
            assert(age * step >= step) by (nonlinear_arith)
                requires age >= 1, step > 0;
        }
        let slot: u64 = sample_idx - age * step;
        rows.push(slot * BYTES_PER_SAMPLE);
        i = i + 1;
    }
    let resume: u64 = if sample_idx > u64::MAX / 8 { u64::MAX } else { sample_idx * 8 };
    PrefillPlan { row_byte_offsets: rows, resume_byte_offset: Some(resume) }
}

/// What the replay reader does next while playing.
#[derive(Debug, Clone, Copy, PartialEq, Eq, Structural)]
pub enum ReplayRead {
    /// The end of the capture was reached: start over from sample 0.
    Rewind,
    /// Read and deliver the next `samples` samples.
    Chunk { samples: u64 },
}

/// What the reader does in answer to a transport command.
#[derive(Debug, Clone, Copy, PartialEq, Eq, Structural)]
pub enum ControlAction {
    /// Nothing changes and nothing is reported.
    Ignore,
    /// Restart pacing from now and report the position.
    ResumeAndReport,
    /// Report the position.
    Report,
    /// Backfill the waterfall up to the new position, then report it.
    Backfill { sample_idx: u64 },
    /// Report the position as stopped and end the reader.
    Finish,
}

/// Transport state of a replay reader: read head and play/pause.
pub struct ReplayTransport {
    sample_idx: u64,
    playing: bool,
    total_samples: u64,
    sample_rate_hz: u32,
}

impl ReplayTransport {
    pub closed spec fn spec_sample_idx(&self) -> u64 {
        self.sample_idx
    }

    pub closed spec fn spec_playing(&self) -> bool {
        self.playing
    }

    pub closed spec fn spec_total_samples(&self) -> u64 {
        self.total_samples
    }

    pub closed spec fn spec_sample_rate(&self) -> u32 {
        self.sample_rate_hz
    }

    /// The read head never passes the end of the capture.
    pub closed spec fn wf(&self) -> bool {
        self.sample_idx <= self.total_samples
    }

    /// A reader at the start of the capture, playing.
    pub fn new(info: &ReplayInfo) -> (r: Self)
        ensures
            r.wf(),
            r.spec_sample_idx() == 0,
            r.spec_playing(),
            r.spec_total_samples() == info.total_samples,
            r.spec_sample_rate() == info.sample_rate_hz,
    {
        ReplayTransport {
            sample_idx: 0,
            playing: true,
            total_samples: info.total_samples,
            sample_rate_hz: info.sample_rate_hz,
        }
    }

    /// Current read head (sample index).
    pub fn sample_idx(&self) -> (r: u64)
        ensures
            r == self.spec_sample_idx(),
    {
        self.sample_idx
    }

    /// Whether the replay is playing.
    pub fn is_playing(&self) -> (r: bool)
        ensures
            r == self.spec_playing(),
    {
        self.playing
    }

    /// Samples per chunk in the model: 40 ms of samples, at least one.
    pub open spec fn spec_chunk_samples(&self) -> int {
        let c = chunk_len(self.spec_sample_rate() as int);
        if c < 1 { 1 } else { c }
    }

    /// The read that `next_read` gives in the model.
    pub open spec fn spec_next_read(&self) -> ReplayRead {
        if self.spec_sample_idx() >= self.spec_total_samples() {
            ReplayRead::Rewind
        } else {
            let left = self.spec_total_samples() - self.spec_sample_idx();
            let c = self.spec_chunk_samples();
            ReplayRead::Chunk { samples: (if c < left { c } else { left }) as u64 }
        }
    }

    /// Samples per chunk: 40 ms of samples, at least one.
    pub fn chunk_samples(&self) -> (r: u64)
        ensures
            r == self.spec_chunk_samples(),
    {
        let c: u64 = (self.sample_rate_hz as u64 * CHUNK_MS) / 1_000;
        if c < 1 { 1 } else { c }
    }

    /// The position report for the current state, with the given
    /// playing flag.
    pub fn position(&self, playing: bool) -> (r: ReplayPosition)
        ensures
            r.sample_idx == self.spec_sample_idx(),
            r.position_ms == samples_to_ms(self.spec_sample_idx() as int, self.spec_sample_rate() as int),
            r.total_ms == samples_to_ms(self.spec_total_samples() as int, self.spec_sample_rate() as int),
            r.playing == playing,
    {
        ReplayPosition::new(
            self.sample_idx,
            duration_of(self.sample_idx, self.sample_rate_hz),
            duration_of(self.total_samples, self.sample_rate_hz),
            playing,
        )
    }

    /// Applies a transport command. `None` stands for the command channel
    /// having closed, which ends the reader like `Stop`.
    pub fn on_control(&mut self, ctl: Option<ReplayControl>) -> (r: ControlAction)
        requires
            old(self).wf(),
        ensures
            final(self).wf(),
            final(self).spec_total_samples() == old(self).spec_total_samples(),
            final(self).spec_sample_rate() == old(self).spec_sample_rate(),
            match ctl {
                Some(ReplayControl::Play) => {
                    &&& final(self).spec_playing()
                    &&& final(self).spec_sample_idx() == old(self).spec_sample_idx()
                    &&& r == if old(self).spec_playing() { ControlAction::Ignore } else { ControlAction::ResumeAndReport }
                },
                Some(ReplayControl::Pause) => {
                    &&& !final(self).spec_playing()
                    &&& final(self).spec_sample_idx() == old(self).spec_sample_idx()
                    &&& r == if old(self).spec_playing() { ControlAction::Report } else { ControlAction::Ignore }
                },
                Some(ReplayControl::Seek { sample_idx }) => {
                    let clamped = if sample_idx < old(self).spec_total_samples() { sample_idx } else { old(self).spec_total_samples() };
                    &&& final(self).spec_playing() == old(self).spec_playing()
                    &&& final(self).spec_sample_idx() == clamped
                    &&& r == ControlAction::Backfill { sample_idx: clamped }
                },
                Some(ReplayControl::Stop) | None => {
                    &&& final(self).spec_playing() == old(self).spec_playing()
                    &&& final(self).spec_sample_idx() == old(self).spec_sample_idx()
                    &&& r == ControlAction::Finish
                },
            },
    {
        match ctl {
            Some(ReplayControl::Play) => {
                if self.playing {
                    ControlAction::Ignore
                } else {
                    self.playing = true;
                    ControlAction::ResumeAndReport
                }
            },
            Some(ReplayControl::Pause) => {
                if self.playing {
                    self.playing = false;
                    ControlAction::Report
                } else {
                    ControlAction::Ignore
                }
            },
            Some(ReplayControl::Seek { sample_idx }) => {
                let clamped = if sample_idx < self.total_samples { sample_idx } else { self.total_samples };
                self.sample_idx = clamped;
                ControlAction::Backfill { sample_idx: clamped }
            },
            Some(ReplayControl::Stop) | None => ControlAction::Finish,
        }
    }

    /// The next read while playing: rewind at the end of the capture,
    /// otherwise a chunk of at most `chunk_samples` samples.
    pub fn next_read(&self) -> (r: ReplayRead)
        requires
            self.wf(),
        ensures
            r == self.spec_next_read(),
    {
        if self.sample_idx >= self.total_samples {
            return ReplayRead::Rewind;
        }
        let c = self.chunk_samples();
        let left = self.total_samples - self.sample_idx;
        ReplayRead::Chunk { samples: if c < left { c } else { left } }
    }

    /// Moves the read head back to the start of the capture.
    pub fn rewind(&mut self)
        ensures
            final(self).wf(),
            final(self).spec_sample_idx() == 0,
            final(self).spec_playing() == old(self).spec_playing(),
            final(self).spec_total_samples() == old(self).spec_total_samples(),
            final(self).spec_sample_rate() == old(self).spec_sample_rate(),
    {
        self.sample_idx = 0;
    }

    /// Moves the read head past `samples` delivered samples.
    pub fn advance(&mut self, samples: u64)
        requires
            old(self).wf(),
            samples <= old(self).spec_total_samples() - old(self).spec_sample_idx(),
        ensures
            final(self).wf(),
            final(self).spec_sample_idx() == old(self).spec_sample_idx() + samples,
            final(self).spec_playing() == old(self).spec_playing(),
            final(self).spec_total_samples() == old(self).spec_total_samples(),
            final(self).spec_sample_rate() == old(self).spec_sample_rate(),
    {
        self.sample_idx = self.sample_idx + samples;
    }
}

} // verus!

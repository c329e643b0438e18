//! The streaming session as the commands see it: which source feeds the
//! DSP worker, the tuning the user has set, and the checks each command
//! makes before it touches the radio or the replay reader. Hardware
//! calls, channels and task handles stay with the caller; this module
//! decides what they are asked to do and what is answered.
use crate::error::{RailError, RailErrorView};
use crate::replay::{ms_to_sample_idx, sample_index_at, samples_to_ms, ReplayInfo};
use crate::text::{decimal, push_digits, str_eq};
use vstd::prelude::*;
use vstd::string::*;

verus! {

/// Sample rate asked of the dongle when the caller names none.
pub const DEFAULT_SAMPLE_RATE_HZ: u32 = 2_048_000;

/// Channel bandwidth a new session starts with.
pub const DEFAULT_BANDWIDTH_HZ: u32 = 200_000;

/// FFT length of the waterfall frames.
pub const FFT_SIZE: usize = 8192;

/// Rate of the PCM audio handed to the front end.
pub const AUDIO_SAMPLE_RATE_HZ: u32 = 44_100;

/// Samples per PCM audio chunk (40 ms at the audio rate).
pub const AUDIO_CHUNK_SAMPLES: usize = 1764;

/// Sample rates tried, in order of preference, when the requested rate
/// is refused by the tuner or driver.
pub open spec fn fallback_rates() -> Seq<u32> {
    seq![2_048_000u32, 1_800_000u32, 1_400_000u32, 1_024_000u32, 900_000u32]
}

/// `s` without the elements equal to `x`, order kept.
pub open spec fn without(s: Seq<u32>, x: u32) -> Seq<u32>
    decreases s.len(),
{
    if s.len() == 0 {
        s
    } else {
        let rest = without(s.drop_last(), x);
        if s.last() == x { rest } else { rest.push(s.last()) }
    }
}

/// Nothing equal to `x` is left in `without(s, x)`, and everything else
/// in `s` is.
proof fn lemma_without(s: Seq<u32>, x: u32)
    ensures
        forall|i: int| 0 <= i < without(s, x).len() ==> without(s, x)[i] != x,
        forall|j: int| 0 <= j < s.len() && s[j] != x ==> without(s, x).contains(s[j]),
        without(s, x).len() <= s.len(),
    decreases s.len(),
{
    if s.len() > 0 {
        let p = s.drop_last();
        lemma_without(p, x);
        assert forall|j: int| 0 <= j < s.len() && s[j] != x implies without(s, x).contains(
            s[j],
        ) by {
            if j < s.len() - 1 {
                assert(p[j] == s[j]);
                let k = choose|k: int| 0 <= k < without(p, x).len() && without(p, x)[k] == p[j];
                if s.last() != x {
                    assert(without(s, x)[k] == s[j]);
                }
            } else if s.last() != x {
                assert(without(s, x)[without(s, x).len() - 1] == s[j]);
            }
        }
    }
}

/// The sample rates to try for a request: the requested rate first, then
/// the fallback rates other than it, in their order.
pub open spec fn rate_candidates(requested: u32) -> Seq<u32> {
    seq![requested] + without(fallback_rates(), requested)
}

/// The sample rates to try for `requested_hz`, in order.
pub fn sample_rate_candidates(requested_hz: u32) -> (r: Vec<u32>)
    ensures
        r@ == rate_candidates(requested_hz),
        r@[0] == requested_hz,
        forall|i: int| 1 <= i < r@.len() ==> r@[i] != requested_hz,
        forall|j: int| 0 <= j < fallback_rates().len() ==> r@.contains(#[trigger] fallback_rates()[j]),
        r@.len() <= fallback_rates().len() + 1,
{
    let fallback: [u32; 5] = [2_048_000, 1_800_000, 1_400_000, 1_024_000, 900_000];
    assert(fallback@ == fallback_rates());
    let mut out: Vec<u32> = Vec::new();
    out.push(requested_hz);
    let mut i: usize = 0;
    while i < 5
        invariant
            0 <= i <= 5,
            fallback@ == fallback_rates(),
            out@ == seq![requested_hz] + without(fallback_rates().take(i as int), requested_hz),
        decreases 5 - i,
    {
        let hz = fallback[i];
        assert(fallback_rates().take(i as int + 1).drop_last() == fallback_rates().take(i as int));
        if hz != requested_hz {
            out.push(hz);
        }
        i = i + 1;
    }
    proof {
        assert(fallback_rates().take(5) == fallback_rates());
        lemma_without(fallback_rates(), requested_hz);
        let w = without(fallback_rates(), requested_hz);
        assert forall|i: int| 1 <= i < out@.len() implies out@[i] != requested_hz by {
            assert(out@[i] == w[i - 1]);
        }
        assert forall|j: int| 0 <= j < fallback_rates().len() implies out@.contains(
            #[trigger] fallback_rates()[j],
        ) by {
            if fallback_rates()[j] != requested_hz {
                let k = choose|k: int| 0 <= k < w.len() && w[k] == fallback_rates()[j];
                assert(out@[k + 1] == fallback_rates()[j]);
            } else {
                assert(out@[0] == fallback_rates()[j]);
            }
        }
    }
    out
}

/// The sample rate a start request asks for.
pub fn requested_sample_rate(sample_rate_hz: Option<u32>) -> (r: u32)
    ensures
        r == match sample_rate_hz {
            Some(hz) => hz,
            None => DEFAULT_SAMPLE_RATE_HZ,
        },
{
    match sample_rate_hz {
        Some(hz) => hz,
        None => DEFAULT_SAMPLE_RATE_HZ,
    }
}

/// The local-oscillator offset at a sample rate: a quarter of it, which
/// parks the hardware DC spike away from the tuned carrier.
pub fn lo_offset_hz(sample_rate_hz: u32) -> (r: u32)
    ensures
        r == sample_rate_hz / 4,
{
    sample_rate_hz / 4
}

/// The centre frequency asked of the tuner for a wanted carrier: the
/// offset below it, floored at zero.
pub open spec fn tuner_target(frequency_hz: int, sample_rate_hz: int) -> int {
    let off = sample_rate_hz / 4;
    if frequency_hz >= off { frequency_hz - off } else { 0 }
}

/// The carrier frequency a tuner centre stands for: the offset above it,
/// capped at `u32::MAX`.
pub open spec fn carrier_of(center_hz: int, sample_rate_hz: int) -> int {
    let f = center_hz + sample_rate_hz / 4;
    if f > u32::MAX { u32::MAX as int } else { f }
}

/// The tuner centre for carrier `frequency_hz` at `sample_rate_hz`.
pub fn tuner_center_for(frequency_hz: u32, sample_rate_hz: u32) -> (r: u32)
    ensures
        r == tuner_target(frequency_hz as int, sample_rate_hz as int),
{
    frequency_hz.saturating_sub(lo_offset_hz(sample_rate_hz))
}

/// The carrier the user hears when the tuner reports centre `center_hz`.
pub fn carrier_for(center_hz: u32, sample_rate_hz: u32) -> (r: u32)
    ensures
        r == carrier_of(center_hz as int, sample_rate_hz as int),
{
    center_hz.saturating_add(lo_offset_hz(sample_rate_hz))
}

/// A carrier at or above the offset survives the trip to the tuner and
/// back: asking for `f` and reading back the centre that was set gives `f`.
pub proof fn lemma_carrier_round_trip(frequency_hz: u32, sample_rate_hz: u32)
    requires
        frequency_hz >= sample_rate_hz / 4,
    ensures
        carrier_of(tuner_target(frequency_hz as int, sample_rate_hz as int), sample_rate_hz as int)
            == frequency_hz,
{
}

/// `{candidate}: {message}`, one failed rate in the start error.
pub open spec fn rate_failure_text(candidate: u32, message: Seq<char>) -> Seq<char> {
    decimal(candidate as nat) + ": "@ + message
}

/// The entries of `parts` joined by ` | `.
pub open spec fn joined(parts: Seq<Seq<char>>) -> Seq<char>
    decreases parts.len(),
{
    if parts.len() == 0 {
        Seq::empty()
    } else if parts.len() == 1 {
        parts[0]
    } else {
        joined(parts.drop_last()) + " | "@ + parts.last()
    }
}

/// The text views of a list of strings.
pub open spec fn texts(v: Seq<String>) -> Seq<Seq<char>> {
    v.map_values(|s: String| s@)
}

/// Finding a sample rate for the dongle: the candidates are tried in order
/// until one is accepted; each refusal is recorded for the error report.
pub struct RateProbe {
    requested: u32,
    candidates: Vec<u32>,
    next: usize,
    applied: Option<u32>,
    failures: Vec<String>,
}

impl RateProbe {
    pub closed spec fn spec_requested(&self) -> u32 {
        self.requested
    }

    pub closed spec fn spec_candidates(&self) -> Seq<u32> {
        self.candidates@
    }

    /// How many candidates have been refused so far.
    pub closed spec fn spec_tried(&self) -> int {
        self.next as int
    }

    pub closed spec fn spec_applied(&self) -> Option<u32> {
        self.applied
    }

    /// The refusals so far, each as `{rate}: {message}`.
    pub closed spec fn spec_failures(&self) -> Seq<Seq<char>> {
        texts(self.failures@)
    }

    pub closed spec fn wf(&self) -> bool {
        &&& self.candidates@ == rate_candidates(self.requested)
        &&& self.next <= self.candidates@.len() <= 6
        &&& self.failures@.len() == self.next
        &&& (self.applied matches Some(hz) ==> self.next < self.candidates@.len() && hz
            == self.candidates@[self.next as int])
    }

    /// A probe for `requested_hz` that has tried nothing yet.
    pub fn new(requested_hz: u32) -> (r: Self)
        ensures
            r.wf(),
            r.spec_requested() == requested_hz,
            r.spec_candidates() == rate_candidates(requested_hz),
            r.spec_tried() == 0,
            r.spec_applied() is None,
            r.spec_failures() == Seq::<Seq<char>>::empty(),
    {
        let r = RateProbe {
            requested: requested_hz,
            candidates: sample_rate_candidates(requested_hz),
            next: 0,
            applied: None,
            failures: Vec::new(),
        };
        assert(texts(r.failures@) =~= Seq::<Seq<char>>::empty());
        r
    }

    /// The rate to try next: none once one was accepted or all were refused.
    pub fn next_candidate(&self) -> (r: Option<u32>)
        requires
            self.wf(),
        ensures
            r == if self.spec_applied() is None && self.spec_tried() < self.spec_candidates().len() {
                Some(self.spec_candidates()[self.spec_tried()])
            } else {
                None::<u32>
            },
    {
        if self.applied.is_none() && self.next < self.candidates.len() {
            Some(self.candidates[self.next])
        } else {
            None
        }
    }

    /// The rate last offered was accepted.
    pub fn accept(&mut self)
        requires
            old(self).wf(),
            old(self).spec_applied() is None,
            old(self).spec_tried() < old(self).spec_candidates().len(),
        ensures
            final(self).wf(),
            final(self).spec_applied() == Some(old(self).spec_candidates()[old(self).spec_tried()]),
            final(self).spec_tried() == old(self).spec_tried(),
            final(self).spec_requested() == old(self).spec_requested(),
            final(self).spec_candidates() == old(self).spec_candidates(),
            final(self).spec_failures() == old(self).spec_failures(),
    {
        self.applied = Some(self.candidates[self.next]);
    }

    /// The rate last offered was refused with `message`.
    pub fn refuse(&mut self, message: &str)
        requires
            old(self).wf(),
            old(self).spec_applied() is None,
            old(self).spec_tried() < old(self).spec_candidates().len(),
        ensures
            final(self).wf(),
            final(self).spec_applied() is None,
            final(self).spec_tried() == old(self).spec_tried() + 1,
            final(self).spec_requested() == old(self).spec_requested(),
            final(self).spec_candidates() == old(self).spec_candidates(),
            final(self).spec_failures() == old(self).spec_failures().push(
                rate_failure_text(old(self).spec_candidates()[old(self).spec_tried()], message@),
            ),
    {
        let candidate = self.candidates[self.next];
        let next = self.next + 1;
        let mut entry = String::new();
        push_digits(&mut entry, candidate as u128, 10);
        entry.append(": ");
        entry.append(message);
        proof {
            reveal_strlit(": ");
            assert(entry@ == rate_failure_text(candidate, message@));
        }
        self.failures.push(entry);
        self.next = next;
        proof {
            assert(texts(self.failures@) =~= texts(old(self).failures@).push(
                rate_failure_text(candidate, message@),
            ));
        }
    }

    /// The outcome once no candidate is left to try: the accepted rate, or
    /// a stream error listing every refusal.
    pub fn outcome(&self) -> (r: Result<u32, RailError>)
        requires
            self.wf(),
        ensures
            self.spec_applied() matches Some(hz) ==> r == Ok::<u32, RailError>(hz),
            self.spec_applied() is None ==> (r matches Err(e) && e@ == RailErrorView::StreamError(
                "failed to set sample rate (requested "@ + decimal(self.spec_requested() as nat)
                    + "): "@ + joined(self.spec_failures()),
            )),
    {
        match self.applied {
            Some(hz) => Ok(hz),
            None => {
                let mut msg = String::from_str("failed to set sample rate (requested ");
                push_digits(&mut msg, self.requested as u128, 10);
                msg.append("): ");
                let ghost prefix = msg@;
                let mut i: usize = 0;
                while i < self.failures.len()
                    invariant
                        0 <= i <= self.failures@.len(),
                        msg@ == prefix + joined(texts(self.failures@).take(i as int)),
                    decreases self.failures@.len() - i,
                {
                    proof {
                        let t = texts(self.failures@);
                        assert(t.take(i as int + 1).drop_last() == t.take(i as int));
                    }
                    if i > 0 {
                        msg.append(" | ");
                    }
                    msg.append(self.failures[i].as_str());
                    proof {
                        reveal_strlit(" | ");
                        let t = texts(self.failures@);
                        if i == 0 {
                            assert(t.take(0) =~= Seq::<Seq<char>>::empty());
                            assert(joined(t.take(1)) == t[0]);
                        }
                        assert(msg@ =~= prefix + joined(t.take(i as int + 1)));
                    }
                    i = i + 1;
                }
                proof {
                    reveal_strlit("failed to set sample rate (requested ");
                    reveal_strlit("): ");
                    assert(texts(self.failures@).take(self.failures@.len() as int) =~= texts(
                        self.failures@,
                    ));
                }
                Err(RailError::StreamError(msg))
            },
        }
    }
}

/// A probe records one refusal per candidate tried, and the rate it
/// settles on is the candidate after the refused ones: the first the
/// dongle accepted.
pub proof fn lemma_probe_history(p: RateProbe)
    requires
        p.wf(),
    ensures
        p.spec_failures().len() == p.spec_tried(),
        p.spec_tried() <= p.spec_candidates().len(),
        p.spec_candidates() == rate_candidates(p.spec_requested()),
        p.spec_applied() matches Some(hz) ==> p.spec_tried() < p.spec_candidates().len() && hz
            == p.spec_candidates()[p.spec_tried()],
{
}

/// Demodulators the session can run: wideband and narrowband FM, AM, the
/// two sidebands, and CW.
#[derive(Debug, Clone, Copy, PartialEq, Eq, Structural)]
pub enum DemodMode {
    Fm,
    Nfm,
    Am,
    Usb,
    Lsb,
    Cw,
}

/// The wire name of a demodulator mode.
pub open spec fn demod_name(m: DemodMode) -> Seq<char> {
    match m {
        DemodMode::Fm => "FM"@,
        DemodMode::Nfm => "NFM"@,
        DemodMode::Am => "AM"@,
        DemodMode::Usb => "USB"@,
        DemodMode::Lsb => "LSB"@,
        DemodMode::Cw => "CW"@,
    }
}

impl DemodMode {
    /// The wire name of the mode (`FM`, `NFM`, `AM`, `USB`, `LSB` or `CW`).
    pub fn name(&self) -> (r: &'static str)
        ensures
            r@ == demod_name(*self),
    {
        match self {
            DemodMode::Fm => {
                proof {
                    reveal_strlit("FM");
                }
                "FM"
            },
            DemodMode::Nfm => {
                proof {
                    reveal_strlit("NFM");
                }
                "NFM"
            },
            DemodMode::Am => {
                proof {
                    reveal_strlit("AM");
                }
                "AM"
            },
            DemodMode::Usb => {
                proof {
                    reveal_strlit("USB");
                }
                "USB"
            },
            DemodMode::Lsb => {
                proof {
                    reveal_strlit("LSB");
                }
                "LSB"
            },
            DemodMode::Cw => {
                proof {
                    reveal_strlit("CW");
                }
                "CW"
            },
        }
    }
}

/// The mode a wire name stands for, if it names one.
pub open spec fn parsed_mode(s: Seq<char>) -> Option<DemodMode> {
    if s == "FM"@ {
        Some(DemodMode::Fm)
    } else if s == "NFM"@ {
        Some(DemodMode::Nfm)
    } else if s == "AM"@ {
        Some(DemodMode::Am)
    } else if s == "USB"@ {
        Some(DemodMode::Usb)
    } else if s == "LSB"@ {
        Some(DemodMode::Lsb)
    } else if s == "CW"@ {
        Some(DemodMode::Cw)
    } else {
        None
    }
}

/// Parses a wire mode name: one of `FM`, `NFM`, `AM`, `USB`, `LSB`, `CW`,
/// exactly as written; anything else is refused as unknown.
pub fn parse_mode(s: &str) -> (r: Result<DemodMode, RailError>)
    ensures
        parsed_mode(s@) matches Some(m) ==> r == Ok::<DemodMode, RailError>(m),
        parsed_mode(s@) is None ==> (r matches Err(e) && e@ == RailErrorView::InvalidParameter(
            "unknown mode: "@ + s@,
        )),
{
    if str_eq(s, "FM") {
        Ok(DemodMode::Fm)
    } else if str_eq(s, "NFM") {
        Ok(DemodMode::Nfm)
    } else if str_eq(s, "AM") {
        Ok(DemodMode::Am)
    } else if str_eq(s, "USB") {
        Ok(DemodMode::Usb)
    } else if str_eq(s, "LSB") {
        Ok(DemodMode::Lsb)
    } else if str_eq(s, "CW") {
        Ok(DemodMode::Cw)
    } else {
        let mut msg = String::from_str("unknown mode: ");
        msg.append(s);
        Err(RailError::InvalidParameter(msg))
    }
}

/// The name a session records for a mode is the name that selects it.
pub proof fn lemma_mode_name_parses(m: DemodMode)
    ensures
        parsed_mode(demod_name(m)) == Some(m),
{
    reveal_strlit("FM");
    reveal_strlit("NFM");
    reveal_strlit("AM");
    reveal_strlit("USB");
    reveal_strlit("LSB");
    reveal_strlit("CW");
    assert("FM"@[0] != "NFM"@[0] && "FM"@[0] != "AM"@[0] && "FM"@[0] != "USB"@[0]);
    assert("FM"@[0] != "LSB"@[0] && "FM"@[0] != "CW"@[0]);
    assert("NFM"@[0] != "AM"@[0] && "NFM"@[0] != "USB"@[0] && "NFM"@[0] != "LSB"@[0]);
    assert("NFM"@[0] != "CW"@[0] && "AM"@[0] != "USB"@[0] && "AM"@[0] != "LSB"@[0]);
    assert("AM"@[0] != "CW"@[0] && "USB"@[0] != "LSB"@[0] && "USB"@[0] != "CW"@[0]);
    assert("LSB"@[0] != "CW"@[0]);
}

/// What a live session knows of its tuner: whether the tuning handle is
/// still held, and the gain steps the hardware offers (tenths of dB).
pub struct LiveTuning {
    pub tuner_available: bool,
    pub gains: Vec<i32>,
}

/// The source feeding a session.
pub enum SessionSource {
    Live(LiveTuning),
    Replay(ReplayInfo),
}

/// One running session: the stream's sample rate and the tuning last set
/// by the user, as shown in capture metadata and file names.
pub struct RadioSession {
    pub sample_rate_hz: u32,
    pub frequency_hz: u32,
    pub mode: String,
    pub bandwidth_hz: u32,
    /// Manual gain in tenths of dB; `None` while the tuner runs its AGC.
    pub gain_tenths_db: Option<i32>,
    pub source: SessionSource,
}

/// The text a replay session takes as its mode: the capture's, or `FM`
/// when the capture names none.
pub open spec fn replay_mode(info: ReplayInfo) -> Seq<char> {
    if info.demod_mode@.len() == 0 { "FM"@ } else { info.demod_mode@ }
}

impl RadioSession {
    /// A live session on a dongle streaming at `sample_rate_hz`, tuned to
    /// carrier `frequency_hz`: FM, 200 kHz, AGC.
    pub fn live(sample_rate_hz: u32, frequency_hz: u32, gains: Vec<i32>) -> (r: Self)
        ensures
            r.sample_rate_hz == sample_rate_hz,
            r.frequency_hz == frequency_hz,
            r.mode@ == "FM"@,
            r.bandwidth_hz == DEFAULT_BANDWIDTH_HZ,
            r.gain_tenths_db is None,
            r.source matches SessionSource::Live(l) && l.tuner_available && l.gains@ == gains@,
    {
        RadioSession {
            sample_rate_hz,
            frequency_hz,
            mode: String::from_str("FM"),
            bandwidth_hz: DEFAULT_BANDWIDTH_HZ,
            gain_tenths_db: None,
            source: SessionSource::Live(LiveTuning { tuner_available: true, gains }),
        }
    }

    /// A replay session of a capture: its rate, its centre frequency
    /// (capped at `u32::MAX`), its mode (`FM` when empty) and its
    /// bandwidth (200 kHz when zero).
    pub fn replay(info: ReplayInfo) -> (r: Self)
        ensures
            r.sample_rate_hz == info.sample_rate_hz,
            r.frequency_hz == if info.center_frequency_hz > u32::MAX {
                u32::MAX
            } else {
                info.center_frequency_hz as u32
            },
            r.mode@ == replay_mode(info),
            r.bandwidth_hz == if info.filter_bandwidth_hz == 0 {
                DEFAULT_BANDWIDTH_HZ
            } else {
                info.filter_bandwidth_hz
            },
            r.gain_tenths_db is None,
            r.source == SessionSource::Replay(info),
    {
        let frequency_hz: u32 = if info.center_frequency_hz > u32::MAX as u64 {
            u32::MAX
        } else {
            info.center_frequency_hz as u32
        };
        let mode = if info.demod_mode.as_str().unicode_len() == 0 {
            String::from_str("FM")
        } else {
            String::from_str(info.demod_mode.as_str())
        };
        let bandwidth_hz = if info.filter_bandwidth_hz == 0 {
            DEFAULT_BANDWIDTH_HZ
        } else {
            info.filter_bandwidth_hz
        };
        RadioSession {
            sample_rate_hz: info.sample_rate_hz,
            frequency_hz,
            mode,
            bandwidth_hz,
            gain_tenths_db: None,
            source: SessionSource::Replay(info),
        }
    }

    /// Records a mode change.
    pub fn set_mode(&mut self, mode: DemodMode)
        ensures
            final(self).mode@ == demod_name(mode),
            final(self).sample_rate_hz == old(self).sample_rate_hz,
            final(self).frequency_hz == old(self).frequency_hz,
            final(self).bandwidth_hz == old(self).bandwidth_hz,
            final(self).gain_tenths_db == old(self).gain_tenths_db,
            final(self).source == old(self).source,
    {
        self.mode = String::from_str(mode.name());
    }
}

/// Which start command is asking for an idle session.
#[derive(Debug, Clone, Copy, PartialEq, Eq, Structural)]
pub enum StartKind {
    Stream,
    Replay,
}

/// Why a start command is refused while a session runs.
pub open spec fn busy_text(kind: StartKind) -> Seq<char> {
    match kind {
        StartKind::Stream => "stream already running"@,
        StartKind::Replay => "stop the current stream before opening a file"@,
    }
}

/// A new session may start only when none is running.
pub fn check_idle(session: Option<&RadioSession>, kind: StartKind) -> (r: Result<(), RailError>)
    ensures
        session is None ==> r is Ok,
        session is Some ==> (r matches Err(e) && e@ == RailErrorView::InvalidParameter(
            busy_text(kind),
        )),
{
    match session {
        None => Ok(()),
        Some(_) => match kind {
            StartKind::Stream => {
                proof {
                    reveal_strlit("stream already running");
                }
                Err(RailError::InvalidParameter(String::from_str("stream already running")))
            },
            StartKind::Replay => {
                proof {
                    reveal_strlit("stop the current stream before opening a file");
                }
                Err(
                    RailError::InvalidParameter(
                        String::from_str("stop the current stream before opening a file"),
                    ),
                )
            },
        },
    }
}

/// `stream not running`, the answer to a command that needs a session.
pub open spec fn not_running() -> RailErrorView {
    RailErrorView::InvalidParameter("stream not running"@)
}

fn not_running_error() -> (r: RailError)
    ensures
        r@ == not_running(),
{
    RailError::InvalidParameter(String::from_str("stream not running"))
}

/// A command that needs a running session of either kind.
pub fn check_running(session: Option<&RadioSession>) -> (r: Result<(), RailError>)
    ensures
        session is Some ==> r is Ok,
        session is None ==> (r matches Err(e) && e@ == not_running()),
{
    match session {
        Some(_) => Ok(()),
        None => Err(not_running_error()),
    }
}

/// The tuner operations a command can ask for.
#[derive(Debug, Clone, Copy, PartialEq, Eq, Structural)]
pub enum TuneRequest {
    Gain,
    Retune,
    Ppm,
}

/// Why a tuner operation is refused during replay.
pub open spec fn replay_refusal(op: TuneRequest) -> Seq<char> {
    match op {
        TuneRequest::Gain => "gain cannot be changed during replay"@,
        TuneRequest::Retune => "retune is not supported during replay"@,
        TuneRequest::Ppm => "PPM correction is not available during replay"@,
    }
}

/// A tuner operation needs a live session whose tuner is still held.
pub fn check_tuner(session: Option<&RadioSession>, op: TuneRequest) -> (r: Result<(), RailError>)
    ensures
        session is None ==> (r matches Err(e) && e@ == not_running()),
        session matches Some(s) ==> match s.source {
            SessionSource::Replay(_) => (r matches Err(e) && e@ == RailErrorView::InvalidParameter(
                replay_refusal(op),
            )),
            SessionSource::Live(l) => if l.tuner_available {
                r is Ok
            } else {
                (r matches Err(e) && e@ == RailErrorView::InvalidParameter("tuner unavailable"@))
            },
        },
{
    match session {
        None => Err(not_running_error()),
        Some(s) => match &s.source {
            SessionSource::Replay(_) => {
                let msg = match op {
                    TuneRequest::Gain => {
                        proof {
                            reveal_strlit("gain cannot be changed during replay");
                        }
                        "gain cannot be changed during replay"
                    },
                    TuneRequest::Retune => {
                        proof {
                            reveal_strlit("retune is not supported during replay");
                        }
                        "retune is not supported during replay"
                    },
                    TuneRequest::Ppm => {
                        proof {
                            reveal_strlit("PPM correction is not available during replay");
                        }
                        "PPM correction is not available during replay"
                    },
                };
                Err(RailError::InvalidParameter(String::from_str(msg)))
            },
            SessionSource::Live(l) => {
                if l.tuner_available {
                    Ok(())
                } else {
                    Err(RailError::InvalidParameter(String::from_str("tuner unavailable")))
                }
            },
        },
    }
}

/// Decimal text of a signed integer.
pub open spec fn signed_decimal(n: int) -> Seq<char> {
    if n < 0 { "-"@ + decimal((-n) as nat) } else { decimal(n as nat) }
}

/// The manual gain to set: the requested step, which must be one the
/// hardware offers when it reported any.
pub fn manual_gain(gains: &Vec<i32>, tenths_db: Option<i32>) -> (r: Result<i32, RailError>)
    ensures
        tenths_db is None ==> (r matches Err(e) && e@ == RailErrorView::InvalidParameter(
            "manual gain requires tenthsDb"@,
        )),
        tenths_db matches Some(t) ==> if gains@.len() > 0 && !gains@.contains(t) {
            (r matches Err(e) && e@ == RailErrorView::InvalidParameter(
                "gain "@ + signed_decimal(t as int) + " not in supported set"@,
            ))
        } else {
            r == Ok::<i32, RailError>(t)
        },
{
    let t = match tenths_db {
        None => {
            return Err(RailError::InvalidParameter(String::from_str("manual gain requires tenthsDb")));
        },
        Some(t) => t,
    };
    if gains.len() == 0 {
        return Ok(t);
    }
    let mut i: usize = 0;
    while i < gains.len()
        invariant
            0 <= i <= gains@.len(),
            tenths_db == Some(t),
            forall|k: int| 0 <= k < i ==> gains@[k] != t,
        decreases gains@.len() - i,
    {
        if gains[i] == t {
            assert(gains@[i as int] == t);
            return Ok(t);
        }
        i = i + 1;
    }
    let mut msg = String::from_str("gain ");
    if t < 0 {
        msg.append("-");
        push_digits(&mut msg, (-(t as i64)) as u128, 10);
    } else {
        push_digits(&mut msg, t as u128, 10);
    }
    msg.append(" not in supported set");
    proof {
        reveal_strlit("gain ");
        reveal_strlit("-");
        reveal_strlit(" not in supported set");
        assert(msg@ =~= "gain "@ + signed_decimal(t as int) + " not in supported set"@);
    }
    Err(RailError::InvalidParameter(msg))
}

/// The gain steps of a live session; empty for replay or no session.
pub fn session_gains(session: Option<&RadioSession>) -> (r: Vec<i32>)
    ensures
        r@ == match session {
            Some(s) => match s.source {
                SessionSource::Live(l) => l.gains@,
                SessionSource::Replay(_) => Seq::<i32>::empty(),
            },
            None => Seq::<i32>::empty(),
        },
{
    let mut out: Vec<i32> = Vec::new();
    if let Some(s) = session {
        if let SessionSource::Live(l) = &s.source {
            let mut i: usize = 0;
            while i < l.gains.len()
                invariant
                    0 <= i <= l.gains@.len(),
                    out@ == l.gains@.take(i as int),
                decreases l.gains@.len() - i,
            {
                out.push(l.gains[i]);
                i = i + 1;
                proof {
                    assert(out@ =~= l.gains@.take(i as int));
                }
            }
            proof {
                assert(l.gains@.take(l.gains@.len() as int) =~= l.gains@);
            }
        }
    }
    out
}

/// The narrowest channel bandwidth accepted, in Hz.
pub const MIN_BANDWIDTH_HZ: u32 = 1_000;

/// A channel bandwidth must be at least 1 kHz.
pub fn check_bandwidth(bandwidth_hz: u32) -> (r: Result<(), RailError>)
    ensures
        bandwidth_hz >= MIN_BANDWIDTH_HZ ==> r is Ok,
        bandwidth_hz < MIN_BANDWIDTH_HZ ==> (r matches Err(e) && e@
            == RailErrorView::InvalidParameter("bandwidth must be >= 1 kHz"@)),
{
    if bandwidth_hz < MIN_BANDWIDTH_HZ {
        Err(RailError::InvalidParameter(String::from_str("bandwidth must be >= 1 kHz")))
    } else {
        Ok(())
    }
}

/// A transport command needs a running replay session.
pub fn check_replay(session: Option<&RadioSession>) -> (r: Result<(), RailError>)
    ensures
        session is None ==> (r matches Err(e) && e@ == RailErrorView::InvalidParameter(
            "no session running"@,
        )),
        session matches Some(s) ==> match s.source {
            SessionSource::Replay(_) => r is Ok,
            SessionSource::Live(_) => (r matches Err(e) && e@ == RailErrorView::InvalidParameter(
                "no replay in progress"@,
            )),
        },
{
    match session {
        None => Err(RailError::InvalidParameter(String::from_str("no session running"))),
        Some(s) => match &s.source {
            SessionSource::Replay(_) => Ok(()),
            SessionSource::Live(_) => Err(
                RailError::InvalidParameter(String::from_str("no replay in progress")),
            ),
        },
    }
}

/// The sample index a seek to `position_ms` sends to the replay reader,
/// clamped to the capture held by the session.
pub fn seek_target(session: Option<&RadioSession>, position_ms: u64) -> (r: Result<u64, RailError>)
    ensures
        session is None ==> (r matches Err(e) && e@ == RailErrorView::InvalidParameter(
            "no session running"@,
        )),
        session matches Some(s) ==> match s.source {
            SessionSource::Replay(info) => r == Ok::<u64, RailError>(
                sample_index_at(
                    position_ms as int,
                    info.sample_rate_hz as int,
                    info.total_samples as int,
                ) as u64,
            ),
            SessionSource::Live(_) => (r matches Err(e) && e@ == RailErrorView::InvalidParameter(
                "no replay in progress"@,
            )),
        },
{
    match session {
        None => Err(RailError::InvalidParameter(String::from_str("no session running"))),
        Some(s) => match &s.source {
            SessionSource::Replay(info) => Ok(
                ms_to_sample_idx(position_ms, info.sample_rate_hz, info.total_samples),
            ),
            SessionSource::Live(_) => Err(
                RailError::InvalidParameter(String::from_str("no replay in progress")),
            ),
        },
    }
}

#[verifier::external_type_specification]
#[verifier::external_body]
#[verifier::reject_recursive_types(T)]
pub struct ExPoisonError<T>(std::sync::PoisonError<T>);

/// The answer to a command that finds the session lock poisoned.
pub fn session_poisoned<T>(_err: std::sync::PoisonError<T>) -> (r: RailError)
    ensures
        r@ == RailErrorView::StreamError("session lock poisoned"@),
{
    proof {
        reveal_strlit("session lock poisoned");
    }
    RailError::StreamError(String::from_str("session lock poisoned"))
}

/// Arguments of the start-stream command.
pub struct StartStreamArgs {
    pub frequency_hz: u32,
    pub sample_rate_hz: Option<u32>,
}

/// What a started stream tells the front end: the waterfall FFT size,
/// the stream's rate and carrier, the gain steps, and the audio format.
pub struct StartStreamReply {
    pub fft_size: usize,
    pub sample_rate_hz: u32,
    pub frequency_hz: u32,
    pub available_gains_tenths_db: Vec<i32>,
    pub audio_sample_rate_hz: u32,
    pub audio_chunk_samples: usize,
}

impl StartStreamReply {
    /// The reply for a stream at `sample_rate_hz` tuned to `frequency_hz`.
    pub fn new(sample_rate_hz: u32, frequency_hz: u32, gains: Vec<i32>) -> (r: Self)
        ensures
            r.fft_size == FFT_SIZE,
            r.sample_rate_hz == sample_rate_hz,
            r.frequency_hz == frequency_hz,
            r.available_gains_tenths_db@ == gains@,
            r.audio_sample_rate_hz == AUDIO_SAMPLE_RATE_HZ,
            r.audio_chunk_samples == AUDIO_CHUNK_SAMPLES,
    {
        StartStreamReply {
            fft_size: FFT_SIZE,
            sample_rate_hz,
            frequency_hz,
            available_gains_tenths_db: gains,
            audio_sample_rate_hz: AUDIO_SAMPLE_RATE_HZ,
            audio_chunk_samples: AUDIO_CHUNK_SAMPLES,
        }
    }
}

/// Arguments of the set-gain command: AGC, or a manual step.
pub struct SetGainArgs {
    pub auto: bool,
    pub tenths_db: Option<i32>,
}

/// Arguments of the retune command.
pub struct RetuneArgs {
    pub frequency_hz: u32,
}

/// The carrier actually tuned.
pub struct RetuneReply {
    pub frequency_hz: u32,
}

/// Arguments of the frequency-correction command.
pub struct SetPpmArgs {
    pub ppm: i32,
}

/// Arguments of the set-mode command.
pub struct SetModeArgs {
    pub mode: String,
}

/// Arguments of the set-bandwidth command.
pub struct SetBandwidthArgs {
    pub bandwidth_hz: u32,
}

/// A capture's metadata as handed to the front end, with its duration.
pub struct ReplayInfoReply {
    pub data_path: String,
    pub meta_path: String,
    pub sample_rate_hz: u32,
    pub center_frequency_hz: u64,
    pub demod_mode: String,
    pub filter_bandwidth_hz: u32,
    pub total_samples: u64,
    pub duration_ms: u64,
    pub datetime_iso8601: String,
}

impl ReplayInfoReply {
    /// The reply for a capture's metadata.
    pub fn from_info(info: &ReplayInfo) -> (r: Self)
        ensures
            r.data_path@ == info.data_path@,
            r.meta_path@ == info.meta_path@,
            r.sample_rate_hz == info.sample_rate_hz,
            r.center_frequency_hz == info.center_frequency_hz,
            r.demod_mode@ == info.demod_mode@,
            r.filter_bandwidth_hz == info.filter_bandwidth_hz,
            r.total_samples == info.total_samples,
            r.duration_ms == samples_to_ms(info.total_samples as int, info.sample_rate_hz as int),
            r.datetime_iso8601@ == info.datetime_iso8601@,
    {
        ReplayInfoReply {
            data_path: info.data_path.clone(),
            meta_path: info.meta_path.clone(),
            sample_rate_hz: info.sample_rate_hz,
            center_frequency_hz: info.center_frequency_hz,
            demod_mode: info.demod_mode.clone(),
            filter_bandwidth_hz: info.filter_bandwidth_hz,
            total_samples: info.total_samples,
            duration_ms: info.duration_ms(),
            datetime_iso8601: info.datetime_iso8601.clone(),
        }
    }
}

/// Arguments of the open-replay command.
pub struct OpenReplayArgs {
    pub data_path: String,
}

/// Arguments of the start-replay command.
pub struct StartReplayArgs {
    pub data_path: String,
}

/// What a started replay tells the front end.
pub struct StartReplayReply {
    pub fft_size: usize,
    pub sample_rate_hz: u32,
    pub frequency_hz: u32,
    pub audio_sample_rate_hz: u32,
    pub audio_chunk_samples: usize,
    pub info: ReplayInfoReply,
}

impl StartReplayReply {
    /// The reply for a replay session of the capture `info`.
    pub fn new(session: &RadioSession, info: &ReplayInfo) -> (r: Self)
        ensures
            r.fft_size == FFT_SIZE,
            r.sample_rate_hz == session.sample_rate_hz,
            r.frequency_hz == session.frequency_hz,
            r.audio_sample_rate_hz == AUDIO_SAMPLE_RATE_HZ,
            r.audio_chunk_samples == AUDIO_CHUNK_SAMPLES,
            r.info.data_path@ == info.data_path@,
            r.info.meta_path@ == info.meta_path@,
            r.info.sample_rate_hz == info.sample_rate_hz,
            r.info.center_frequency_hz == info.center_frequency_hz,
            r.info.demod_mode@ == info.demod_mode@,
            r.info.filter_bandwidth_hz == info.filter_bandwidth_hz,
            r.info.total_samples == info.total_samples,
            r.info.duration_ms == samples_to_ms(info.total_samples as int, info.sample_rate_hz as int),
            r.info.datetime_iso8601@ == info.datetime_iso8601@,
    {
        StartReplayReply {
            fft_size: FFT_SIZE,
            sample_rate_hz: session.sample_rate_hz,
            frequency_hz: session.frequency_hz,
            audio_sample_rate_hz: AUDIO_SAMPLE_RATE_HZ,
            audio_chunk_samples: AUDIO_CHUNK_SAMPLES,
            info: ReplayInfoReply::from_info(info),
        }
    }
}

/// Arguments of the seek command.
pub struct SeekReplayArgs {
    pub position_ms: u64,
}

/// The tuning a capture records in its metadata and file name.
pub struct RadioSnapshot {
    pub frequency_hz: u64,
    pub mode: String,
    pub bandwidth_hz: u32,
    pub gain_tenths_db: Option<i32>,
    pub sample_rate_hz: u32,
}

/// The current tuning of the running session.
pub fn radio_snapshot(session: Option<&RadioSession>) -> (r: Result<RadioSnapshot, RailError>)
    ensures
        session is None ==> (r matches Err(e) && e@ == not_running()),
        session matches Some(s) ==> (r matches Ok(snap) && snap.frequency_hz == s.frequency_hz
            && snap.mode@ == s.mode@ && snap.bandwidth_hz == s.bandwidth_hz && snap.gain_tenths_db
            == s.gain_tenths_db && snap.sample_rate_hz == s.sample_rate_hz),
{
    match session {
        None => Err(not_running_error()),
        Some(s) => Ok(
            RadioSnapshot {
                frequency_hz: s.frequency_hz as u64,
                mode: s.mode.clone(),
                bandwidth_hz: s.bandwidth_hz,
                gain_tenths_db: s.gain_tenths_db,
                sample_rate_hz: s.sample_rate_hz,
            },
        ),
    }
}

} // verus!

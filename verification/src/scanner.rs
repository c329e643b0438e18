//! Wideband scanner: the sweep's frequency list and the step-by-step
//! decisions of a sweep. Retuning, waiting and the power measurement are
//! done by the caller, which reports each step's outcome back.
use vstd::prelude::*;

verus! {

/// Number of frequencies a sweep from `start` to `stop` by `step` visits
/// before any saturation at `u32::MAX`.
pub open spec fn sweep_base_len(start: int, stop: int, step: int) -> int {
    if step == 0 || start > stop { 1 } else { (stop - start) / step + 1 }
}

/// A sweep that reaches `u32::MAX` by saturation also visits `u32::MAX`.
pub open spec fn sweep_ends_saturated(start: int, stop: int, step: int) -> bool {
    step > 0 && start <= stop && stop == u32::MAX && start + (sweep_base_len(start, stop, step)
        - 1) * step < u32::MAX
}

/// The frequencies of a sweep: `start, start + step, ...` up to `stop`
/// inclusive (always at least `start`), followed by `u32::MAX` when the
/// next step saturates there and `stop` is `u32::MAX`.
pub open spec fn sweep(start: int, stop: int, step: int) -> Seq<u32> {
    let base = Seq::new(sweep_base_len(start, stop, step) as nat, |k: int| (start + k * step) as u32);
    if sweep_ends_saturated(start, stop, step) { base.push(u32::MAX) } else { base }
}

/// Builds the ordered list of frequencies a sweep visits.
pub fn build_frequency_list(start_hz: u32, stop_hz: u32, step_hz: u32) -> (r: Vec<u32>)
    ensures
        r@ == sweep(start_hz as int, stop_hz as int, step_hz as int),
{
    let ghost start = start_hz as int;
    let ghost stop = stop_hz as int;
    let ghost step = step_hz as int;
    let mut freqs: Vec<u32> = Vec::new();
    let mut f: u32 = start_hz;
    let ghost mut k: int = 0;
    loop
        invariant
            start == start_hz as int,
            stop == stop_hz as int,
            step == step_hz as int,
            freqs@.len() == k,
            0 <= k,
            forall|i: int| 0 <= i < k ==> freqs@[i] == (start + i * step) as u32,
            f as int == start + k * step,
            k > 0 ==> step > 0 && start <= stop && f <= stop,
            k < sweep_base_len(start, stop, step),
        decreases u32::MAX - f,
    {
        freqs.push(f);
        proof {
            assert(freqs@[k] == (start + k * step) as u32);
        }
        let next: u32 = if f > u32::MAX - step_hz { u32::MAX } else { f + step_hz };
        if next > stop_hz || next == f {
            proof {
                let n = k + 1;
                if step > 0 && start <= stop {
                    // `f` was the last in-range point, so `n` is the base length
                    assert(f + step > stop || f + step > u32::MAX);
                    if f + step <= u32::MAX {
                        assert((stop - start) / step == k) by (nonlinear_arith)
                            requires
                                f == start + k * step,
                                f <= stop,
                                f + step > stop,
                                step > 0,
                                k >= 0,
                        ;
                    } else {
                        assert((stop - start) / step == k) by (nonlinear_arith)
                            requires
                                f == start + k * step,
                                f <= stop,
                                stop <= u32::MAX,
                                f + step > u32::MAX,
                                step > 0,
                                k >= 0,
                        ;
                    }
                }
                assert(!sweep_ends_saturated(start, stop, step));
                assert(freqs@ =~= sweep(start, stop, step));
            }
            return freqs;
        }
        if next < f || (f > u32::MAX - step_hz) {
            // saturated at u32::MAX, which is `stop`
            proof {
                assert(step > 0 && start <= stop);
                assert((stop - start) / step == k) by (nonlinear_arith)
                    requires
                        f == start + k * step,
                        f <= stop,
                        stop <= u32::MAX,
                        f + step > u32::MAX,
                        step > 0,
                        k >= 0,
                ;
            }
            freqs.push(next);
            proof {
                assert(sweep_ends_saturated(start, stop, step));
                assert(freqs@ =~= sweep(start, stop, step));
            }
            return freqs;
        }
        proof {
            assert(step > 0);
            assert(start <= stop);
            assert(start + (k + 1) * step == start + k * step + step) by (nonlinear_arith);
            assert(k + 1 < sweep_base_len(start, stop, step)) by (nonlinear_arith)
                requires
                    f + step == start + (k + 1) * step,
                    f + step <= stop,
                    step > 0,
                    k >= 0,
                    start <= stop,
                    sweep_base_len(start, stop, step) == (stop - start) / step + 1,
            ;
            assert(start + (k + 1) * step == start + k * step + step) by (nonlinear_arith);
            k = k + 1;
        }
        f = next;
    }
}

/// Reply to a scan request: every frequency the sweep will visit, in order.
pub struct ScanStartReply {
    pub frequencies_hz: Vec<u32>,
}

/// How a sweep ended: it visited every frequency, or it stopped at the
/// first one whose measured signal exceeded the squelch.
#[derive(Debug, Clone, Copy, PartialEq, Eq, Structural)]
pub enum ScanOutcome {
    Complete,
    StoppedAt(u32),
}

/// What the sweep asks of the caller next.
#[derive(Debug, Clone, Copy, PartialEq, Eq, Structural)]
pub enum ScanAction {
    /// Park the tuner at `tuner_hz` (the target minus the LO offset,
    /// saturating at zero) and measure the channel at `frequency_hz`.
    Retune { tuner_hz: u32, frequency_hz: u32 },
    /// The sweep is over.
    Finish(ScanOutcome),
}

/// Progress of one sweep over a frequency list.
pub struct ScanSweep {
    frequencies_hz: Vec<u32>,
    lo_offset_hz: u32,
    position: usize,
    stopped_at: Option<u32>,
}

impl ScanSweep {
    /// The frequencies of the sweep.
    pub closed spec fn spec_frequencies(&self) -> Seq<u32> {
        self.frequencies_hz@
    }

    /// The LO offset subtracted from each frequency when retuning.
    pub closed spec fn spec_lo_offset(&self) -> u32 {
        self.lo_offset_hz
    }

    /// How many frequencies have been handled so far.
    pub closed spec fn spec_position(&self) -> nat {
        self.position as nat
    }

    /// The frequency at which the sweep stopped early, if it did.
    pub closed spec fn spec_stopped_at(&self) -> Option<u32> {
        self.stopped_at
    }

    /// The sweep's internal consistency: the position is within the list
    /// and an early stop names the last handled frequency.
    pub closed spec fn wf(&self) -> bool {
        &&& self.position <= self.frequencies_hz@.len()
        &&& self.stopped_at matches Some(f) ==> self.position >= 1 && f == self.frequencies_hz@[self.position - 1]
    }

    /// A sweep over `frequencies_hz` with the given LO offset, not started.
    pub fn new(frequencies_hz: Vec<u32>, lo_offset_hz: u32) -> (r: Self)
        ensures
            r.wf(),
            r.spec_frequencies() == frequencies_hz@,
            r.spec_lo_offset() == lo_offset_hz,
            r.spec_position() == 0,
            r.spec_stopped_at() is None,
    {
        ScanSweep { frequencies_hz, lo_offset_hz, position: 0, stopped_at: None }
    }

    /// The next step: retune to the next unvisited frequency, or finish
    /// (stopped early, or every frequency handled).
    pub fn next_action(&self) -> (r: ScanAction)
        requires
            self.wf(),
        ensures
            self.spec_stopped_at() matches Some(f) ==> r == ScanAction::Finish(ScanOutcome::StoppedAt(f)),
            self.spec_stopped_at() is None && self.spec_position() == self.spec_frequencies().len()
                ==> r == ScanAction::Finish(ScanOutcome::Complete),
            self.spec_stopped_at() is None && self.spec_position() < self.spec_frequencies().len()
                ==> r == ({
                let f = self.spec_frequencies()[self.spec_position() as int];
                ScanAction::Retune {
                    tuner_hz: if f >= self.spec_lo_offset() { (f - self.spec_lo_offset()) as u32 } else { 0 },
                    frequency_hz: f,
                }
            }),
    {
        if let Some(f) = self.stopped_at {
            return ScanAction::Finish(ScanOutcome::StoppedAt(f));
        }
        if self.position >= self.frequencies_hz.len() {
            return ScanAction::Finish(ScanOutcome::Complete);
        }
        let f = self.frequencies_hz[self.position];
        let tuner_hz = if f >= self.lo_offset_hz { f - self.lo_offset_hz } else { 0 };
        ScanAction::Retune { tuner_hz, frequency_hz: f }
    }

    /// Records the current frequency as handled without a measurement
    /// (its retune failed); the sweep moves on.
    pub fn skip_current(&mut self)
        requires
            old(self).wf(),
            old(self).spec_stopped_at() is None,
            old(self).spec_position() < old(self).spec_frequencies().len(),
        ensures
            final(self).wf(),
            final(self).spec_frequencies() == old(self).spec_frequencies(),
            final(self).spec_lo_offset() == old(self).spec_lo_offset(),
            final(self).spec_position() == old(self).spec_position() + 1,
            final(self).spec_stopped_at() is None,
    {
        let n = self.frequencies_hz.len();
        assert(self.position < n);
        self.position = self.position + 1;
    }

    /// Records the measurement at the current frequency. When it exceeded
    /// the squelch the sweep stops there; otherwise it moves on.
    pub fn record_measurement(&mut self, exceeded_squelch: bool)
        requires
            old(self).wf(),
            old(self).spec_stopped_at() is None,
            old(self).spec_position() < old(self).spec_frequencies().len(),
        ensures
            final(self).wf(),
            final(self).spec_frequencies() == old(self).spec_frequencies(),
            final(self).spec_lo_offset() == old(self).spec_lo_offset(),
            final(self).spec_position() == old(self).spec_position() + 1,
            exceeded_squelch ==> final(self).spec_stopped_at() == Some(
                old(self).spec_frequencies()[old(self).spec_position() as int],
            ),
            !exceeded_squelch ==> final(self).spec_stopped_at() is None,
    {
        let n = self.frequencies_hz.len();
        let f = self.frequencies_hz[self.position];
        assert(self.position < n);
        self.position = self.position + 1;
        if exceeded_squelch {
            self.stopped_at = Some(f);
        }
    }
}

/// Wait after a retune before measuring, in milliseconds (the dongle
/// flushes samples of the old frequency meanwhile).
pub const SETTLE_MS: u64 = 40;

/// Interval between cancellation checks while dwelling, in milliseconds.
pub const POLL_INTERVAL_MS: u64 = 20;

/// How many poll intervals a dwell of `dwell_ms` waits: the least number
/// whose total reaches the dwell.
pub fn dwell_polls(dwell_ms: u64) -> (r: u64)
    ensures
        r * POLL_INTERVAL_MS >= dwell_ms,
        r == 0 || (r - 1) * POLL_INTERVAL_MS < dwell_ms,
{
    let q = dwell_ms / POLL_INTERVAL_MS;
    if dwell_ms % POLL_INTERVAL_MS == 0 { q } else { q + 1 }
}

/// A sweep starts at its start frequency, rises strictly, and never
/// passes its stop frequency (when the stop is not below the start).
pub proof fn lemma_sweep_rises_within_range(start: u32, stop: u32, step: u32)
    requires
        step > 0,
    ensures
        sweep(start as int, stop as int, step as int)[0] == start,
        forall|i: int, j: int|
            0 <= i < j < sweep(start as int, stop as int, step as int).len() ==> #[trigger] sweep(
                start as int,
                stop as int,
                step as int,
            )[i] < #[trigger] sweep(start as int, stop as int, step as int)[j],
        start <= stop ==> forall|i: int|
            0 <= i < sweep(start as int, stop as int, step as int).len() ==> start <= #[trigger] sweep(
                start as int,
                stop as int,
                step as int,
            )[i] <= stop,
{
    let s = sweep(start as int, stop as int, step as int);
    let n = sweep_base_len(start as int, stop as int, step as int);
    if start <= stop {
        assert((stop - start) / (step as int) * (step as int) <= stop - start) by (nonlinear_arith)
            requires
                step > 0,
                stop - start >= 0,
        ;
        assert forall|k: int| 0 <= k < n implies start + k * step <= stop && #[trigger] s[k]
            == start + k * step by {
            assert(k * step <= (n - 1) * step) by (nonlinear_arith)
                requires
                    0 <= k <= n - 1,
                    step > 0,
            ;
            assert(k * step >= 0) by (nonlinear_arith)
                requires
                    0 <= k,
                    step > 0,
            ;
        }
        assert forall|i: int, j: int| 0 <= i < j < s.len() implies #[trigger] s[i] < #[trigger] s[j] by {
            if j < n {
                assert(i * step < j * step) by (nonlinear_arith)
                    requires
                        0 <= i < j,
                        step > 0,
                ;
                assert(s[j] == start + j * step);
                assert(s[i] == start + i * step);
                assert(start + i * step >= 0) by (nonlinear_arith)
                    requires
                        0 <= i,
                        step > 0,
                        start >= 0,
                ;
            } else {
                assert(s[i] == start + i * step);
                assert(i * step <= (n - 1) * step) by (nonlinear_arith)
                    requires
                        0 <= i <= n - 1,
                        step > 0,
                ;
                assert(start + i * step < u32::MAX);
            }
        }
        assert forall|i: int| 0 <= i < s.len() implies start <= #[trigger] s[i] <= stop by {
            if i < n {
                assert(s[i] == start + i * step);
                assert(i * step >= 0) by (nonlinear_arith)
                    requires
                        0 <= i,
                        step > 0,
                ;
            }
        }
    } else {
        assert(n == 1);
    }
}

/// `a + b`, saturating at `u32::MAX`.
pub open spec fn saturating_add_u32(a: int, b: int) -> int {
    if a + b > u32::MAX { u32::MAX as int } else { a + b }
}

/// A sweep is the walk of saturating steps from its start: it begins at
/// `start`; each next frequency is the previous plus `step`, saturating at
/// `u32::MAX`; every step taken lands at or below `stop` and moves; and it
/// ends at the first frequency from which the next step would pass `stop`
/// or stand still.
pub proof fn lemma_sweep_saturating_steps(start: u32, stop: u32, step: u32)
    ensures
        ({
            let s = sweep(start as int, stop as int, step as int);
            &&& s.len() >= 1
            &&& s[0] == start
            &&& forall|i: int|
                0 <= i < s.len() - 1 ==> #[trigger] s[i + 1] == saturating_add_u32(
                    s[i] as int,
                    step as int,
                ) && s[i + 1] <= stop && s[i + 1] != s[i]
            &&& ({
                let last = s[s.len() - 1] as int;
                saturating_add_u32(last, step as int) > stop || saturating_add_u32(
                    last,
                    step as int,
                ) == last
            })
        }),
{
    let s = sweep(start as int, stop as int, step as int);
    let n = sweep_base_len(start as int, stop as int, step as int);
    let st = step as int;
    let lo = start as int;
    let hi = stop as int;
    if st > 0 && lo <= hi {
        let q = (hi - lo) / st;
        assert(n == q + 1);
        assert(q * st <= hi - lo && (q + 1) * st > hi - lo && q >= 0) by (nonlinear_arith)
            requires
                st > 0,
                hi - lo >= 0,
                q == (hi - lo) / st,
        ;
        assert forall|k: int| 0 <= k < n implies lo <= lo + k * st <= hi && #[trigger] s[k]
            == lo + k * st by {
            assert(0 <= k * st <= q * st) by (nonlinear_arith)
                requires
                    0 <= k <= q,
                    st > 0,
            ;
        }
        assert forall|i: int| 0 <= i < s.len() - 1 implies #[trigger] s[i + 1]
            == saturating_add_u32(s[i] as int, st) && s[i + 1] <= stop && s[i + 1] != s[i] by {
            if i + 1 < n {
                assert(s[i] == lo + i * st);
                assert(s[i + 1] == lo + (i + 1) * st);
                assert(lo + (i + 1) * st == lo + i * st + st) by (nonlinear_arith);
            } else {
                assert(i == n - 1);
                assert(sweep_ends_saturated(lo, hi, st));
                assert(s[i] == lo + q * st);
                assert(lo + q * st + st > hi) by (nonlinear_arith)
                    requires
                        (q + 1) * st > hi - lo,
                ;
            }
        }
        let last = s[s.len() - 1] as int;
        if sweep_ends_saturated(lo, hi, st) {
            assert(last == u32::MAX);
        } else {
            assert(last == lo + q * st);
            assert(lo + q * st + st > hi) by (nonlinear_arith)
                requires
                    (q + 1) * st > hi - lo,
            ;
        }
    } else {
        assert(n == 1);
        assert(s[0] == start);
    }
}

} // verus!

//! Emit-interval statistics for the DSP to front-end paths: a ring of the
//! most recent intervals between sends, summarised every few seconds.
//! Times are nanoseconds on a monotonic clock read by the caller.
use std::collections::VecDeque;
use vstd::prelude::*;
use vstd::relations::{sorted_by, total_ordering};
use vstd::seq_lib::lemma_sorted_unique;

verus! {

/// Intervals kept per ring.
pub const RING_CAPACITY: usize = 256;

/// Minimum time between two summaries of a ring, in nanoseconds.
pub const SUMMARY_PERIOD_NS: u64 = 4_000_000_000;

/// `a - b`, or zero when `b` is later (a monotonic clock read out of
/// order gives an empty interval).
pub open spec fn elapsed(a: int, b: int) -> int {
    if a >= b { a - b } else { 0 }
}

/// `s` cut to its last `RING_CAPACITY` entries.
pub open spec fn keep_recent(s: Seq<u64>) -> Seq<u64> {
    if s.len() > RING_CAPACITY { s.skip(s.len() - RING_CAPACITY) } else { s }
}

/// The order the percentiles are taken in.
pub open spec fn le_u64() -> spec_fn(u64, u64) -> bool {
    |a: u64, b: u64| a <= b
}

/// `s` in ascending order.
pub open spec fn ascending(s: Seq<u64>) -> Seq<u64> {
    s.sort_by(le_u64())
}

/// Sum of the entries of `s`.
pub open spec fn total(s: Seq<u64>) -> int
    decreases s.len(),
{
    if s.len() == 0 { 0 } else { total(s.drop_last()) + s.last() }
}

/// Index of the 95th percentile among `n` sorted values.
pub open spec fn p95_index(n: int) -> int {
    let i = n * 95 / 100;
    if i < n - 1 { i } else { n - 1 }
}

/// What a summary reports of a ring's intervals.
pub struct IntervalSummary {
    pub count: usize,
    pub avg_ns: u64,
    pub p50_ns: u64,
    pub p95_ns: u64,
}

/// The summary of a non-empty list of intervals: how many, their mean
/// (rounded down), the median (upper one for an even count) and the 95th
/// percentile by nearest rank below.
pub open spec fn summary_of(s: Seq<u64>, r: IntervalSummary) -> bool {
    &&& r.count == s.len()
    &&& r.avg_ns == total(s) / s.len() as int
    &&& r.p50_ns == ascending(s)[s.len() as int / 2]
    &&& r.p95_ns == ascending(s)[p95_index(s.len() as int)]
}

proof fn lemma_le_u64_total()
    ensures
        total_ordering(le_u64()),
{
}

proof fn lemma_total_bound(s: Seq<u64>)
    ensures
        0 <= total(s) <= s.len() * u64::MAX,
    decreases s.len(),
{
    if s.len() > 0 {
        lemma_total_bound(s.drop_last());
    }
}

/// The entries of `d` in ascending order.
fn sorted_copy(d: &VecDeque<u64>) -> (r: Vec<u64>)
    ensures
        r@ == ascending(d@),
{
    let mut out: Vec<u64> = Vec::new();
    let mut k: usize = 0;
    assert(out@ =~= d@.take(0));
    while k < d.len()
        invariant
            k <= d@.len(),
            sorted_by(out@, le_u64()),
            out@.to_multiset() == d@.take(k as int).to_multiset(),
        decreases d@.len() - k,
    {
        let x = d[k];
        let ghost old_out = out@;
        let mut pos: usize = 0;
        while pos < out.len() && out[pos] <= x
            invariant
                pos <= out@.len(),
                forall|i: int| 0 <= i < pos ==> out@[i] <= x,
            decreases out@.len() - pos,
        {
            pos = pos + 1;
        }
        proof {
            let o = out@;
            let o2 = o.insert(pos as int, x);
            o.insert_ensures(pos as int, x);
            assert forall|i: int| pos as int <= i < o.len() implies x <= o[i] by {
                if i > pos {
                    assert(le_u64()(o[pos as int], o[i]));
                }
            }
            assert forall|i: int, j: int| 0 <= i < j < o2.len() implies #[trigger] le_u64()(
                o2[i],
                o2[j],
            ) by {
                if i > pos {
                    assert(o2[(i - 1) + 1] == o[i - 1] && o2[(j - 1) + 1] == o[j - 1]);
                    assert(le_u64()(o[i - 1], o[j - 1]));
                } else if i == pos {
                    assert(o2[(j - 1) + 1] == o[j - 1]);
                } else if j > pos {
                    assert(o2[(j - 1) + 1] == o[j - 1]);
                    assert(le_u64()(o[i], o[j - 1]));
                } else if j < pos {
                    assert(le_u64()(o[i], o[j]));
                }
            }
            assert(d@.take(k as int + 1) =~= d@.take(k as int).push(x));
        }
        out.insert(pos, x);
        proof {
            let o2 = out@;
            let o = old_out;
            vstd::seq_lib::to_multiset_insert(o, pos as int, x);
            vstd::seq_lib::to_multiset_build(d@.take(k as int), x);
            assert(o2 == o.insert(pos as int, x));
        }
        k = k + 1;
    }
    proof {
        assert(d@.take(d@.len() as int) =~= d@);
        lemma_le_u64_total();
        d@.lemma_sort_by_ensures(le_u64());
        lemma_sorted_unique(out@, ascending(d@), le_u64());
    }
    out
}

/// Summarises a non-empty list of intervals.
fn summarize(d: &VecDeque<u64>) -> (r: IntervalSummary)
    requires
        0 < d@.len() <= RING_CAPACITY,
    ensures
        summary_of(d@, r),
{
    let v = sorted_copy(d);
    let n = v.len();
    proof {
        lemma_le_u64_total();
        d@.lemma_sort_by_ensures(le_u64());
        vstd::seq_lib::to_multiset_len(d@);
        vstd::seq_lib::to_multiset_len(v@);
    }
    let p95 = if n * 95 / 100 < n - 1 { n * 95 / 100 } else { n - 1 };
    let mut sum: u128 = 0;
    let mut i: usize = 0;
    while i < d.len()
        invariant
            i <= d@.len() <= RING_CAPACITY,
            sum == total(d@.take(i as int)),
        decreases d@.len() - i,
    {
        proof {
            assert(d@.take(i as int + 1).drop_last() =~= d@.take(i as int));
            lemma_total_bound(d@.take(i as int));
        }
        sum = sum + d[i] as u128;
        i = i + 1;
    }
    proof {
        assert(d@.take(d@.len() as int) =~= d@);
        lemma_total_bound(d@);
        assert(total(d@) / (n as int) <= u64::MAX) by (nonlinear_arith)
            requires
                0 <= total(d@) <= n * u64::MAX,
                n > 0,
        ;
    }
    IntervalSummary {
        count: n,
        avg_ns: (sum / n as u128) as u64,
        p50_ns: v[n / 2],
        p95_ns: v[p95],
    }
}

/// The recent emit intervals of one path.
pub struct Ring {
    label: String,
    last: Option<u64>,
    samples: VecDeque<u64>,
    last_summary: u64,
}

impl Ring {
    /// Name of the path in summaries.
    pub closed spec fn spec_label(&self) -> Seq<char> {
        self.label@
    }

    /// Time of the last recorded send.
    pub closed spec fn spec_last(&self) -> Option<u64> {
        self.last
    }

    /// The intervals kept, oldest first.
    pub closed spec fn spec_samples(&self) -> Seq<u64> {
        self.samples@
    }

    /// Time of the last summary (or of the ring's creation).
    pub closed spec fn spec_last_summary(&self) -> u64 {
        self.last_summary
    }

    /// The ring never holds more than `RING_CAPACITY` intervals.
    pub closed spec fn wf(&self) -> bool {
        self.samples@.len() <= RING_CAPACITY
    }

    /// An empty ring created at `now_ns`.
    pub fn new(label: String, now_ns: u64) -> (r: Self)
        ensures
            r.wf(),
            r.spec_label() == label@,
            r.spec_last() is None,
            r.spec_samples() == Seq::<u64>::empty(),
            r.spec_last_summary() == now_ns,
    {
        Ring { label, last: None, samples: VecDeque::new(), last_summary: now_ns }
    }

    /// Name of the path in summaries.
    pub fn label(&self) -> (r: &str)
        ensures
            r@ == self.spec_label(),
    {
        self.label.as_str()
    }

    /// Records a send at `now_ns`: the interval since the previous send
    /// joins the ring, the oldest leaving when it is full.
    pub fn record_interval(&mut self, now_ns: u64)
        requires
            old(self).wf(),
        ensures
            final(self).wf(),
            final(self).spec_last() == Some(now_ns),
            final(self).spec_last_summary() == old(self).spec_last_summary(),
            final(self).spec_label() == old(self).spec_label(),
            final(self).spec_samples() == match old(self).spec_last() {
                None => old(self).spec_samples(),
                Some(prev) => keep_recent(
                    old(self).spec_samples().push(elapsed(now_ns as int, prev as int) as u64),
                ),
            },
    {
        let prev = self.last;
        self.last = Some(now_ns);
        if let Some(prev) = prev {
            let ns: u64 = now_ns.saturating_sub(prev);
            let ghost before = self.samples@;
            while self.samples.len() >= RING_CAPACITY
                invariant
                    self.samples@.len() <= RING_CAPACITY,
                    self.samples@.len() <= before.len(),
                    self.last == Some(now_ns),
                    self.last_summary == old(self).last_summary,
                    self.label == old(self).label,
                    self.samples@.len() == before.len() || self.samples@.len() >= RING_CAPACITY - 1,
                    self.samples@ == before.skip(before.len() - self.samples@.len()),
                decreases self.samples@.len(),
            {
                let ghost cur = self.samples@;
                let popped = self.samples.pop_front();
                proof {
                    assert(popped is Some);
                    let now = self.samples@;
                    assert(now == cur.subrange(1, cur.len() as int));
                    let t = before.skip(before.len() - now.len());
                    assert forall|i: int| 0 <= i < now.len() implies now[i] == t[i] by {
                        assert(now[i] == cur[i + 1]);
                    }
                    assert(now =~= t);
                }
            }
            self.samples.push_back(ns);
            proof {
                let pushed = before.push(ns);
                if pushed.len() > RING_CAPACITY {
                    let t = pushed.skip(pushed.len() - RING_CAPACITY);
                    assert forall|i: int| 0 <= i < t.len() implies self.samples@[i] == t[i] by {
                        if i < t.len() - 1 {
                            assert(t[i] == before[before.len() - RING_CAPACITY + 1 + i]);
                        }
                    }
                    assert(self.samples@ =~= t);
                } else {
                    assert(before.skip(0) =~= before);
                    assert(self.samples@ =~= pushed);
                }
            }
        }
    }

    /// The summary due for logging: at most every four seconds, the
    /// summary of the intervals kept; the period restarts whenever it has
    /// elapsed, summary or not.
    pub fn maybe_log(&mut self, now_ns: u64) -> (r: Option<IntervalSummary>)
        requires
            old(self).wf(),
        ensures
            final(self).wf(),
            final(self).spec_last() == old(self).spec_last(),
            final(self).spec_samples() == old(self).spec_samples(),
            final(self).spec_label() == old(self).spec_label(),
            elapsed(now_ns as int, old(self).spec_last_summary() as int) < SUMMARY_PERIOD_NS ==> {
                &&& r is None
                &&& final(self).spec_last_summary() == old(self).spec_last_summary()
            },
            elapsed(now_ns as int, old(self).spec_last_summary() as int) >= SUMMARY_PERIOD_NS ==> {
                &&& final(self).spec_last_summary() == now_ns
                &&& old(self).spec_samples().len() == 0 ==> r is None
                &&& old(self).spec_samples().len() > 0 ==> (r matches Some(s) && summary_of(
                    old(self).spec_samples(),
                    s,
                ))
            },
    {
        if now_ns.saturating_sub(self.last_summary) < SUMMARY_PERIOD_NS {
            return None;
        }
        self.last_summary = now_ns;
        if self.samples.len() == 0 {
            return None;
        }
        Some(summarize(&self.samples))
    }
}

/// What one recorded send does to a ring: nothing when profiling is
/// off; otherwise the interval is recorded and, once the period has
/// elapsed, the period restarts and the kept intervals are summarised.
pub open spec fn emit_step(
    before: Ring,
    after: Ring,
    enabled: bool,
    now_ns: u64,
    r: Option<IntervalSummary>,
) -> bool {
    if !enabled {
        r is None && after == before
    } else {
        let gap = elapsed(now_ns as int, before.spec_last_summary() as int);
        let recorded = match before.spec_last() {
            None => before.spec_samples(),
            Some(prev) => keep_recent(
                before.spec_samples().push(elapsed(now_ns as int, prev as int) as u64),
            ),
        };
        &&& after.spec_label() == before.spec_label()
        &&& after.spec_last() == Some(now_ns)
        &&& after.spec_samples() == recorded
        &&& (gap < SUMMARY_PERIOD_NS ==> r is None && after.spec_last_summary()
            == before.spec_last_summary())
        &&& (gap >= SUMMARY_PERIOD_NS ==> after.spec_last_summary() == now_ns && (recorded.len()
            == 0 ==> r is None) && (recorded.len() > 0 ==> (r matches Some(s) && summary_of(
            recorded,
            s,
        ))))
    }
}

/// Records one send on `ring` when profiling is enabled, and returns a
/// summary when one is due.
fn record_emit(ring: &mut Ring, enabled: bool, now_ns: u64) -> (r: Option<IntervalSummary>)
    requires
        old(ring).wf(),
    ensures
        final(ring).wf(),
        emit_step(*old(ring), *final(ring), enabled, now_ns, r),
{
    if !enabled {
        return None;
    }
    ring.record_interval(now_ns);
    ring.maybe_log(now_ns)
}

/// One waterfall frame was sent at `now_ns`.
pub fn record_waterfall_emit_interval(ring: &mut Ring, enabled: bool, now_ns: u64) -> (r: Option<
    IntervalSummary,
>)
    requires
        old(ring).wf(),
    ensures
        final(ring).wf(),
        emit_step(*old(ring), *final(ring), enabled, now_ns, r),
{
    record_emit(ring, enabled, now_ns)
}

/// One audio chunk was sent at `now_ns`.
pub fn record_audio_emit_interval(ring: &mut Ring, enabled: bool, now_ns: u64) -> (r: Option<
    IntervalSummary,
>)
    requires
        old(ring).wf(),
    ensures
        final(ring).wf(),
        emit_step(*old(ring), *final(ring), enabled, now_ns, r),
{
    record_emit(ring, enabled, now_ns)
}

/// One signal-level event was sent at `now_ns`.
pub fn record_signal_level_emit_interval(ring: &mut Ring, enabled: bool, now_ns: u64) -> (r:
    Option<IntervalSummary>)
    requires
        old(ring).wf(),
    ensures
        final(ring).wf(),
        emit_step(*old(ring), *final(ring), enabled, now_ns, r),
{
    record_emit(ring, enabled, now_ns)
}

/// A ring never holds more than `RING_CAPACITY` intervals, and holds the
/// most recent ones: recording a send keeps at most the capacity, keeping
/// the newest interval last.
pub proof fn lemma_ring_bounded(before: Ring, after: Ring, now_ns: u64, r: Option<IntervalSummary>)
    requires
        before.wf(),
        emit_step(before, after, true, now_ns, r),
        before.spec_last() is Some,
    ensures
        after.spec_samples().len() <= RING_CAPACITY,
        after.spec_samples().last() == elapsed(
            now_ns as int,
            before.spec_last()->0 as int,
        ) as u64,
{
}

} // verus!

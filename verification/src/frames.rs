//! Framing of the sample streams the DSP worker hands to the front end:
//! cutting fixed-size frames off a pending buffer, centring an FFT, the
//! length checks on raw IQ input, and the rate limit on emitted frames.
use crate::error::{RailError, RailErrorView};
use crate::text::{decimal, push_digits};
use vstd::prelude::*;
use vstd::string::*;

verus! {

/// Moves the first `n` items of `pending` into `scratch`, which is
/// cleared first and so reuses its allocation.
pub fn take_frame<T: Copy>(pending: &mut Vec<T>, scratch: &mut Vec<T>, n: usize)
    requires
        old(pending)@.len() >= n,
    ensures
        final(scratch)@ == old(pending)@.take(n as int),
        final(pending)@ == old(pending)@.skip(n as int),
{
    scratch.clear();
    let mut i: usize = 0;
    while i < n
        invariant
            i <= n <= pending@.len(),
            pending@ == old(pending)@,
            scratch@ == old(pending)@.take(i as int),
        decreases n - i,
    {
        scratch.push(pending[i]);
        i = i + 1;
        proof {
            assert(scratch@ =~= old(pending)@.take(i as int));
        }
    }
    let len = pending.len();
    let mut j: usize = 0;
    while j + n < len
        invariant
            n <= len,
            len == pending@.len(),
            len == old(pending)@.len(),
            j <= len - n,
            forall|k: int| 0 <= k < j ==> pending@[k] == old(pending)@[k + n],
            forall|k: int| j + n <= k < len ==> pending@[k] == old(pending)@[k],
        decreases len - n - j,
    {
        let v = pending[j + n];
        pending.set(j, v);
        j = j + 1;
    }
    pending.truncate(len - n);
    proof {
        assert(pending@ =~= old(pending)@.skip(n as int));
    }
}

/// `s` rotated right by half its length (rounded down), so that its first
/// entry lands at index `len / 2`.
pub open spec fn centered<T>(s: Seq<T>) -> Seq<T> {
    let up = s.len() as int - s.len() as int / 2;
    s.skip(up) + s.take(up)
}

/// Swaps the two halves of `data` so that bin 0 (DC) lands at the centre,
/// index `len / 2`; for an odd length the upper half is the shorter one.
pub fn fft_shift<T: Copy>(data: &mut [T])
    ensures
        final(data)@ == centered(old(data)@),
        old(data)@.len() > 0 ==> final(data)@[old(data)@.len() as int / 2] == old(data)@[0],
{
    let n = data.len();
    let up = n - n / 2;
    let mut copy: Vec<T> = Vec::new();
    let mut i: usize = 0;
    while i < n
        invariant
            i <= n,
            n == data@.len(),
            data@ == old(data)@,
            copy@ == old(data)@.take(i as int),
        decreases n - i,
    {
        copy.push(data[i]);
        i = i + 1;
        proof {
            assert(copy@ =~= old(data)@.take(i as int));
        }
    }
    proof {
        assert(copy@ =~= old(data)@);
    }
    let mut k: usize = 0;
    while k < n
        invariant
            k <= n,
            n == data@.len(),
            up == n - n / 2,
            n == old(data)@.len(),
            copy@ == old(data)@,
            forall|m: int| 0 <= m < k ==> data@[m] == (if m + up < n {
                copy@[m + up]
            } else {
                copy@[m + up - n]
            }),
        decreases n - k,
    {
        let src = if k < n - up { k + up } else { k - (n - up) };
        data[k] = copy[src];
        k = k + 1;
    }
    proof {
        let s = old(data)@;
        assert(data@ =~= s.skip(up as int) + s.take(up as int));
    }
}

/// Shifting an even-length spectrum twice gives it back: the shift only
/// swaps its halves.
pub proof fn lemma_fft_shift_twice<T>(s: Seq<T>)
    requires
        s.len() % 2 == 0,
    ensures
        centered(centered(s)) == s,
{
    let h = s.len() as int - s.len() as int / 2;
    let c = centered(s);
    assert(c.skip(h) =~= s.take(h));
    assert(c.take(h) =~= s.skip(h));
    assert(centered(c) =~= s);
}

/// The message of a raw IQ buffer whose length is not twice the number
/// of complex samples it should fill.
pub open spec fn iq_mismatch_text(raw_len: int, out_len: int) -> Seq<char> {
    "IQ length mismatch: "@ + decimal(raw_len as nat) + " bytes vs "@ + decimal(out_len as nat)
        + " complex samples"@
}

/// Raw interleaved IQ bytes must hold exactly two bytes per complex
/// sample of the output.
pub fn check_iq_pairs(raw_len: usize, out_len: usize) -> (r: Result<(), RailError>)
    ensures
        raw_len == 2 * out_len ==> r is Ok,
        raw_len != 2 * out_len ==> (r matches Err(e) && e@ == RailErrorView::DspError(
            iq_mismatch_text(raw_len as int, out_len as int),
        )),
{
    if out_len <= usize::MAX / 2 && raw_len == out_len * 2 {
        return Ok(());
    }
    let mut msg = String::from_str("IQ length mismatch: ");
    push_digits(&mut msg, raw_len as u128, 10);
    msg.append(" bytes vs ");
    push_digits(&mut msg, out_len as u128, 10);
    msg.append(" complex samples");
    proof {
        reveal_strlit("IQ length mismatch: ");
        reveal_strlit(" bytes vs ");
        reveal_strlit(" complex samples");
    }
    Err(RailError::DspError(msg))
}

/// An FFT frame must have exactly the transform's length.
pub fn check_fft_input(len: usize, size: usize) -> (r: Result<(), RailError>)
    ensures
        len == size ==> r is Ok,
        len != size ==> (r matches Err(e) && e@ == RailErrorView::DspError(
            "FFT input length mismatch: "@ + decimal(len as nat) + " vs "@ + decimal(size as nat),
        )),
{
    if len == size {
        return Ok(());
    }
    let mut msg = String::from_str("FFT input length mismatch: ");
    push_digits(&mut msg, len as u128, 10);
    msg.append(" vs ");
    push_digits(&mut msg, size as u128, 10);
    proof {
        reveal_strlit("FFT input length mismatch: ");
        reveal_strlit(" vs ");
    }
    Err(RailError::DspError(msg))
}

/// Minimum time between two waterfall frames (and two signal-level
/// events), in nanoseconds: about 25 per second.
pub const FRAME_INTERVAL_NS: u64 = 40_000_000;

/// Minimum time between two classification events, in nanoseconds.
pub const CLASSIFY_INTERVAL_NS: u64 = 500_000_000;

/// A rate limit: an event passes when none has passed yet, or when at
/// least the interval has gone by since the last one that did. Times are
/// nanoseconds on a monotonic clock.
pub struct EmitGate {
    interval_ns: u64,
    last_ns: Option<u64>,
}

impl EmitGate {
    pub closed spec fn spec_interval(&self) -> u64 {
        self.interval_ns
    }

    pub closed spec fn spec_last(&self) -> Option<u64> {
        self.last_ns
    }

    /// Whether an event at `now_ns` may pass.
    pub open spec fn spec_ready(&self, now_ns: u64) -> bool {
        match self.spec_last() {
            None => true,
            Some(last) => now_ns >= last && now_ns - last >= self.spec_interval(),
        }
    }

    /// A gate that lets the first event through.
    pub fn new(interval_ns: u64) -> (r: Self)
        ensures
            r.spec_interval() == interval_ns,
            r.spec_last() is None,
    {
        EmitGate { interval_ns, last_ns: None }
    }

    /// Whether an event at `now_ns` may pass.
    pub fn ready(&self, now_ns: u64) -> (r: bool)
        ensures
            r == self.spec_ready(now_ns),
    {
        match self.last_ns {
            None => true,
            Some(last) => now_ns >= last && now_ns - last >= self.interval_ns,
        }
    }

    /// Notes that an event passed at `now_ns`.
    pub fn passed(&mut self, now_ns: u64)
        ensures
            final(self).spec_interval() == old(self).spec_interval(),
            final(self).spec_last() == Some(now_ns),
    {
        self.last_ns = Some(now_ns);
    }
}

/// Two events that both pass a gate are at least its interval apart.
pub proof fn lemma_gate_spacing(gate: EmitGate, t1: u64, t2: u64, after: EmitGate)
    requires
        after.spec_interval() == gate.spec_interval(),
        after.spec_last() == Some(t1),
        after.spec_ready(t2),
    ensures
        t2 >= t1 + gate.spec_interval(),
{
}

} // verus!

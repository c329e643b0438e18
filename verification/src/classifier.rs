//! Signal classification decisions: the frequency prior (which
//! demodulator modes are plausible at a tuned frequency) and the
//! three-path dispatch that turns spectral measurements into a confirmed
//! mode. The spectral measurements themselves (noise floor, occupied
//! bandwidth, envelope variance, sideband power) are floating-point work
//! done by the caller, which hands in their outcome.
use vstd::prelude::*;
use vstd::string::*;

verus! {

/// Demodulator modes the mode selector offers.
#[derive(Debug, Clone, Copy, PartialEq, Eq, Structural)]
pub enum Mode {
    Fm,
    Nfm,
    Am,
    Usb,
    Lsb,
    Cw,
}

/// Wire name of a mode, as the front end spells it.
pub open spec fn mode_name(m: Mode) -> Seq<char> {
    match m {
        Mode::Fm => "FM"@,
        Mode::Nfm => "NFM"@,
        Mode::Am => "AM"@,
        Mode::Usb => "USB"@,
        Mode::Lsb => "LSB"@,
        Mode::Cw => "CW"@,
    }
}

impl Mode {
    /// The wire name of this mode (`"FM"`, `"NFM"`, `"AM"`, `"USB"`,
    /// `"LSB"` or `"CW"`).
    pub fn wire_name(&self) -> (r: &'static str)
        ensures
            r@ == mode_name(*self),
    {
        match self {
            Mode::Fm => {
                proof { reveal_strlit("FM"); }
                "FM"
            },
            Mode::Nfm => {
                proof { reveal_strlit("NFM"); }
                "NFM"
            },
            Mode::Am => {
                proof { reveal_strlit("AM"); }
                "AM"
            },
            Mode::Usb => {
                proof { reveal_strlit("USB"); }
                "USB"
            },
            Mode::Lsb => {
                proof { reveal_strlit("LSB"); }
                "LSB"
            },
            Mode::Cw => {
                proof { reveal_strlit("CW"); }
                "CW"
            },
        }
    }
}

/// `freq` lies within `tolerance` of `center`.
pub open spec fn near(freq: int, center: int, tolerance: int) -> bool {
    center - tolerance <= freq <= center + tolerance
}

/// `freq` lies in the half-open band `[lo, hi)`.
pub open spec fn within(freq: int, lo: int, hi: int) -> bool {
    lo <= freq < hi
}

/// True when `freq` is within `tolerance_hz` of `center`.
pub fn hz_near(freq: u64, center: u64, tolerance_hz: u64) -> (r: bool)
    ensures
        r == near(freq as int, center as int, tolerance_hz as int),
{
    let diff = if freq >= center { freq - center } else { center - freq };
    diff <= tolerance_hz
}

/// True when `freq` is in `[lo_hz, hi_hz)`.
pub fn hz_in(freq: u64, lo_hz: u64, hi_hz: u64) -> (r: bool)
    ensures
        r == within(freq as int, lo_hz as int, hi_hz as int),
{
    freq >= lo_hz && freq < hi_hz
}

/// The band table: modes plausible at `f` Hz, spot frequencies first,
/// then band ranges, first match wins; empty for unknown bands.
pub open spec fn prior_candidates(f: int) -> Seq<Mode> {
    if near(f, 137_100_000, 5_000) || near(f, 137_620_000, 5_000) {
        seq![Mode::Nfm]  // NOAA APT

    } else if near(f, 129_125_000, 25_000) {
        seq![Mode::Am]  // ACARS

    } else if near(f, 144_800_000, 10_000) {
        seq![Mode::Nfm]  // APRS

    } else if near(f, 161_975_000, 5_000) || near(f, 162_025_000, 5_000) {
        seq![Mode::Nfm]  // AIS

    } else if near(f, 433_920_000, 200_000) {
        seq![Mode::Am, Mode::Nfm]  // ISM 433

    } else if near(f, 1_090_000_000, 500_000) {
        seq![]  // ADS-B

    } else if within(f, 87_500_000, 108_000_000) {
        seq![Mode::Fm]  // FM broadcast

    } else if within(f, 108_000_000, 137_000_000) {
        seq![Mode::Am]  // aviation

    } else if within(f, 144_000_000, 146_000_000) {
        seq![Mode::Nfm, Mode::Usb, Mode::Cw]  // 2 m amateur

    } else if within(f, 151_000_000, 154_000_000) {
        seq![Mode::Nfm]  // MURS

    } else if within(f, 162_400_000, 162_551_000) {
        seq![Mode::Nfm]  // NOAA weather radio

    } else if within(f, 156_000_000, 174_000_000) {
        seq![Mode::Nfm]  // maritime VHF

    } else if within(f, 174_000_000, 240_000_000) {
        seq![]  // DAB band III

    } else if within(f, 430_000_000, 440_000_000) {
        seq![Mode::Nfm, Mode::Usb]  // 70 cm amateur

    } else if near(f, 446_000_000, 100_000) {
        seq![Mode::Nfm]  // PMR446

    } else if within(f, 450_000_000, 470_000_000) {
        seq![Mode::Nfm]  // public safety UHF, FRS/GMRS

    } else {
        seq![]
    }
}

/// Modes most likely at `center_hz`, independent of signal strength.
pub fn frequency_prior_candidates(center_hz: u64) -> (r: Vec<Mode>)
    ensures
        r@ == prior_candidates(center_hz as int),
{
    let f = center_hz;
    if hz_near(f, 137_100_000, 5_000) || hz_near(f, 137_620_000, 5_000) {
        return vec![Mode::Nfm];
    }
    if hz_near(f, 129_125_000, 25_000) {
        return vec![Mode::Am];
    }
    if hz_near(f, 144_800_000, 10_000) {
        return vec![Mode::Nfm];
    }
    if hz_near(f, 161_975_000, 5_000) || hz_near(f, 162_025_000, 5_000) {
        return vec![Mode::Nfm];
    }
    if hz_near(f, 433_920_000, 200_000) {
        return vec![Mode::Am, Mode::Nfm];
    }
    if hz_near(f, 1_090_000_000, 500_000) {
        return vec![];
    }
    if hz_in(f, 87_500_000, 108_000_000) {
        return vec![Mode::Fm];
    }
    if hz_in(f, 108_000_000, 137_000_000) {
        return vec![Mode::Am];
    }
    if hz_in(f, 144_000_000, 146_000_000) {
        return vec![Mode::Nfm, Mode::Usb, Mode::Cw];
    }
    if hz_in(f, 151_000_000, 154_000_000) {
        return vec![Mode::Nfm];
    }
    if hz_in(f, 162_400_000, 162_551_000) {
        return vec![Mode::Nfm];
    }
    if hz_in(f, 156_000_000, 174_000_000) {
        return vec![Mode::Nfm];
    }
    if hz_in(f, 174_000_000, 240_000_000) {
        return vec![];
    }
    if hz_in(f, 430_000_000, 440_000_000) {
        return vec![Mode::Nfm, Mode::Usb];
    }
    if hz_near(f, 446_000_000, 100_000) {
        return vec![Mode::Nfm];
    }
    if hz_in(f, 450_000_000, 470_000_000) {
        return vec![Mode::Nfm];
    }
    vec![]
}

/// The band table, row by row: every frequency in each listed band or
/// spot gets that row's modes, and every frequency in the gaps between
/// them gets none.
pub proof fn lemma_band_table(f: int)
    ensures
        87_500_000 <= f < 108_000_000 ==> prior_candidates(f) == seq![Mode::Fm],
        108_000_000 <= f < 137_000_000 ==> prior_candidates(f) == seq![Mode::Am],
        137_095_000 <= f <= 137_105_000 ==> prior_candidates(f) == seq![Mode::Nfm],
        137_615_000 <= f <= 137_625_000 ==> prior_candidates(f) == seq![Mode::Nfm],
        144_790_000 <= f <= 144_810_000 ==> prior_candidates(f) == seq![Mode::Nfm],
        144_000_000 <= f < 146_000_000 && !(144_790_000 <= f <= 144_810_000) ==> prior_candidates(f)
            == seq![Mode::Nfm, Mode::Usb, Mode::Cw],
        151_000_000 <= f < 154_000_000 ==> prior_candidates(f) == seq![Mode::Nfm],
        156_000_000 <= f < 174_000_000 ==> prior_candidates(f) == seq![Mode::Nfm],
        174_000_000 <= f < 240_000_000 ==> prior_candidates(f).len() == 0,
        433_720_000 <= f <= 434_120_000 ==> prior_candidates(f) == seq![Mode::Am, Mode::Nfm],
        430_000_000 <= f < 440_000_000 && !(433_720_000 <= f <= 434_120_000) ==> prior_candidates(f)
            == seq![Mode::Nfm, Mode::Usb],
        445_900_000 <= f <= 446_100_000 ==> prior_candidates(f) == seq![Mode::Nfm],
        450_000_000 <= f < 470_000_000 ==> prior_candidates(f) == seq![Mode::Nfm],
        1_089_500_000 <= f <= 1_090_500_000 ==> prior_candidates(f).len() == 0,
        f < 87_500_000 ==> prior_candidates(f).len() == 0,
        137_000_000 <= f < 144_000_000 && !(137_095_000 <= f <= 137_105_000) && !(137_615_000 <= f
            <= 137_625_000) ==> prior_candidates(f).len() == 0,
        146_000_000 <= f < 151_000_000 ==> prior_candidates(f).len() == 0,
        154_000_000 <= f < 156_000_000 ==> prior_candidates(f).len() == 0,
        240_000_000 <= f < 430_000_000 ==> prior_candidates(f).len() == 0,
        440_000_000 <= f < 450_000_000 && !(445_900_000 <= f <= 446_100_000) ==> prior_candidates(f)
            .len() == 0,
        470_000_000 <= f ==> prior_candidates(f).len() == 0,
{
}

/// Occupied-bandwidth class of the strongest signal: wider than 150 kHz,
/// wider than 25 kHz, wider than 3 kHz, or narrower.
#[derive(Debug, Clone, Copy, PartialEq, Eq, Structural)]
pub enum BwFamily {
    Wideband,
    Narrowband,
    Voice,
    Narrow,
}

/// Which sideband dominates the signal: the upper one by more than
/// 15 dB, the lower one by more than 15 dB, or neither.
#[derive(Debug, Clone, Copy, PartialEq, Eq, Structural)]
pub enum SidebandBalance {
    UpperDominant,
    LowerDominant,
    Balanced,
}

/// Classification of a signal seen at a frequency with no band prior:
/// only wideband FM, narrowband FM or AM is ever named.
pub open spec fn broad_choice(bw: BwFamily, is_am_family: bool) -> Option<Mode> {
    match bw {
        BwFamily::Wideband => if !is_am_family { Some(Mode::Fm) } else { None },
        BwFamily::Narrowband | BwFamily::Voice => if is_am_family { Some(Mode::Am) } else { Some(Mode::Nfm) },
        BwFamily::Narrow => None,
    }
}

/// First matching rule within a multi-mode band: FM if wideband, AM if the
/// envelope varies, USB / LSB if a sideband dominates, CW if narrow, then
/// NFM, and otherwise the first candidate.
pub open spec fn candidate_choice(
    candidates: Seq<Mode>,
    bw: BwFamily,
    is_am_family: bool,
    balance: SidebandBalance,
) -> Option<Mode> {
    if candidates.contains(Mode::Fm) && bw == BwFamily::Wideband {
        Some(Mode::Fm)
    } else if candidates.contains(Mode::Am) && is_am_family {
        Some(Mode::Am)
    } else if candidates.contains(Mode::Usb) && balance == SidebandBalance::UpperDominant {
        Some(Mode::Usb)
    } else if candidates.contains(Mode::Lsb) && balance == SidebandBalance::LowerDominant {
        Some(Mode::Lsb)
    } else if candidates.contains(Mode::Cw) && bw == BwFamily::Narrow {
        Some(Mode::Cw)
    } else if candidates.contains(Mode::Nfm) {
        Some(Mode::Nfm)
    } else if candidates.len() > 0 {
        Some(candidates[0])
    } else {
        None
    }
}

/// Broad classification for a signal at a frequency with no prior.
pub fn broad_classify(bw_family: BwFamily, is_am_family: bool) -> (r: Option<Mode>)
    ensures
        r == broad_choice(bw_family, is_am_family),
{
    match bw_family {
        BwFamily::Wideband => {
            if !is_am_family {
                Some(Mode::Fm)
            } else {
                None
            }
        },
        BwFamily::Narrowband | BwFamily::Voice => {
            if is_am_family {
                Some(Mode::Am)
            } else {
                Some(Mode::Nfm)
            }
        },
        BwFamily::Narrow => None,
    }
}

fn contains_mode(candidates: &Vec<Mode>, m: Mode) -> (r: bool)
    ensures
        r == candidates@.contains(m),
{
    let mut i: usize = 0;
    while i < candidates.len()
        invariant
            i <= candidates.len(),
            forall|j: int| 0 <= j < i ==> candidates@[j] != m,
        decreases candidates.len() - i,
    {
        if candidates[i] == m {
            return true;
        }
        i = i + 1;
    }
    false
}

/// Picks a mode within a multi-candidate band from the spectral outcome.
pub fn pick_from_candidates(
    candidates: &Vec<Mode>,
    bw_family: BwFamily,
    is_am_family: bool,
    balance: SidebandBalance,
) -> (r: Option<Mode>)
    ensures
        r == candidate_choice(candidates@, bw_family, is_am_family, balance),
{
    if contains_mode(candidates, Mode::Fm) && bw_family == BwFamily::Wideband {
        return Some(Mode::Fm);
    }
    if contains_mode(candidates, Mode::Am) && is_am_family {
        return Some(Mode::Am);
    }
    if contains_mode(candidates, Mode::Usb) && balance == SidebandBalance::UpperDominant {
        return Some(Mode::Usb);
    }
    if contains_mode(candidates, Mode::Lsb) && balance == SidebandBalance::LowerDominant {
        return Some(Mode::Lsb);
    }
    if contains_mode(candidates, Mode::Cw) && bw_family == BwFamily::Narrow {
        return Some(Mode::Cw);
    }
    if contains_mode(candidates, Mode::Nfm) {
        return Some(Mode::Nfm);
    }
    if candidates.len() > 0 {
        Some(candidates[0])
    } else {
        None
    }
}

/// The multi-candidate pick follows its rule list in order, each rule
/// firing only for a mode in the band's candidates: FM for a wideband
/// signal; else AM for a varying envelope; else USB or LSB when that
/// sideband dominates; else CW for a narrow signal; else NFM; else the
/// first candidate. So a band offering AM confirms AM for an AM-family
/// envelope unless it also offers FM and the signal is wideband; the pick
/// is always one of the candidates, and nothing is picked from none.
pub proof fn lemma_candidate_rules(
    candidates: Seq<Mode>,
    bw: BwFamily,
    is_am_family: bool,
    balance: SidebandBalance,
)
    ensures
        ({
            let r = candidate_choice(candidates, bw, is_am_family, balance);
            let fm_rule = candidates.contains(Mode::Fm) && bw == BwFamily::Wideband;
            let am_rule = candidates.contains(Mode::Am) && is_am_family;
            let usb_rule = candidates.contains(Mode::Usb) && balance
                == SidebandBalance::UpperDominant;
            let lsb_rule = candidates.contains(Mode::Lsb) && balance
                == SidebandBalance::LowerDominant;
            let cw_rule = candidates.contains(Mode::Cw) && bw == BwFamily::Narrow;
            &&& fm_rule ==> r == Some(Mode::Fm)
            &&& !fm_rule && am_rule ==> r == Some(Mode::Am)
            &&& !fm_rule && !am_rule && usb_rule ==> r == Some(Mode::Usb)
            &&& !fm_rule && !am_rule && !usb_rule && lsb_rule ==> r == Some(Mode::Lsb)
            &&& !fm_rule && !am_rule && !usb_rule && !lsb_rule && cw_rule ==> r == Some(Mode::Cw)
            &&& !fm_rule && !am_rule && !usb_rule && !lsb_rule && !cw_rule && candidates.contains(
                Mode::Nfm,
            ) ==> r == Some(Mode::Nfm)
            &&& !fm_rule && !am_rule && !usb_rule && !lsb_rule && !cw_rule && !candidates.contains(
                Mode::Nfm,
            ) && candidates.len() > 0 ==> r == Some(candidates[0])
            &&& (r is None <==> candidates.len() == 0)
            &&& r matches Some(m) ==> candidates.contains(m)
        }),
{
    if candidates.len() > 0 {
        assert(candidates.contains(candidates[0]));
    }
}

/// The confirmed mode under the three-path dispatch.
pub open spec fn dispatch(
    candidates: Seq<Mode>,
    snr_confirms: bool,
    bw: BwFamily,
    is_am_family: bool,
    balance: Option<SidebandBalance>,
) -> Option<Mode> {
    if !snr_confirms {
        None
    } else if candidates.len() == 0 {
        broad_choice(bw, is_am_family)
    } else if candidates.len() == 1 {
        Some(candidates[0])
    } else {
        candidate_choice(candidates, bw, is_am_family, balance.unwrap())
    }
}

/// Three-path dispatch. Without enough SNR nothing is confirmed; a band
/// with no prior gets the broad classification; a band with one prior
/// mode gets that mode whatever the spectrum shows; a band with several
/// gets the spectral pick among them (`balance` is measured only then).
pub fn confirm_mode(
    candidates: &Vec<Mode>,
    snr_confirms: bool,
    bw_family: BwFamily,
    is_am_family: bool,
    balance: Option<SidebandBalance>,
) -> (r: Option<Mode>)
    requires
        candidates.len() >= 2 ==> balance is Some,
    ensures
        r == dispatch(candidates@, snr_confirms, bw_family, is_am_family, balance),
        !snr_confirms ==> r is None,
        candidates.len() == 1 && snr_confirms ==> r == Some(candidates@[0]),
        candidates.len() == 0 ==> r != Some(Mode::Usb) && r != Some(Mode::Lsb) && r != Some(Mode::Cw),
        candidates.len() >= 1 ==> (r matches Some(m) ==> candidates@.contains(m)),
{
    if !snr_confirms {
        return None;
    }
    let n = candidates.len();
    if n == 0 {
        broad_classify(bw_family, is_am_family)
    } else if n == 1 {
        Some(candidates[0])
    } else {
        let b = match balance {
            Some(b) => b,
            None => SidebandBalance::Balanced,
        };
        let r = pick_from_candidates(candidates, bw_family, is_am_family, b);
        proof {
            if r is Some && !(candidates@.contains(Mode::Nfm)) {
                assert(candidates@.contains(candidates@[0]));
            }
        }
        r
    }
}

/// Classifier output: the spectrally confirmed mode (`None` when the
/// signal is too weak or has no selectable mode), the band prior, and a
/// human-readable reason for the confirmation.
#[derive(Debug, Clone)]
pub struct ClassificationResult {
    pub confirmed: Option<Mode>,
    pub candidates: Vec<Mode>,
    pub reason: String,
}

impl ClassificationResult {
    /// The result when no signal is detected: only the band prior.
    pub fn no_signal(candidates: Vec<Mode>) -> (r: Self)
        ensures
            r.confirmed is None,
            r.candidates@ == candidates@,
            r.reason@ == Seq::<char>::empty(),
    {
        ClassificationResult { confirmed: None, candidates, reason: String::new() }
    }
}

} // verus!

//! Raw ADC code → millivolts at the pin, and sample averaging.
use vstd::prelude::*;
use vstd::arithmetic::div_mod::{lemma_div_is_ordered, lemma_div_by_multiple};
use vstd::arithmetic::mul::{lemma_mul_inequality, lemma_mul_is_commutative};

verus! {

/// Two-point linear model `raw → mV`.
#[derive(Debug, Clone, Copy, PartialEq, Eq, Structural)]
pub struct AdcModel {
    /// Raw code at the low calibration point.
    pub raw_lo: u16,
    /// Millivolts at the low calibration point.
    pub mv_lo: u32,
    /// Raw code at the high calibration point.
    pub raw_hi: u16,
    /// Millivolts at the high calibration point.
    pub mv_hi: u32,
}

/// Integer division rounding towards zero (what Rust's `/` does on signed
/// integers), for a positive divisor.
pub open spec fn div_toward_zero(n: int, d: int) -> int {
    if n >= 0 { n / d } else { -((-n) / d) }
}

impl AdcModel {
    /// Nominal, uncalibrated ESP32 at 11 dB / 12-bit: ~0.14 V offset,
    /// ~3.1 V full scale.
    pub fn esp32_11db_nominal() -> (m: AdcModel)
        ensures
            m.raw_lo == 190,
            m.mv_lo == 150,
            m.raw_hi == 4095,
            m.mv_hi == 3100,
    {
        AdcModel { raw_lo: 190, mv_lo: 150, raw_hi: 4095, mv_hi: 3100 }
    }

    /// The signed millivolt value of the line through both calibration points
    /// at `raw`, before clamping.
    pub open spec fn line_mv(self, raw: int) -> int {
        self.mv_lo + div_toward_zero(
            (raw - self.raw_lo) * (self.mv_hi - self.mv_lo),
            self.raw_hi - self.raw_lo,
        )
    }

    /// Millivolts at the pin: zero for a degenerate model or below the low
    /// point, the line otherwise, zero where the line leaves `0..=u32::MAX`.
    pub open spec fn pin_mv_spec(self, raw: int) -> u32 {
        if self.raw_hi <= self.raw_lo || raw < self.raw_lo {
            0
        } else {
            let mv = self.line_mv(raw);
            if mv < 0 || mv > u32::MAX { 0 } else { mv as u32 }
        }
    }

    /// Millivolts at the pin for `raw`. Clamps below the low point to zero
    /// and extrapolates linearly above the high point.
    pub fn pin_mv(&self, raw: u16) -> (r: u32)
        ensures
            r == self.pin_mv_spec(raw as int),
    {
        if self.raw_hi <= self.raw_lo || raw < self.raw_lo {
            return 0;
        }
        let span = (self.raw_hi - self.raw_lo) as u64;
        let dx = (raw - self.raw_lo) as u64;
        if self.mv_hi >= self.mv_lo {
            let rise = (self.mv_hi - self.mv_lo) as u64;
            assert(dx * rise <= 65535 * 0xffff_ffff) by (nonlinear_arith)
                requires
                    dx <= 65535,
                    rise <= 0xffff_ffff,
            ;
            let q = dx * rise / span;
            let mv = self.mv_lo as u64 + q;
            if mv > u32::MAX as u64 {
                0
            } else {
                mv as u32
            }
        } else {
            let fall = (self.mv_lo - self.mv_hi) as u64;
            assert(dx * fall <= 65535 * 0xffff_ffff) by (nonlinear_arith)
                requires
                    dx <= 65535,
                    fall <= 0xffff_ffff,
            ;
            assert((raw - self.raw_lo) * (self.mv_hi - self.mv_lo) == -(dx * fall)) by (nonlinear_arith)
                requires
                    dx == raw - self.raw_lo,
                    fall == self.mv_lo - self.mv_hi,
            ;
            let q = dx * fall / span;
            if q >= self.mv_lo as u64 {
                0
            } else {
                (self.mv_lo as u64 - q) as u32
            }
        }
    }
}

/// The model reproduces both calibration points exactly, reads zero below
/// the low point, and grows with the raw code up to the high point.
pub proof fn lemma_adc_model_calibration(m: AdcModel, a: int, b: int)
    requires
        m.raw_lo < m.raw_hi,
        m.mv_lo <= m.mv_hi,
        m.raw_lo <= a <= b <= m.raw_hi,
    ensures
        m.pin_mv_spec(m.raw_lo as int) == m.mv_lo,
        m.pin_mv_spec(m.raw_hi as int) == m.mv_hi,
        m.pin_mv_spec(a) <= m.pin_mv_spec(b),
        forall|r: int| r < m.raw_lo ==> #[trigger] m.pin_mv_spec(r) == 0,
{
    let span = m.raw_hi - m.raw_lo;
    let rise = m.mv_hi - m.mv_lo;
    let x = a - m.raw_lo;
    let y = b - m.raw_lo;
    lemma_mul_inequality(x, y, rise);
    lemma_mul_inequality(0, x, rise);
    lemma_mul_inequality(y, span, rise);
    lemma_div_is_ordered(x * rise, y * rise, span);
    lemma_div_is_ordered(0, x * rise, span);
    lemma_div_is_ordered(y * rise, span * rise, span);
    lemma_mul_is_commutative(span, rise);
    lemma_div_by_multiple(rise, span);
    assert(0 * rise == 0);
}

/// Sum of the samples.
pub open spec fn sum_samples(s: Seq<u16>) -> int
    decreases s.len(),
{
    if s.len() == 0 { 0 } else { sum_samples(s.drop_last()) + s.last() }
}

/// Integer mean of the samples (empty → 0): the sum divided by the count,
/// the count read as `u32` (saturating).
pub open spec fn mean_spec(s: Seq<u16>) -> u16 {
    if s.len() == 0 {
        0
    } else {
        let n = if s.len() > u32::MAX { u32::MAX as int } else { s.len() as int };
        let m = sum_samples(s) / n;
        if m > u16::MAX { u16::MAX } else { m as u16 }
    }
}

proof fn lemma_sum_prefix_bounded(s: Seq<u16>, i: int)
    requires
        0 <= i <= s.len(),
    ensures
        0 <= sum_samples(s.take(i)) <= sum_samples(s),
    decreases s.len(),
{
    if s.len() > 0 {
        if i == s.len() {
            assert(s.take(i) =~= s);
            lemma_sum_prefix_bounded(s.drop_last(), i - 1);
            assert(s.drop_last().take(i - 1) =~= s.take(i - 1));
        } else {
            lemma_sum_prefix_bounded(s.drop_last(), i);
            assert(s.drop_last().take(i) =~= s.take(i));
        }
    }
}

/// Integer mean of ADC samples (empty → 0).
pub fn mean_u16(samples: &[u16]) -> (r: u16)
    requires
        sum_samples(samples@) <= u32::MAX,
    ensures
        r == mean_spec(samples@),
{
    if samples.len() == 0 {
        return 0;
    }
    let mut sum: u32 = 0;
    let mut i: usize = 0;
    while i < samples.len()
        invariant
            i <= samples.len(),
            sum == sum_samples(samples@.take(i as int)),
            sum_samples(samples@) <= u32::MAX,
        decreases samples.len() - i,
    {
        proof {
            lemma_sum_prefix_bounded(samples@, i + 1);
            assert(samples@.take(i + 1).drop_last() =~= samples@.take(i as int));
        }
        sum = sum + samples[i] as u32;
        i = i + 1;
    }
    assert(samples@.take(samples.len() as int) =~= samples@);
    let n: u32 = if samples.len() > u32::MAX as usize { u32::MAX } else { samples.len() as u32 };
    let m = sum / n;
    if m > u16::MAX as u32 {
        u16::MAX
    } else {
        m as u16
    }
}

} // verus!

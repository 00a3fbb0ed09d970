//! Duty cap: both sides scale by the same factor, so the turn ratio survives.
use vstd::prelude::*;
use vstd::arithmetic::div_mod::{lemma_div_is_ordered, lemma_div_by_multiple};
use vstd::arithmetic::mul::{lemma_mul_inequality, lemma_mul_is_commutative};
use crate::drive::cmdvel::{DriveCommand, SPEED_MAX, clamp_speed};

verus! {

/// A cap request clamped into `0..=1000`.
pub open spec fn clamp_cap(max_permille: int) -> int {
    if max_permille > 1000 { 1000 } else { max_permille }
}

/// One side scaled by `cap / 1000` after clamping into `-1000..=1000`,
/// rounding towards zero.
pub open spec fn scale_speed(v: int, cap: int) -> int {
    let c = clamp_speed(v);
    if c >= 0 { c * cap / 1000 } else { -((-c) * cap / 1000) }
}

/// Both sides of `cmd` scaled by `cap / 1000`.
pub open spec fn governed(cmd: DriveCommand, cap: int) -> DriveCommand {
    DriveCommand {
        left: scale_speed(cmd.left as int, cap) as i16,
        right: scale_speed(cmd.right as int, cap) as i16,
    }
}

/// Scales commands so that `|speed| <= max_permille`.
#[derive(Debug, Clone, Copy, PartialEq, Eq)]
pub struct Governor {
    max_permille: u16,
}

impl View for Governor {
    type V = u16;

    /// The cap in force, per-mille.
    closed spec fn view(&self) -> u16 {
        self.max_permille
    }
}

impl Governor {
    #[verifier::type_invariant]
    spec fn cap_in_range(self) -> bool {
        self.max_permille <= 1000
    }

    /// A cap of `max_permille` (`0..=1000`, clamped).
    pub fn new(max_permille: u16) -> (g: Governor)
        ensures
            g@ == clamp_cap(max_permille as int),
    {
        let max = if max_permille > SPEED_MAX as u16 { SPEED_MAX as u16 } else { max_permille };
        Governor { max_permille: max }
    }

    /// The cap in force.
    pub fn max_permille(&self) -> (m: u16)
        ensures
            m == self@,
            m <= 1000,
    {
        proof {
            use_type_invariant(self);
        }
        self.max_permille
    }

    /// Replace the cap (clamped to `0..=1000`).
    pub fn set_max_permille(&mut self, max_permille: u16)
        ensures
            final(self)@ == clamp_cap(max_permille as int),
    {
        *self = Governor::new(max_permille);
    }

    /// Scale both sides by `max/1000`. Ratio-preserving, so a command that
    /// was already inside the cap still shrinks: the cap is a gain.
    pub fn apply(&self, cmd: DriveCommand) -> (out: DriveCommand)
        ensures
            self@ <= 1000,
            out == governed(cmd, self@ as int),
    {
        proof {
            use_type_invariant(self);
        }
        DriveCommand {
            left: scale_one(cmd.left, self.max_permille),
            right: scale_one(cmd.right, self.max_permille),
        }
    }
}

proof fn lemma_scaled_magnitude(m: int, cap: int)
    requires
        0 <= m <= 1000,
        0 <= cap <= 1000,
    ensures
        0 <= m * cap / 1000 <= m,
        m * cap / 1000 <= cap,
{
    lemma_mul_inequality(cap, 1000, m);
    lemma_mul_inequality(m, 1000, cap);
    lemma_mul_inequality(0, m, cap);
    lemma_mul_is_commutative(m, cap);
    lemma_mul_is_commutative(1000, m);
    lemma_mul_is_commutative(1000, cap);
    lemma_div_is_ordered(m * cap, m * 1000, 1000);
    lemma_div_is_ordered(m * cap, cap * 1000, 1000);
    lemma_div_is_ordered(0, m * cap, 1000);
    lemma_div_by_multiple(m, 1000);
    lemma_div_by_multiple(cap, 1000);
}

fn scale_one(v: i16, cap: u16) -> (r: i16)
    requires
        cap <= 1000,
    ensures
        r == scale_speed(v as int, cap as int),
{
    let c: i16 = if v < -SPEED_MAX { -SPEED_MAX } else if v > SPEED_MAX { SPEED_MAX } else { v };
    if c >= 0 {
        proof {
            lemma_scaled_magnitude(c as int, cap as int);
        }
        assert(c as u32 * cap as u32 <= 1_000_000) by (nonlinear_arith)
            requires
                c <= 1000,
                cap <= 1000,
                c >= 0,
        ;
        (c as u32 * cap as u32 / 1000) as i16
    } else {
        let m = (0 - c) as u32;
        proof {
            lemma_scaled_magnitude(m as int, cap as int);
        }
        assert(m * cap as u32 <= 1_000_000) by (nonlinear_arith)
            requires
                m <= 1000,
                cap <= 1000,
        ;
        0 - (m * cap as u32 / 1000) as i16
    }
}

/// The cap bounds both sides, keeps their signs, and scales by a single
/// factor: a zero cap stops, a full cap only clamps into `-1000..=1000`.
pub proof fn lemma_governor_bounds(cmd: DriveCommand, cap: int)
    requires
        0 <= cap <= 1000,
    ensures
        -cap <= governed(cmd, cap).left <= cap,
        -cap <= governed(cmd, cap).right <= cap,
        governed(cmd, cap).left as int * clamp_speed(cmd.left as int) >= 0,
        governed(cmd, cap).right as int * clamp_speed(cmd.right as int) >= 0,
        cap == 0 ==> governed(cmd, cap) == (DriveCommand { left: 0, right: 0 }),
        cap == 1000 ==> governed(cmd, cap) == (DriveCommand {
            left: clamp_speed(cmd.left as int) as i16,
            right: clamp_speed(cmd.right as int) as i16,
        }),
{
    let l = clamp_speed(cmd.left as int);
    let r = clamp_speed(cmd.right as int);
    lemma_scaled_magnitude(if l >= 0 { l } else { -l }, cap);
    lemma_scaled_magnitude(if r >= 0 { r } else { -r }, cap);
    if cap == 1000 {
        lemma_mul_is_commutative(if l >= 0 { l } else { -l }, 1000);
        lemma_mul_is_commutative(if r >= 0 { r } else { -r }, 1000);
        lemma_div_by_multiple(if l >= 0 { l } else { -l }, 1000);
        lemma_div_by_multiple(if r >= 0 { r } else { -r }, 1000);
    }
    let gl = governed(cmd, cap).left as int;
    let gr = governed(cmd, cap).right as int;
    assert(gl * l >= 0) by (nonlinear_arith)
        requires
            (l >= 0 && gl >= 0) || (l < 0 && gl <= 0),
    ;
    assert(gr * r >= 0) by (nonlinear_arith)
        requires
            (r >= 0 && gr >= 0) || (r < 0 && gr <= 0),
    ;
}

} // verus!

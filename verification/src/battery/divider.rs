//! The resistive divider between the pack and the ADC pin.
use vstd::prelude::*;

verus! {

/// Clamp a wide value to `u32`.
pub open spec fn saturated(v: int) -> u32 {
    if v > u32::MAX { u32::MAX } else { v as u32 }
}

/// A two-resistor divider, ohms.
#[derive(Debug, Clone, Copy, PartialEq, Eq, Structural)]
pub struct Divider {
    /// Resistor between pack positive and the ADC node.
    pub r_top_ohm: u32,
    /// Resistor between the ADC node and ground.
    pub r_bottom_ohm: u32,
}

impl Divider {
    /// The car's divider: 100 kΩ over 22 kΩ.
    pub fn car_3s() -> (d: Divider)
        ensures
            d.r_top_ohm == 100_000,
            d.r_bottom_ohm == 22_000,
    {
        Divider { r_top_ohm: 100_000, r_bottom_ohm: 22_000 }
    }

    /// Pack millivolts that put `pin_mv` on the ADC node (0 for a shorted bottom leg).
    pub open spec fn pack_mv_spec(self, pin_mv: int) -> u32 {
        if self.r_bottom_ohm == 0 {
            0
        } else {
            saturated(pin_mv * (self.r_top_ohm + self.r_bottom_ohm) / (self.r_bottom_ohm as int))
        }
    }

    /// ADC-node millivolts for a pack voltage (0 for a degenerate divider).
    pub open spec fn pin_mv_spec(self, pack_mv: int) -> u32 {
        let total = self.r_top_ohm + self.r_bottom_ohm;
        if total == 0 {
            0
        } else {
            saturated(pack_mv * self.r_bottom_ohm / total)
        }
    }

    /// Pack voltage from the voltage at the ADC node, millivolts.
    pub fn pack_mv(&self, pin_mv: u32) -> (r: u32)
        requires
            pin_mv * (self.r_top_ohm + self.r_bottom_ohm) <= u64::MAX,
        ensures
            r == self.pack_mv_spec(pin_mv as int),
    {
        if self.r_bottom_ohm == 0 {
            return 0;
        }
        let total = self.r_top_ohm as u64 + self.r_bottom_ohm as u64;
        let num = pin_mv as u64 * total;
        saturate(num / self.r_bottom_ohm as u64)
    }

    /// ADC-node voltage for a given pack voltage, millivolts.
    pub fn pin_mv(&self, pack_mv: u32) -> (r: u32)
        ensures
            r == self.pin_mv_spec(pack_mv as int),
    {
        let total = self.r_top_ohm as u64 + self.r_bottom_ohm as u64;
        if total == 0 {
            return 0;
        }
        assert(pack_mv as u64 * self.r_bottom_ohm as u64 <= u32::MAX as u64 * u32::MAX as u64) by (nonlinear_arith);
        saturate(pack_mv as u64 * self.r_bottom_ohm as u64 / total)
    }
}

/// Going pack → pin → pack never overshoots and loses less than
/// `(r_top + r_bottom) / r_bottom + 1` millivolts to rounding.
pub proof fn lemma_divider_round_trip(d: Divider, pack_mv: u32)
    requires
        d.r_bottom_ohm > 0,
    ensures
        d.pack_mv_spec(d.pin_mv_spec(pack_mv as int) as int) <= pack_mv,
        (pack_mv - d.pack_mv_spec(d.pin_mv_spec(pack_mv as int) as int)) * d.r_bottom_ohm < d.r_top_ohm
            + d.r_bottom_ohm + d.r_bottom_ohm,
{
    let t = d.r_top_ohm + d.r_bottom_ohm;
    let b = d.r_bottom_ohm as int;
    let p = pack_mv as int;
    let pin = p * b / t;
    assert(0 <= pin <= p) by (nonlinear_arith)
        requires
            pin == p * b / t,
            0 < b <= t,
            0 <= p,
    ;
    assert(d.pin_mv_spec(p) == pin);
    let back = pin * t / b;
    assert(back <= p && (p - back) * b < t + b) by (nonlinear_arith)
        requires
            pin == p * b / t,
            back == pin * t / b,
            0 < b <= t,
            0 <= p,
    ;
    assert(d.pack_mv_spec(pin) == back);
}

/// Clamp a `u64` to `u32`.
fn saturate(v: u64) -> (r: u32)
    ensures
        r == saturated(v as int),
{
    if v > u32::MAX as u64 {
        u32::MAX
    } else {
        v as u32
    }
}

} // verus!

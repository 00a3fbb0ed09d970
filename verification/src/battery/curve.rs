//! Open-circuit-voltage → state-of-charge for LiPo cells.
//!
//! A piecewise-linear table of the resting cell voltage: twelve breakpoints,
//! descending, from 4200 mV (100 %) to 3300 mV (0 %).
use vstd::prelude::*;
use vstd::arithmetic::div_mod::{lemma_div_is_ordered, lemma_div_by_multiple};
use vstd::arithmetic::mul::{lemma_mul_inequality, lemma_mul_is_commutative};

verus! {

/// Number of breakpoints in the discharge table.
pub const CURVE_POINTS: usize = 12;

/// Cell millivolts of breakpoint `i` (descending in `i`).
pub open spec fn breakpoint_mv(i: int) -> int {
    if i <= 0 { 4200 }
    else if i == 1 { 4100 }
    else if i == 2 { 4000 }
    else if i == 3 { 3920 }
    else if i == 4 { 3850 }
    else if i == 5 { 3800 }
    else if i == 6 { 3750 }
    else if i == 7 { 3700 }
    else if i == 8 { 3650 }
    else if i == 9 { 3550 }
    else if i == 10 { 3400 }
    else { 3300 }
}

/// State of charge, percent, of breakpoint `i`.
pub open spec fn breakpoint_pct(i: int) -> int {
    if i <= 0 { 100 }
    else if i == 1 { 90 }
    else if i == 2 { 80 }
    else if i == 3 { 70 }
    else if i == 4 { 60 }
    else if i == 5 { 50 }
    else if i == 6 { 40 }
    else if i == 7 { 30 }
    else if i == 8 { 20 }
    else if i == 9 { 10 }
    else if i == 10 { 5 }
    else { 0 }
}

/// Linear interpolation inside segment `i`, between breakpoints `i` (high)
/// and `i + 1` (low), rounding down.
pub open spec fn interpolate(mv: int, i: int) -> int {
    let (hi_mv, hi_pct) = (breakpoint_mv(i), breakpoint_pct(i));
    let (lo_mv, lo_pct) = (breakpoint_mv(i + 1), breakpoint_pct(i + 1));
    lo_pct + (mv - lo_mv) * (hi_pct - lo_pct) / (hi_mv - lo_mv)
}

/// Percent for `mv`, searching the segments from `i` downwards.
pub open spec fn percent_from(mv: int, i: int) -> int
    decreases 11 - i,
{
    if i >= 11 || i < 0 {
        0
    } else if mv >= breakpoint_mv(i + 1) {
        interpolate(mv, i)
    } else {
        percent_from(mv, i + 1)
    }
}

/// State of charge of one cell at `cell_mv`, percent.
pub open spec fn cell_percent_spec(cell_mv: int) -> int {
    if cell_mv >= breakpoint_mv(0) { breakpoint_pct(0) } else { percent_from(cell_mv, 0) }
}

/// State of charge of `cells` cells in series at `pack_mv`, percent.
pub open spec fn pack_percent_spec(pack_mv: int, cells: int) -> int {
    if cells == 0 {
        0
    } else {
        let cell = pack_mv / cells;
        cell_percent_spec(if cell > u16::MAX { u16::MAX as int } else { cell })
    }
}

fn breakpoint(i: usize) -> (r: (u16, u8))
    requires
        i < CURVE_POINTS,
    ensures
        r.0 == breakpoint_mv(i as int),
        r.1 == breakpoint_pct(i as int),
{
    match i {
        0 => (4200, 100),
        1 => (4100, 90),
        2 => (4000, 80),
        3 => (3920, 70),
        4 => (3850, 60),
        5 => (3800, 50),
        6 => (3750, 40),
        7 => (3700, 30),
        8 => (3650, 20),
        9 => (3550, 10),
        10 => (3400, 5),
        _ => (3300, 0),
    }
}

/// Inside a segment the interpolated value stays between the segment's
/// endpoints and grows with the voltage.
proof fn lemma_scaled_bounds(x: int, y: int, d: int, span: int)
    requires
        0 <= x <= y < span,
        0 <= d,
    ensures
        0 <= x * d / span <= y * d / span <= d,
{
    lemma_mul_inequality(x, y, d);
    lemma_mul_inequality(0, x, d);
    lemma_mul_inequality(y, span, d);
    lemma_div_is_ordered(x * d, y * d, span);
    lemma_div_is_ordered(0, x * d, span);
    lemma_div_is_ordered(y * d, span * d, span);
    lemma_mul_is_commutative(span, d);
    lemma_div_by_multiple(d, span);
}

proof fn lemma_interpolate_in_segment(a: int, b: int, i: int)
    requires
        0 <= i < 11,
        breakpoint_mv(i + 1) <= a <= b < breakpoint_mv(i),
    ensures
        breakpoint_pct(i + 1) <= interpolate(a, i) <= interpolate(b, i) <= breakpoint_pct(i),
{
    lemma_scaled_bounds(
        a - breakpoint_mv(i + 1),
        b - breakpoint_mv(i + 1),
        breakpoint_pct(i) - breakpoint_pct(i + 1),
        breakpoint_mv(i) - breakpoint_mv(i + 1),
    );
}

proof fn lemma_percent_from_monotonic(a: int, b: int, i: int)
    requires
        0 <= i <= 11,
        a <= b < breakpoint_mv(i),
    ensures
        0 <= percent_from(a, i) <= percent_from(b, i) <= breakpoint_pct(i),
    decreases 11 - i,
{
    if i < 11 {
        let lo = breakpoint_mv(i + 1);
        if a >= lo {
            lemma_interpolate_in_segment(a, b, i);
        } else if b >= lo {
            lemma_percent_from_monotonic(a, a, i + 1);
            lemma_interpolate_in_segment(b, b, i);
        } else {
            lemma_percent_from_monotonic(a, b, i + 1);
        }
    }
}

/// The state of charge never falls when the cell voltage rises, and it stays
/// within `0..=100`.
pub proof fn lemma_cell_percent_monotonic(a: int, b: int)
    requires
        a <= b,
    ensures
        0 <= cell_percent_spec(a) <= cell_percent_spec(b) <= 100,
{
    if b < breakpoint_mv(0) {
        lemma_percent_from_monotonic(a, b, 0);
    } else if a < breakpoint_mv(0) {
        lemma_percent_from_monotonic(a, a, 0);
    }
}

/// State of charge for one cell, percent `0..=100`.
pub fn cell_percent(cell_mv: u16) -> (r: u8)
    ensures
        r == cell_percent_spec(cell_mv as int),
{
    proof {
        lemma_cell_percent_monotonic(cell_mv as int, cell_mv as int);
    }
    let (top_mv, top_pct) = breakpoint(0);
    if cell_mv >= top_mv {
        return top_pct;
    }
    let mut i: usize = 0;
    while i + 1 < CURVE_POINTS
        invariant
            i < CURVE_POINTS,
            (cell_mv as int) < breakpoint_mv(i as int),
            percent_from(cell_mv as int, i as int) == percent_from(cell_mv as int, 0),
            0 <= percent_from(cell_mv as int, 0) <= 100,
        decreases CURVE_POINTS - i,
    {
        let (hi_mv, hi_pct) = breakpoint(i);
        let (lo_mv, lo_pct) = breakpoint(i + 1);
        if cell_mv >= lo_mv {
            let span = (hi_mv - lo_mv) as u32;
            let above = (cell_mv - lo_mv) as u32;
            let rise = (hi_pct - lo_pct) as u32;
            proof {
                lemma_interpolate_in_segment(cell_mv as int, cell_mv as int, i as int);
                lemma_scaled_bounds(above as int, above as int, rise as int, span as int);
            }
            assert(above * rise <= 65535 * 100) by (nonlinear_arith)
                requires
                    above <= 65535,
                    rise <= 100,
            ;
            let pct = lo_pct as u32 + above * rise / span;
            return pct as u8;
        }
        i = i + 1;
    }
    0
}

/// State of charge for a pack of `cells` in series, from pack millivolts.
pub fn pack_percent(pack_mv: u32, cells: u8) -> (r: u8)
    ensures
        r == pack_percent_spec(pack_mv as int, cells as int),
{
    if cells == 0 {
        return 0;
    }
    let cell = pack_mv / cells as u32;
    let cell16: u16 = if cell > u16::MAX as u32 { u16::MAX } else { cell as u16 };
    cell_percent(cell16)
}

/// A pack reads as its average cell: `cells` cells in series at `v` mV each
/// (plus less than one millivolt per cell of remainder) read exactly what
/// one cell at `v` reads, for every cell count.
pub proof fn lemma_pack_reads_as_average_cell(v: int, cells: int, extra: int)
    requires
        1 <= cells,
        0 <= v <= u16::MAX,
        0 <= extra < cells,
    ensures
        pack_percent_spec(cells * v + extra, cells) == cell_percent_spec(v),
{
    assert((cells * v + extra) / cells == v) by (nonlinear_arith)
        requires
            1 <= cells,
            0 <= extra < cells,
    ;
}

/// The pack reading never falls when the pack voltage rises, for a fixed
/// cell count, and stays within `0..=100`.
pub proof fn lemma_pack_percent_monotonic(a: int, b: int, cells: int)
    requires
        0 <= a <= b,
        0 <= cells,
    ensures
        0 <= pack_percent_spec(a, cells) <= pack_percent_spec(b, cells) <= 100,
{
    if cells > 0 {
        lemma_div_is_ordered(a, b, cells);
        let ca = a / cells;
        let cb = b / cells;
        let sa = if ca > u16::MAX { u16::MAX as int } else { ca };
        let sb = if cb > u16::MAX { u16::MAX as int } else { cb };
        lemma_cell_percent_monotonic(sa, sb);
    }
}

} // verus!

//! One full lidar rotation, as published by the car.
//!
//! Points keep the RPLIDAR's native fixed-point units (angle in 1/64 degree,
//! distance in 1/4 millimetre) so the car never touches floating point.
//! The points live in a `heapless::Vec` of capacity [`MAX_NODES`].
use vstd::prelude::*;

verus! {

/// Maximum points kept per rotation; anything beyond is counted in
/// [`ScanFrame::dropped`], not silently lost.
pub const MAX_NODES: usize = 720;

/// `heapless::Vec<T, N>`: a vector of capacity `N` stored inline.
#[verifier::external_type_specification]
#[verifier::external_body]
#[verifier::reject_recursive_types(T)]
pub struct ExHeaplessVec<T, const N: usize>(heapless::Vec<T, N>);

/// `heapless::Vec` clones element by element (nothing is claimed of the
/// result here).
pub assume_specification<T: Clone, const N: usize>[ <heapless::Vec<T, N> as Clone>::clone ](
    v: &heapless::Vec<T, N>,
) -> heapless::Vec<T, N>;

/// One measurement, in lidar-native fixed point.
#[derive(Debug, Clone, Copy, PartialEq, Eq, Structural)]
pub struct ScanPoint {
    /// Angle, Q6: degrees × 64, clockwise from the lidar's forward mark.
    pub angle_q6: u16,
    /// Distance, Q2: millimetres × 4. `0` = no return.
    pub dist_q2: u16,
    /// Return quality `0..=63`.
    pub quality: u8,
}

impl Default for ScanPoint {
    fn default() -> (p: ScanPoint)
        ensures
            p == (ScanPoint { angle_q6: 0, dist_q2: 0, quality: 0 }),
    {
        ScanPoint { angle_q6: 0, dist_q2: 0, quality: 0 }
    }
}

impl ScanPoint {
    /// `true` when the point carries a real measurement.
    pub fn is_valid(&self) -> (b: bool)
        ensures
            b == (self.dist_q2 != 0),
    {
        self.dist_q2 != 0
    }
}

/// The points a rotation's `heapless::Vec` holds, in order.
pub uninterp spec fn points_of(v: heapless::Vec<ScanPoint, MAX_NODES>) -> Seq<ScanPoint>;

/// `heapless::Vec::new`: an empty vector.
#[verifier::external_body]
pub(crate) fn points_new() -> (v: heapless::Vec<ScanPoint, MAX_NODES>)
    ensures
        points_of(v) == Seq::<ScanPoint>::empty(),
{
    heapless::Vec::new()
}

/// `heapless::Vec::push`: appends while below capacity, otherwise hands the
/// item back and leaves the vector unchanged.
#[verifier::external_body]
pub(crate) fn points_push(
    v: &mut heapless::Vec<ScanPoint, MAX_NODES>,
    p: ScanPoint,
) -> (r: Result<(), ScanPoint>)
    ensures
        points_of(*old(v)).len() < MAX_NODES ==> r is Ok && points_of(*final(v)) == points_of(
            *old(v),
        ).push(p),
        points_of(*old(v)).len() >= MAX_NODES ==> r is Err && r->Err_0 == p && points_of(*final(v))
            == points_of(*old(v)),
        points_of(*final(v)).len() <= MAX_NODES,
{
    v.push(p)
}

/// `heapless::Vec::clear`: removes every item.
#[verifier::external_body]
pub(crate) fn points_clear(v: &mut heapless::Vec<ScanPoint, MAX_NODES>)
    ensures
        points_of(*final(v)) == Seq::<ScanPoint>::empty(),
{
    v.clear()
}

/// `heapless::Vec::len`: the number of items, never above the capacity.
#[verifier::external_body]
pub(crate) fn points_len(v: &heapless::Vec<ScanPoint, MAX_NODES>) -> (n: usize)
    ensures
        n == points_of(*v).len(),
        n <= MAX_NODES,
{
    v.len()
}

/// Indexing a `heapless::Vec` (through its slice): the `i`-th item.
#[verifier::external_body]
pub(crate) fn points_get(v: &heapless::Vec<ScanPoint, MAX_NODES>, i: usize) -> (p: ScanPoint)
    requires
        i < points_of(*v).len(),
    ensures
        p == points_of(*v)[i as int],
{
    v[i]
}

/// Number of points with a non-zero distance.
pub open spec fn count_valid(s: Seq<ScanPoint>) -> nat
    decreases s.len(),
{
    if s.len() == 0 {
        0
    } else {
        count_valid(s.drop_last()) + if s.last().dist_q2 != 0 { 1nat } else { 0nat }
    }
}

/// A complete rotation.
#[derive(Debug, Clone, PartialEq, Eq)]
pub struct ScanFrame {
    /// Rotation counter since the lidar was started; wraps.
    pub seq: u32,
    /// Car uptime when the rotation completed, milliseconds; wraps.
    pub t_ms: u32,
    /// Points that did not fit in [`MAX_NODES`].
    pub dropped: u16,
    /// The measurements, in the order the lidar produced them.
    pub points: heapless::Vec<ScanPoint, MAX_NODES>,
}

impl ScanFrame {
    /// Upper bound of the postcard encoding, bytes (varint worst case).
    pub const MAX_ENCODED_LEN: usize = 5 + 5 + 3 + 2 + MAX_NODES * 7;

    /// An empty frame: sequence 0, time 0, nothing dropped, no points.
    pub fn empty() -> (f: ScanFrame)
        ensures
            f.seq == 0,
            f.t_ms == 0,
            f.dropped == 0,
            points_of(f.points) == Seq::<ScanPoint>::empty(),
    {
        ScanFrame { seq: 0, t_ms: 0, dropped: 0, points: points_new() }
    }

    /// Number of valid (non-zero distance) points.
    pub fn valid_points(&self) -> (n: usize)
        ensures
            n == count_valid(points_of(self.points)),
    {
        let len = points_len(&self.points);
        let ghost s = points_of(self.points);
        let mut n: usize = 0;
        let mut i: usize = 0;
        while i < len
            invariant
                len == s.len(),
                s == points_of(self.points),
                i <= len,
                n == count_valid(s.take(i as int)),
                n <= i,
            decreases len - i,
        {
            let p = points_get(&self.points, i);
            assert(s.take(i + 1).drop_last() =~= s.take(i as int));
            if p.is_valid() {
                n = n + 1;
            }
            i = i + 1;
        }
        assert(s.take(len as int) =~= s);
        n
    }
}

impl Default for ScanFrame {
    fn default() -> (f: ScanFrame)
        ensures
            f.seq == 0,
            f.t_ms == 0,
            f.dropped == 0,
            points_of(f.points) == Seq::<ScanPoint>::empty(),
    {
        ScanFrame::empty()
    }
}

} // verus!

//! Groups scan nodes into whole rotations using the start flag.
use vstd::prelude::*;
use crate::proto::scan_frame::{
    MAX_NODES, ScanFrame, ScanPoint, points_clear, points_len, points_of, points_push,
};

verus! {

/// One measurement as the lidar reports it.
#[derive(Debug, Clone, Copy, PartialEq, Eq, Structural)]
pub struct ScanNode {
    /// `true` on the first node of a new rotation.
    pub start_flag: bool,
    /// Return quality `0..=63`.
    pub quality: u8,
    /// Angle, Q6 degrees.
    pub angle_q6: u16,
    /// Distance, Q2 millimetres (`0` = no return).
    pub distance_q2: u16,
}

/// The point a node contributes to a frame.
pub open spec fn point_of(node: ScanNode) -> ScanPoint {
    ScanPoint { angle_q6: node.angle_q6, dist_q2: node.distance_q2, quality: node.quality }
}

/// The assembler's abstract state: the rotation in progress (its points and
/// the count of points that did not fit), whether a start flag has been
/// seen, and the sequence number of the next emitted rotation.
pub struct AssemblerModel {
    pub points: Seq<ScanPoint>,
    pub dropped: u16,
    pub synced: bool,
    pub seq: u32,
}

/// A completed rotation as the assembler hands it out.
pub struct FrameModel {
    pub seq: u32,
    pub t_ms: u32,
    pub dropped: u16,
    pub points: Seq<ScanPoint>,
}

/// The rotation a start flag completes, if any: only after a first start
/// flag, and only when it holds at least one point.
pub open spec fn completed(a: AssemblerModel, node: ScanNode, now_ms: u32) -> Option<FrameModel> {
    if node.start_flag && a.synced && a.points.len() > 0 {
        Some(FrameModel { seq: a.seq, t_ms: now_ms, dropped: a.dropped, points: a.points })
    } else {
        None
    }
}

/// The assembler after one node.
pub open spec fn assembler_push(a: AssemblerModel, node: ScanNode, now_ms: u32) -> AssemblerModel {
    let emitted = completed(a, node, now_ms) is Some;
    let seq = if emitted { (if a.seq == u32::MAX { 0 } else { a.seq + 1 }) as u32 } else { a.seq };
    let (points, dropped, synced) = if node.start_flag {
        (Seq::<ScanPoint>::empty(), 0u16, true)
    } else {
        (a.points, a.dropped, a.synced)
    };
    if !synced {
        AssemblerModel { points, dropped, synced, seq }
    } else if points.len() < MAX_NODES {
        AssemblerModel { points: points.push(point_of(node)), dropped, synced, seq }
    } else {
        AssemblerModel {
            points,
            dropped: (if dropped == u16::MAX { u16::MAX as int } else { dropped + 1 }) as u16,
            synced,
            seq,
        }
    }
}

/// Accumulates nodes; emits a [`ScanFrame`] whenever a new rotation starts.
///
/// The leading partial rotation (everything before the first start flag) is
/// discarded.
#[derive(Debug, Clone)]
pub struct FrameAssembler {
    current: ScanFrame,
    synced: bool,
    seq: u32,
}

impl View for FrameAssembler {
    type V = AssemblerModel;

    closed spec fn view(&self) -> AssemblerModel {
        AssemblerModel {
            points: points_of(self.current.points),
            dropped: self.current.dropped,
            synced: self.synced,
            seq: self.seq,
        }
    }
}

impl Default for FrameAssembler {
    fn default() -> (a: FrameAssembler)
        ensures
            a@ == (AssemblerModel { points: Seq::empty(), dropped: 0, synced: false, seq: 0 }),
    {
        FrameAssembler::new()
    }
}

impl FrameAssembler {
    /// Empty assembler, waiting for a first start flag.
    pub fn new() -> (a: FrameAssembler)
        ensures
            a@ == (AssemblerModel { points: Seq::empty(), dropped: 0, synced: false, seq: 0 }),
    {
        FrameAssembler { current: ScanFrame::empty(), synced: false, seq: 0 }
    }

    /// Add a node observed at car uptime `now_ms`. Returns the completed
    /// previous rotation when `node` starts a new one.
    pub fn push(&mut self, node: ScanNode, now_ms: u32) -> (done: Option<ScanFrame>)
        ensures
            final(self)@ == assembler_push(old(self)@, node, now_ms),
            match done {
                Some(f) => completed(old(self)@, node, now_ms) == Some(
                    FrameModel { seq: f.seq, t_ms: f.t_ms, dropped: f.dropped, points: points_of(f.points) },
                ),
                None => completed(old(self)@, node, now_ms) is None,
            },
    {
        let mut done: Option<ScanFrame> = None;
        if node.start_flag {
            if self.synced && points_len(&self.current.points) > 0 {
                let mut finished = ScanFrame::empty();
                core::mem::swap(&mut finished, &mut self.current);
                finished.seq = self.seq;
                finished.t_ms = now_ms;
                self.seq = self.seq.wrapping_add(1);
                done = Some(finished);
            }
            self.synced = true;
            points_clear(&mut self.current.points);
            self.current.dropped = 0;
        }
        if self.synced {
            let point = ScanPoint { angle_q6: node.angle_q6, dist_q2: node.distance_q2, quality: node.quality };
            if points_push(&mut self.current.points, point).is_err() {
                self.current.dropped = self.current.dropped.saturating_add(1);
            }
        }
        done
    }

    /// Forget any partial rotation (call on stop/restart).
    pub fn reset(&mut self)
        ensures
            final(self)@ == (AssemblerModel { points: Seq::empty(), dropped: 0, synced: false, seq: old(self)@.seq }),
    {
        self.current = ScanFrame::empty();
        self.synced = false;
    }

    /// Points collected in the rotation in progress.
    pub fn pending(&self) -> (n: usize)
        ensures
            n == self@.points.len(),
    {
        points_len(&self.current.points)
    }
}

/// Nothing is lost silently: once synced, every node that is not a start
/// flag either lands in the rotation in progress or is counted as dropped
/// (until the counter saturates); a start flag restarts the rotation with
/// that node as its first point; rotations never exceed `MAX_NODES` points
/// and carry consecutive sequence numbers.
pub proof fn lemma_assembler_accounts_for_every_node(a: AssemblerModel, node: ScanNode, now_ms: u32)
    requires
        a.points.len() <= MAX_NODES,
    ensures
        ({
            let b = assembler_push(a, node, now_ms);
            &&& b.points.len() <= MAX_NODES
            &&& (a.synced && !node.start_flag && a.dropped < u16::MAX) ==> b.points.len() + b.dropped
                == a.points.len() + a.dropped + 1
            &&& node.start_flag ==> b.synced && b.points == seq![point_of(node)] && b.dropped == 0
            &&& !a.synced && !node.start_flag ==> b == a
            &&& completed(a, node, now_ms) matches Some(f) ==> f.points.len() >= 1 && f.points.len()
                <= MAX_NODES && f.seq == a.seq && b.seq == (if a.seq == u32::MAX { 0 } else { a.seq + 1 })
        }),
{
}

} // verus!

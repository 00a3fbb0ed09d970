//! Byte-at-a-time parser state machine: response descriptor, then an
//! endless stream of 5-byte scan nodes, with one-byte resynchronisation.
//!
//! The pump collects bytes and decides; checking a collected descriptor and
//! decoding a collected node belong to the RPLIDAR protocol codec, whose
//! verdicts are handed back through [`Pump::descriptor_checked`] and
//! [`Pump::node_checked`].
use vstd::prelude::*;
use crate::lidar::frame::ScanNode;

verus! {

/// Length of the response descriptor that precedes the stream, bytes.
pub const DESCRIPTOR_LEN: usize = 7;
/// Length of one scan node, bytes.
pub const SCAN_NODE_LEN: usize = 5;

/// Counters for telemetry and tests.
#[derive(Debug, Clone, Copy, PartialEq, Eq, Structural)]
pub struct PumpStats {
    /// Nodes successfully parsed.
    pub nodes: u32,
    /// Bytes discarded while hunting for the descriptor.
    pub descriptor_skips: u32,
    /// Bytes discarded to regain node alignment.
    pub resync_bytes: u32,
}

impl Default for PumpStats {
    fn default() -> (s: PumpStats)
        ensures
            s == (PumpStats { nodes: 0, descriptor_skips: 0, resync_bytes: 0 }),
    {
        PumpStats { nodes: 0, descriptor_skips: 0, resync_bytes: 0 }
    }
}

/// What the pump is doing.
#[derive(Debug, Clone, Copy, PartialEq, Eq, Structural)]
pub enum PumpState {
    /// Not scanning; bytes are ignored.
    Idle,
    /// Collecting the 7-byte response descriptor that precedes the stream.
    Descriptor,
    /// Collecting 5-byte nodes.
    Nodes,
}

/// What to do after one byte.
#[derive(Debug, Clone, Copy, PartialEq, Eq)]
pub enum PumpStep {
    /// Nothing to do yet.
    Wait,
    /// A full descriptor is collected: check it (data type measurement, node
    /// length 5, multi-response) and report through
    /// [`Pump::descriptor_checked`].
    CheckDescriptor([u8; DESCRIPTOR_LEN]),
    /// A full node is collected: decode it and report through
    /// [`Pump::node_checked`].
    CheckNode([u8; SCAN_NODE_LEN]),
}

/// The pump's abstract state: the mode, the bytes collected so far, the counters.
pub struct PumpModel {
    pub state: PumpState,
    pub pending: Seq<u8>,
    pub stats: PumpStats,
}

/// `true` while the pump holds a full descriptor or node awaiting its verdict.
pub open spec fn awaiting_check(p: PumpModel) -> bool {
    ||| p.state == PumpState::Descriptor && p.pending.len() == DESCRIPTOR_LEN
    ||| p.state == PumpState::Nodes && p.pending.len() == SCAN_NODE_LEN
}

/// The pump after one byte, before any verdict.
pub open spec fn pump_push(p: PumpModel, byte: u8) -> PumpModel {
    if p.state == PumpState::Idle {
        p
    } else {
        PumpModel { pending: p.pending.push(byte), ..p }
    }
}

/// The pump after the verdict on a collected descriptor: on success nodes
/// start flowing; otherwise the oldest byte is dropped and counted.
pub open spec fn descriptor_verdict(p: PumpModel, ok: bool) -> PumpModel {
    if ok {
        PumpModel { state: PumpState::Nodes, pending: Seq::empty(), ..p }
    } else {
        PumpModel {
            pending: p.pending.skip(1),
            stats: PumpStats { descriptor_skips: (p.stats.descriptor_skips + 1) as u32, ..p.stats },
            ..p
        }
    }
}

/// The pump after the verdict on a collected node: a decoded node is
/// counted; otherwise the oldest byte is dropped and counted.
pub open spec fn node_verdict(p: PumpModel, node: Option<ScanNode>) -> PumpModel {
    match node {
        Some(_) => PumpModel {
            pending: Seq::empty(),
            stats: PumpStats { nodes: (p.stats.nodes + 1) as u32, ..p.stats },
            ..p
        },
        None => PumpModel {
            pending: p.pending.skip(1),
            stats: PumpStats { resync_bytes: (p.stats.resync_bytes + 1) as u32, ..p.stats },
            ..p
        },
    }
}

/// One byte through the pump with the decoder's verdicts supplied: what it
/// leaves and the node it yields. `descriptor_ok` is the verdict on a
/// descriptor the byte completes, `node` the decoding of a node it completes.
pub open spec fn pump_byte(p: PumpModel, byte: u8, descriptor_ok: bool, node: Option<ScanNode>) -> (
    PumpModel,
    Option<ScanNode>,
) {
    let q = pump_push(p, byte);
    if q.state == PumpState::Descriptor && q.pending.len() == DESCRIPTOR_LEN {
        (descriptor_verdict(q, descriptor_ok), None)
    } else if q.state == PumpState::Nodes && q.pending.len() == SCAN_NODE_LEN {
        (node_verdict(q, node), node)
    } else {
        (q, None)
    }
}

/// Between bytes: fewer bytes collected than a descriptor or node needs.
pub open spec fn resting(p: PumpModel) -> bool {
    &&& p.state == PumpState::Descriptor ==> p.pending.len() < DESCRIPTOR_LEN
    &&& p.state == PumpState::Nodes ==> p.pending.len() < SCAN_NODE_LEN
}

/// The pump.
#[derive(Debug, Clone, Copy)]
pub struct Pump {
    state: PumpState,
    buf: [u8; DESCRIPTOR_LEN],
    len: usize,
    stats: PumpStats,
}

impl View for Pump {
    type V = PumpModel;

    closed spec fn view(&self) -> PumpModel {
        PumpModel { state: self.state, pending: self.buf@.take(self.len as int), stats: self.stats }
    }
}

impl Default for Pump {
    fn default() -> (p: Pump)
        ensures
            p@ == (PumpModel {
                state: PumpState::Idle,
                pending: Seq::empty(),
                stats: PumpStats { nodes: 0, descriptor_skips: 0, resync_bytes: 0 },
            }),
    {
        Pump::new()
    }
}

impl Pump {
    #[verifier::type_invariant]
    spec fn fill_in_range(self) -> bool {
        &&& self.len <= DESCRIPTOR_LEN
        &&& self.state == PumpState::Nodes ==> self.len <= SCAN_NODE_LEN
        &&& self.state == PumpState::Idle ==> self.len == 0
    }

    /// Idle pump; call [`start`](Self::start) after sending `SCAN`.
    pub fn new() -> (p: Pump)
        ensures
            p@ == (PumpModel {
                state: PumpState::Idle,
                pending: Seq::empty(),
                stats: PumpStats { nodes: 0, descriptor_skips: 0, resync_bytes: 0 },
            }),
    {
        let p = Pump {
            state: PumpState::Idle,
            buf: [0; DESCRIPTOR_LEN],
            len: 0,
            stats: PumpStats { nodes: 0, descriptor_skips: 0, resync_bytes: 0 },
        };
        assert(p.buf@.take(0) =~= Seq::<u8>::empty());
        p
    }

    /// Expect a response descriptor next (after writing `SCAN`).
    pub fn start(&mut self)
        ensures
            final(self)@ == (PumpModel { state: PumpState::Descriptor, pending: Seq::empty(), ..old(self)@ }),
    {
        self.len = 0;
        self.state = PumpState::Descriptor;
        assert(self.buf@.take(0) =~= Seq::<u8>::empty());
    }

    /// Stop parsing (after writing `STOP`); bytes are ignored until `start`.
    pub fn stop(&mut self)
        ensures
            final(self)@ == (PumpModel { state: PumpState::Idle, pending: Seq::empty(), ..old(self)@ }),
    {
        self.len = 0;
        self.state = PumpState::Idle;
        assert(self.buf@.take(0) =~= Seq::<u8>::empty());
    }

    /// `true` once the descriptor has been seen and nodes are flowing.
    pub fn is_streaming(&self) -> (b: bool)
        ensures
            b == (self@.state == PumpState::Nodes),
    {
        self.state == PumpState::Nodes
    }

    /// Counters so far.
    pub fn stats(&self) -> (s: PumpStats)
        ensures
            s == self@.stats,
    {
        self.stats
    }

    /// `true` while a collected descriptor or node awaits its verdict.
    pub fn is_awaiting_check(&self) -> (b: bool)
        ensures
            b == awaiting_check(self@),
    {
        proof {
            use_type_invariant(self);
        }
        (self.state == PumpState::Descriptor && self.len == DESCRIPTOR_LEN) || (self.state
            == PumpState::Nodes && self.len == SCAN_NODE_LEN)
    }

    /// Push one byte. Idle pumps ignore it; otherwise it is collected, and a
    /// completed descriptor or node is handed out for checking.
    pub fn push_byte(&mut self, byte: u8) -> (step: PumpStep)
        requires
            !awaiting_check(old(self)@),
        ensures
            final(self)@ == pump_push(old(self)@, byte),
            match step {
                PumpStep::Wait => !awaiting_check(final(self)@),
                PumpStep::CheckDescriptor(d) => final(self)@.state == PumpState::Descriptor
                    && final(self)@.pending.len() == DESCRIPTOR_LEN && d@ == final(self)@.pending,
                PumpStep::CheckNode(n) => final(self)@.state == PumpState::Nodes
                    && final(self)@.pending.len() == SCAN_NODE_LEN && n@ == final(self)@.pending,
            },
    {
        proof {
            use_type_invariant(&*self);
        }
        match self.state {
            PumpState::Idle => PumpStep::Wait,
            PumpState::Descriptor => {
                let ghost before = self.buf@;
                self.buf[self.len] = byte;
                self.len = self.len + 1;
                assert(self.buf@.take(self.len as int) =~= before.take(self.len - 1).push(byte));
                if self.len < DESCRIPTOR_LEN {
                    return PumpStep::Wait;
                }
                assert(self.buf@.take(self.len as int) =~= self.buf@);
                PumpStep::CheckDescriptor(self.buf)
            },
            PumpState::Nodes => {
                let ghost before = self.buf@;
                self.buf[self.len] = byte;
                self.len = self.len + 1;
                assert(self.buf@.take(self.len as int) =~= before.take(self.len - 1).push(byte));
                if self.len < SCAN_NODE_LEN {
                    return PumpStep::Wait;
                }
                let node = [self.buf[0], self.buf[1], self.buf[2], self.buf[3], self.buf[4]];
                assert(node@ =~= self.buf@.take(SCAN_NODE_LEN as int));
                PumpStep::CheckNode(node)
            },
        }
    }

    /// The verdict on the collected descriptor: on success nodes start
    /// flowing; otherwise the oldest byte is dropped and counted, and the
    /// hunt continues one byte later.
    pub fn descriptor_checked(&mut self, ok: bool)
        requires
            old(self)@.state == PumpState::Descriptor,
            old(self)@.pending.len() == DESCRIPTOR_LEN,
            !ok ==> old(self)@.stats.descriptor_skips < u32::MAX,
        ensures
            final(self)@ == descriptor_verdict(old(self)@, ok),
    {
        proof {
            use_type_invariant(&*self);
        }
        if ok {
            self.len = 0;
            self.state = PumpState::Nodes;
            assert(self.buf@.take(0) =~= Seq::<u8>::empty());
        } else {
            self.stats.descriptor_skips = self.stats.descriptor_skips + 1;
            self.shift_out_first();
        }
    }

    /// The verdict on the collected node: a decoded node is counted and
    /// returned; otherwise the oldest byte is dropped and counted, and
    /// alignment is retried one byte later.
    pub fn node_checked(&mut self, node: Option<ScanNode>) -> (out: Option<ScanNode>)
        requires
            old(self)@.state == PumpState::Nodes,
            old(self)@.pending.len() == SCAN_NODE_LEN,
            node is Some ==> old(self)@.stats.nodes < u32::MAX,
            node is None ==> old(self)@.stats.resync_bytes < u32::MAX,
        ensures
            out == node,
            final(self)@ == node_verdict(old(self)@, node),
    {
        proof {
            use_type_invariant(&*self);
        }
        match node {
            Some(n) => {
                self.len = 0;
                self.stats.nodes = self.stats.nodes + 1;
                assert(self.buf@.take(0) =~= Seq::<u8>::empty());
                Some(n)
            },
            None => {
                self.stats.resync_bytes = self.stats.resync_bytes + 1;
                self.shift_out_first();
                None
            },
        }
    }

    /// Drop the oldest collected byte, keeping the rest in order.
    fn shift_out_first(&mut self)
        requires
            old(self).len >= 1,
            old(self).state != PumpState::Idle,
        ensures
            final(self)@ == (PumpModel { pending: old(self)@.pending.skip(1), ..old(self)@ }),
    {
        proof {
            use_type_invariant(&*self);
        }
        let ghost before = self.buf@;
        let n = self.len;
        let mut buf = self.buf;
        let mut i: usize = 0;
        while i + 1 < n
            invariant
                1 <= n <= DESCRIPTOR_LEN,
                before.len() == DESCRIPTOR_LEN,
                buf@.len() == DESCRIPTOR_LEN,
                i + 1 <= n,
                forall|j: int| 0 <= j < i ==> buf@[j] == before[j + 1],
                forall|j: int| i <= j < DESCRIPTOR_LEN ==> buf@[j] == before[j],
            decreases n - i,
        {
            buf[i] = buf[i + 1];
            i = i + 1;
        }
        self.buf = buf;
        self.len = n - 1;
        assert(self.buf@.take(self.len as int) =~= before.take(n as int).skip(1));
    }
}

/// Resynchronisation drops exactly one byte per failed verdict, keeps the
/// rest in order, and counts it; an idle pump ignores every byte.
pub proof fn lemma_pump_resync(p: PumpModel, byte: u8)
    requires
        p.pending.len() >= 1,
    ensures
        p.pending.skip(1).len() == p.pending.len() - 1,
        forall|j: int| 0 <= j < p.pending.len() - 1 ==> #[trigger] p.pending.skip(1)[j] == p.pending[j + 1],
        p.state == PumpState::Idle ==> pump_push(p, byte) == p,
{
}

/// One byte with its verdicts, as the pump's user runs it: an idle pump
/// ignores the byte and yields nothing; a yielded node means nodes are
/// streaming and exactly one more node is counted; no counter ever goes
/// down; and the pump rests again, ready for the next byte.
pub proof fn lemma_pump_byte(p: PumpModel, byte: u8, descriptor_ok: bool, node: Option<ScanNode>)
    requires
        resting(p),
        p.stats.nodes < u32::MAX,
        p.stats.descriptor_skips < u32::MAX,
        p.stats.resync_bytes < u32::MAX,
    ensures
        ({
            let (q, out) = pump_byte(p, byte, descriptor_ok, node);
            &&& p.state == PumpState::Idle ==> q == p && out is None
            &&& out is Some ==> q.state == PumpState::Nodes && q.stats.nodes == p.stats.nodes + 1
            &&& q.stats.nodes >= p.stats.nodes
            &&& q.stats.descriptor_skips >= p.stats.descriptor_skips
            &&& q.stats.resync_bytes >= p.stats.resync_bytes
            &&& (q.state == PumpState::Idle) == (p.state == PumpState::Idle)
            &&& resting(q)
        }),
{
}

} // verus!

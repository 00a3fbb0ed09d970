use olivaw::lidar::commands::{scan_request, stop_request};
use olivaw::lidar::frame::{FrameAssembler, ScanNode};
use olivaw::lidar::pump::{Pump, PumpStep};
use olivaw::proto::scan_frame::MAX_NODES;

#[test]
fn encodes_the_documented_opcodes() {
    assert_eq!(scan_request().bytes(), &[0xA5, 0x20]);
    assert_eq!(stop_request().bytes(), &[0xA5, 0x25]);
}

fn node(start: bool, angle_q6: u16) -> ScanNode {
    ScanNode {
        start_flag: start,
        quality: 40,
        angle_q6,
        distance_q2: 4000,
    }
}

#[test]
fn drops_leading_partial_and_emits_whole_rotations() {
    let mut a = FrameAssembler::new();
    assert!(a.push(node(false, 100), 0).is_none());
    assert!(a.push(node(false, 200), 0).is_none());
    assert!(
        a.push(node(true, 0), 10).is_none(),
        "first start flag: begin, nothing to emit"
    );
    for i in 1..5 {
        assert!(a.push(node(false, i * 64), 10 + u32::from(i)).is_none());
    }
    let f = a.push(node(true, 0), 120).expect("rotation complete");
    assert_eq!(f.seq, 0);
    assert_eq!(f.t_ms, 120);
    assert_eq!(f.points.len(), 5);
    assert_eq!(a.pending(), 1);
    let f2 = a.push(node(true, 0), 240).unwrap();
    assert_eq!(f2.seq, 1);
    assert_eq!(f2.points.len(), 1);
}

#[test]
fn overflow_is_counted_not_lost_silently() {
    let mut a = FrameAssembler::new();
    a.push(node(true, 0), 0);
    for i in 0..(MAX_NODES + 10) {
        #[allow(clippy::cast_possible_truncation)]
        a.push(node(false, (i % 23_000) as u16), 1);
    }
    let f = a.push(node(true, 0), 2).unwrap();
    assert_eq!(f.points.len(), MAX_NODES);
    assert_eq!(f.dropped, 11);
}

#[test]
fn reset_forgets_the_partial_rotation() {
    let mut a = FrameAssembler::new();
    a.push(node(true, 0), 0);
    a.push(node(false, 64), 0);
    a.reset();
    assert_eq!(a.pending(), 0);
    assert!(a.push(node(true, 0), 5).is_none());
}

#[test]
fn emitted_points_keep_the_node_fields_in_order() {
    let mut a = FrameAssembler::default();
    a.push(node(true, 7), 0);
    a.push(ScanNode { start_flag: false, quality: 9, angle_q6: 8, distance_q2: 0 }, 0);
    let f = a.push(node(true, 0), 3).unwrap();
    assert_eq!(f.points[0].angle_q6, 7);
    assert_eq!(f.points[1].quality, 9);
    assert_eq!(f.points[1].dist_q2, 0);
    assert_eq!(f.valid_points(), 1);
}

/// A stand-in codec: descriptors start with 0xA5 0x5A, nodes with 0x01.
fn run(pump: &mut Pump, bytes: &[u8]) -> Vec<ScanNode> {
    let mut nodes = Vec::new();
    for &b in bytes {
        match pump.push_byte(b) {
            PumpStep::Wait => {}
            PumpStep::CheckDescriptor(d) => pump.descriptor_checked(d[0] == 0xA5 && d[1] == 0x5A),
            PumpStep::CheckNode(n) => {
                let parsed = (n[0] == 0x01).then_some(ScanNode {
                    start_flag: n[1] == 1,
                    quality: n[2],
                    angle_q6: u16::from(n[3]),
                    distance_q2: u16::from(n[4]),
                });
                if let Some(node) = pump.node_checked(parsed) {
                    nodes.push(node);
                }
            }
        }
    }
    nodes
}

#[test]
fn pump_hunts_for_the_descriptor_one_byte_at_a_time() {
    let mut pump = Pump::new();
    pump.start();
    let mut bytes = vec![0x00, 0xFF, 0x13];
    bytes.extend_from_slice(&[0xA5, 0x5A, 0x05, 0x00, 0x00, 0x40, 0x81]);
    bytes.extend_from_slice(&[0x01, 1, 40, 10, 20, 0x01, 0, 41, 11, 21]);
    let nodes = run(&mut pump, &bytes);
    assert!(pump.is_streaming());
    assert_eq!(pump.stats().descriptor_skips, 3);
    assert_eq!(pump.stats().nodes, 2);
    assert_eq!(nodes.len(), 2);
    assert!(nodes[0].start_flag);
    assert_eq!(nodes[1].distance_q2, 21);
}

#[test]
fn pump_resyncs_after_a_dropped_byte() {
    let mut pump = Pump::new();
    pump.start();
    let mut bytes = vec![0xA5, 0x5A, 0x05, 0x00, 0x00, 0x40, 0x81];
    // First node loses its leading 0x01: the next check fails, one byte is
    // skipped per failure until a node lines up again.
    bytes.extend_from_slice(&[7, 40, 10, 20, 0x01, 0, 41, 11, 21]);
    let nodes = run(&mut pump, &bytes);
    assert_eq!(pump.stats().resync_bytes, 4);
    assert_eq!(nodes.len(), 1);
    assert_eq!(nodes[0].quality, 41);
}

#[test]
fn idle_pump_ignores_bytes() {
    let mut pump = Pump::new();
    assert_eq!(pump.push_byte(0xA5), PumpStep::Wait);
    assert!(!pump.is_awaiting_check());
    pump.start();
    for b in [0xA5, 0x5A, 0x05, 0x00, 0x00, 0x40] {
        assert_eq!(pump.push_byte(b), PumpStep::Wait);
    }
    assert_eq!(pump.push_byte(0x81), PumpStep::CheckDescriptor([0xA5, 0x5A, 0x05, 0x00, 0x00, 0x40, 0x81]));
    assert!(pump.is_awaiting_check());
    pump.descriptor_checked(true);
    assert!(pump.is_streaming());
    pump.stop();
    assert!(!pump.is_streaming());
    assert_eq!(pump.push_byte(0x01), PumpStep::Wait);
}

#[test]
fn idle_pump_ignores_bytes_and_chunking_is_irrelevant() {
    let mut stream = vec![0xA5, 0x5A, 0x05, 0x00, 0x00, 0x40, 0x81];
    for i in 0..60u8 {
        stream.extend_from_slice(&[0x01, u8::from(i % 20 == 0), 47, i, i.wrapping_mul(3)]);
    }
    let mut whole = Pump::new();
    whole.start();
    let expected = run(&mut whole, &stream);

    let mut pump = Pump::new();
    assert_eq!(pump.push_byte(0xA5), PumpStep::Wait);
    pump.start();
    let mut count = 0;
    for chunk in stream.chunks(13) {
        count += run(&mut pump, chunk).len();
    }
    assert_eq!(count, expected.len());
    assert_eq!(count, 60);
    pump.stop();
    assert!(!pump.is_streaming());
}

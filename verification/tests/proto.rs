use olivaw::proto::control::{Control, CONTROL_MAX_LEN};
use olivaw::proto::error::ProtoError;
use olivaw::proto::scan_frame::{ScanFrame, ScanPoint};
use olivaw::proto::status::LinkState;
use olivaw::proto::telemetry::{Flags, Telemetry, TELEMETRY_LEN};
use olivaw::proto::topics::{parse, topic, Channel};

#[test]
fn round_trips_every_command() {
    for cmd in [
        Control::EStop,
        Control::Clear,
        Control::LidarOn,
        Control::LidarOff,
        Control::UplinkOn,
        Control::UplinkOff,
        Control::SetMaxDuty(550),
        Control::SetMaxDuty(1000),
    ] {
        let mut buf = [0u8; CONTROL_MAX_LEN];
        let n = cmd.encode(&mut buf);
        assert_eq!(Control::decode(&buf[..n]).unwrap(), cmd);
    }
}

#[test]
fn rejects_unknown_and_truncated() {
    assert_eq!(Control::decode(&[0x7F]), Err(ProtoError::BadOpcode(0x7F)));
    assert!(matches!(
        Control::decode(&[]),
        Err(ProtoError::TooShort { .. })
    ));
    assert!(matches!(
        Control::decode(&[0x30, 1]),
        Err(ProtoError::TooShort { needed: 3, .. })
    ));
}

#[test]
fn control_wire_bytes_are_fixed() {
    let mut buf = [0xEEu8; CONTROL_MAX_LEN];
    assert_eq!(Control::SetMaxDuty(550).encode(&mut buf), 3);
    assert_eq!(buf, [0x30, 0x26, 0x02]);
    let mut buf = [0xEEu8; CONTROL_MAX_LEN];
    assert_eq!(Control::LidarOff.encode(&mut buf), 1);
    assert_eq!(buf, [0x11, 0xEE, 0xEE]);
    assert_eq!(Control::decode(&[0x01, 0x99]), Ok(Control::EStop));
    assert_eq!(Control::decode(&[]), Err(ProtoError::TooShort { got: 0, needed: 1 }));
    assert_eq!(Control::decode(&[0x30, 1]), Err(ProtoError::TooShort { got: 2, needed: 3 }));
}

fn sample() -> Telemetry {
    let mut flags = Flags::default();
    flags.insert(Flags::ble_connected());
    flags.insert(Flags::low_battery());
    Telemetry {
        flags,
        battery_mv: 11_432,
        battery_pct: 63,
        left: -250,
        right: 1000,
        uptime_s: 123_456,
        rssi_dbm: -67,
        lidar: LinkState::Up,
        wifi: LinkState::Starting,
        mqtt: LinkState::Off,
        max_duty_permille: 550,
    }
}

#[test]
fn round_trips() {
    let t = sample();
    let bytes = t.encode();
    assert_eq!(bytes.len(), TELEMETRY_LEN);
    assert_eq!(Telemetry::decode(&bytes).unwrap(), t);
}

#[test]
fn layout_is_stable() {
    // This is the byte fixture mirrored in the TypeScript decoders.
    let bytes = sample().encode();
    assert_eq!(
        bytes,
        [
            1,
            0b0000_1010,
            0xA8,
            0x2C,
            63,
            0x06,
            0xFF,
            0xE8,
            0x03,
            0x40,
            0xE2,
            0x01,
            0x00,
            0xBD,
            2,
            1,
            0,
            0x26,
            0x02
        ]
    );
}

#[test]
fn rejects_short_and_wrong_version() {
    assert!(matches!(
        Telemetry::decode(&[1, 2, 3]),
        Err(ProtoError::TooShort {
            got: 3,
            needed: TELEMETRY_LEN
        })
    ));
    let mut bytes = sample().encode();
    bytes[0] = 9;
    assert_eq!(Telemetry::decode(&bytes), Err(ProtoError::BadVersion(9)));
}

#[test]
fn tolerates_trailing_bytes() {
    let mut long = [0u8; 32];
    long[..TELEMETRY_LEN].copy_from_slice(&sample().encode());
    assert_eq!(Telemetry::decode(&long).unwrap(), sample());
}

#[test]
fn unknown_link_bytes_decode_as_fault() {
    let mut bytes = sample().encode();
    bytes[16] = 200;
    assert_eq!(Telemetry::decode(&bytes).unwrap().mqtt, LinkState::Fault);
    assert_eq!(LinkState::from_u8(7), LinkState::Fault);
    assert_eq!(LinkState::from_u8(LinkState::Starting.as_u8()), LinkState::Starting);
    assert_eq!(LinkState::Up.as_u8(), 2);
    assert!(LinkState::Up.is_up());
    assert!(!LinkState::Fault.is_up());
}

#[test]
fn flags_set_and_clear() {
    let mut f = Flags::default();
    f.set(Flags::e_stop(), true);
    assert!(f.contains(Flags::e_stop()));
    f.set(Flags::e_stop(), false);
    assert!(!f.contains(Flags::e_stop()));
}

#[test]
fn flags_touch_only_their_bits() {
    let mut f = Flags(0b0010_1000);
    f.insert(Flags::e_stop());
    assert_eq!(f, Flags(0b0010_1001));
    f.remove(Flags::uart_overrun());
    assert_eq!(f, Flags(0b0000_1001));
    assert!(f.contains(Flags(0b1001)));
    assert!(!f.contains(Flags::critical_battery()));
    assert_eq!(Flags::watchdog_stale(), Flags(16));
}

#[test]
fn builds_and_parses() {
    let t = topic("car-01", Channel::Scan).unwrap();
    assert_eq!(t.as_str(), "olivaw/car-01/scan");
    assert_eq!(parse(&t), Some(("car-01", Channel::Scan)));
}

#[test]
fn rejects_foreign_topics() {
    assert_eq!(parse("other/car-01/scan"), None);
    assert_eq!(parse("olivaw//scan"), None);
    assert_eq!(parse("olivaw/car-01/nope"), None);
    assert_eq!(parse("olivaw/car-01/scan/extra"), None);
}

#[test]
fn overlong_car_id_is_refused() {
    let long = "x".repeat(60);
    assert!(topic(&long, Channel::Cmd).is_none());
}

#[test]
fn topic_length_limit_is_exact() {
    // "olivaw/" + id + "/" + "cmd" is 11 bytes plus the id.
    let fits = "y".repeat(37);
    assert_eq!(topic(&fits, Channel::Cmd).unwrap().len(), 48);
    let too_long = "y".repeat(38);
    assert!(topic(&too_long, Channel::Cmd).is_none());
    // Non-ASCII ids count in bytes.
    let t = topic("vélo", Channel::Telemetry).unwrap();
    assert_eq!(t.as_str(), "olivaw/vélo/telemetry");
    assert_eq!(parse(&t), Some(("vélo", Channel::Telemetry)));
    assert_eq!(parse("olivaw/a/status"), Some(("a", Channel::Status)));
    assert_eq!(parse("olivaw/a/cmd"), Some(("a", Channel::Cmd)));
    assert_eq!(parse("olivaw"), None);
}

#[test]
fn segments_round_trip() {
    for c in [Channel::Status, Channel::Telemetry, Channel::Scan, Channel::Cmd] {
        assert_eq!(Channel::from_segment(c.segment()), Some(c));
    }
    assert_eq!(Channel::Telemetry.segment(), "telemetry");
    assert_eq!(Channel::from_segment("Status"), None);
}

#[test]
fn valid_points_counts_returns() {
    let mut f = ScanFrame::default();
    assert_eq!(f.valid_points(), 0);
    for d in [0u16, 4000, 0, 12] {
        f.points.push(ScanPoint { angle_q6: 1, dist_q2: d, quality: 3 }).unwrap();
    }
    assert_eq!(f.valid_points(), 2);
    assert!(!ScanPoint::default().is_valid());
    assert!(ScanPoint { angle_q6: 0, dist_q2: 4, quality: 0 }.is_valid());
}

#[test]
fn encode_errors_map_a_full_buffer() {
    assert_eq!(
        ProtoError::from_encode_error(postcard::Error::SerializeBufferFull),
        ProtoError::BufferTooSmall
    );
    assert_eq!(
        ProtoError::from_encode_error(postcard::Error::SerializeSeqLengthUnknown),
        ProtoError::Postcard(postcard::Error::SerializeSeqLengthUnknown)
    );
    assert_eq!(
        ProtoError::from(postcard::Error::DeserializeUnexpectedEnd),
        ProtoError::Postcard(postcard::Error::DeserializeUnexpectedEnd)
    );
}

#[test]
fn topic_parse_round_trips_every_channel() {
    for c in [Channel::Status, Channel::Telemetry, Channel::Scan, Channel::Cmd] {
        let t = topic("rover-7", c).unwrap();
        assert_eq!(parse(&t), Some(("rover-7", c)));
    }
}

use olivaw::battery::divider::Divider;
use olivaw::battery::model::AdcModel;
use olivaw::battery::monitor::{BatteryMonitor, BatteryState, MonitorConfig};
use olivaw::board::error::BoardError;
use olivaw::car::config;
use olivaw::car::secrets::{lookup, value_or};
use olivaw::car::control::{dispatch, handle_command, CommandAction, Dispatch};
use olivaw::car::shared::{saturating_secs, set_link, wrapping_ms, CarState, DriveEvent};
use olivaw::car::tasks::{
    apply_drive_event, battery_tick, ble_connected, ble_disconnected, due, led_pattern,
    lidar_link_next, notify_plan, ping_every_s, record_drive, record_uart_overrun, route_write, LidarEvent, Uplink,
    WriteAction, WriteTarget,
};
use olivaw::drive::cmdvel::{DriveCommand, ParseError};
use olivaw::drive::controller::{DriveController, DriveOutput};
use olivaw::proto::control::Control;
use olivaw::proto::error::ProtoError;
use olivaw::proto::status::LinkState;
use olivaw::proto::telemetry::Flags;

#[test]
fn control_commands_reach_their_owner() {
    assert_eq!(dispatch(Control::EStop), Dispatch::Drive(DriveEvent::EStop));
    assert_eq!(dispatch(Control::Clear), Dispatch::Drive(DriveEvent::Clear));
    assert_eq!(dispatch(Control::SetMaxDuty(700)), Dispatch::Drive(DriveEvent::SetMaxDuty(700)));
    assert_eq!(dispatch(Control::LidarOn), Dispatch::Lidar(true));
    assert_eq!(dispatch(Control::LidarOff), Dispatch::Lidar(false));
    assert_eq!(dispatch(Control::UplinkOn), Dispatch::Uplink(true));
    assert_eq!(dispatch(Control::UplinkOff), Dispatch::Uplink(false));
}

#[test]
fn mqtt_payloads_are_drive_frames_or_control_frames() {
    assert_eq!(handle_command(b"100,-100"), CommandAction::Drive(DriveCommand { left: 100, right: -100 }));
    assert_eq!(handle_command(&[0x01]), CommandAction::Control(Control::EStop));
    assert_eq!(handle_command(&[0x30, 0x26, 0x02]), CommandAction::Control(Control::SetMaxDuty(550)));
    assert_eq!(handle_command(b"nope"), CommandAction::Unrecognised);
}

#[test]
fn snapshot_copies_the_state() {
    let mut s = CarState::new();
    assert_eq!(s.max_duty, 550);
    s.battery_mv = 11_000;
    s.left = -5;
    set_link(&mut s, LinkState::Up);
    let t = s.snapshot(42);
    assert_eq!(t.uptime_s, 42);
    assert_eq!(t.battery_mv, 11_000);
    assert_eq!(t.left, -5);
    assert_eq!(t.lidar, LinkState::Up);
    assert_eq!(t.max_duty_permille, 550);
}

#[test]
fn clock_conversions() {
    assert_eq!(wrapping_ms(u64::from(u32::MAX) + 5), 4);
    assert_eq!(wrapping_ms(1234), 1234);
    assert_eq!(saturating_secs(u64::MAX), u32::MAX);
    assert_eq!(saturating_secs(99), 99);
}

#[test]
fn battery_tick_reports_and_inhibits_on_critical() {
    let cfg = MonitorConfig { debounce_samples: 1, ..MonitorConfig::car_3s() };
    let mut monitor = BatteryMonitor::new(cfg);
    let mut last = BatteryState::Normal;
    let mut car = CarState::new();
    let model = AdcModel::esp32_11db_nominal();
    let divider = Divider::car_3s();
    // raw 2000 → 1517 mV at the pin → 8412 mV pack: critical at once.
    let ev = battery_tick(&mut monitor, &mut last, &mut car, 2000, &model, &divider, 3);
    assert_eq!(car.battery_mv, 8412);
    assert_eq!(car.battery_pct, 0);
    assert_eq!(car.battery_state, BatteryState::Critical);
    assert!(car.flags.contains(Flags::low_battery()) && car.flags.contains(Flags::critical_battery()));
    assert_eq!(ev, Some(DriveEvent::Inhibit(true)));
    // Same verdict again: no event.
    assert_eq!(battery_tick(&mut monitor, &mut last, &mut car, 2000, &model, &divider, 3), None);
}

#[test]
fn drive_events_and_recording() {
    let mut ctl = DriveController::new(config::drive());
    let mut car = CarState::new();
    apply_drive_event(&mut ctl, DriveEvent::EStop);
    let out = ctl.tick(1);
    assert_eq!(out, DriveOutput::Brake);
    record_drive(&mut car, out, &ctl);
    assert!(car.flags.contains(Flags::e_stop()));
    assert!(car.flags.contains(Flags::watchdog_stale()));
    apply_drive_event(&mut ctl, DriveEvent::Clear);
    apply_drive_event(&mut ctl, DriveEvent::SetMaxDuty(1000));
    ctl.feed(DriveCommand { left: 50, right: 50 }, 2);
    let out = ctl.tick(3);
    record_drive(&mut car, out, &ctl);
    assert_eq!((car.left, car.right, car.max_duty), (50, 50, 1000));
    assert!(!car.flags.contains(Flags::e_stop()));
    assert!(!car.flags.contains(Flags::watchdog_stale()));
    apply_drive_event(&mut ctl, DriveEvent::Inhibit(true));
    assert_eq!(ctl.tick(4), DriveOutput::Drive(DriveCommand { left: 0, right: 0 }));
    apply_drive_event(&mut ctl, DriveEvent::LinkLost);
    assert!(!ctl.is_stale());
    ctl.tick(5);
    assert!(ctl.is_stale());
}

#[test]
fn schedules_and_led() {
    assert!(due(25, 25) && !due(26, 25) && due(0, 0) && !due(3, 0));
    let p = notify_plan(24, 5, 25);
    assert_eq!((p.tick, p.read_rssi, p.notify_battery), (25, true, true));
    let p = notify_plan(u32::MAX, 5, 25);
    assert_eq!(p.tick, 0);
    let mut up = Uplink::new(true);
    let published: Vec<bool> = (0..5).map(|_| up.on_telemetry(None, 5)).collect();
    assert_eq!(published, [false, false, false, false, true]);
    assert!(!up.on_telemetry(Some(false), 1));
    assert!(!up.on_scan());
    assert_eq!(ping_every_s(30), 15);
    assert_eq!(ping_every_s(4), 5);
    assert_eq!(led_pattern(Flags(1)), (100, 100));
    assert_eq!(led_pattern(Flags(4 | 8)), (100, 100));
    assert_eq!(led_pattern(Flags(8)), (1000, 0));
    assert_eq!(led_pattern(Flags(0)), (100, 900));
}

#[test]
fn ble_writes_and_link_state() {
    assert_eq!(route_write(WriteTarget::Drive, b"1,2"), WriteAction::Drive(DriveCommand { left: 1, right: 2 }));
    assert_eq!(route_write(WriteTarget::Drive, b"1"), WriteAction::BadDrive(ParseError::Malformed));
    assert_eq!(route_write(WriteTarget::Control, &[0x10]), WriteAction::Control(Dispatch::Lidar(true)));
    assert_eq!(route_write(WriteTarget::Control, &[0x99]), WriteAction::BadControl(ProtoError::BadOpcode(0x99)));
    assert_eq!(route_write(WriteTarget::Other, b"1,2"), WriteAction::Ignore);
    let mut car = CarState::new();
    ble_connected(&mut car);
    car.rssi_dbm = -60;
    assert!(car.flags.contains(Flags::ble_connected()));
    assert_eq!(ble_disconnected(&mut car), DriveEvent::LinkLost);
    assert!(!car.flags.contains(Flags::ble_connected()));
    assert_eq!(car.rssi_dbm, 0);
    record_uart_overrun(&mut car);
    assert_eq!(car.uart_overruns, 1);
    assert!(car.flags.contains(Flags::uart_overrun()));
}

#[test]
fn board_error_messages() {
    assert!(BoardError::Pwm.message().contains("MOTOR_PWM_HZ"));
    assert!(BoardError::LidarUart.message().contains("LIDAR_BAUD"));
    assert_eq!(config::ble_address(), [0xC2, 0x01, 0x1A, 0xC0, 0xFF, 0xEE]);
}

#[test]
fn secrets_lines_are_trimmed_unquoted_and_first_wins() {
    let text = b"# comment\nWIFI_SSID = \"home\"\nWIFI_PASS=\"p=w\"\r\n  MQTT_HOST = 10.0.0.2  \nMQTT_HOST = other\n#MQTT_USER = x\n";
    assert_eq!(lookup(text, b"WIFI_SSID"), Some(&b"home"[..]));
    assert_eq!(lookup(text, b"WIFI_PASS"), Some(&b"p=w"[..]));
    assert_eq!(lookup(text, b"MQTT_HOST"), Some(&b"10.0.0.2"[..]));
    assert_eq!(lookup(text, b"MQTT_USER"), None);
    assert_eq!(lookup(text, b"MQTT_PORT"), None);
    assert_eq!(value_or(text, b"MQTT_PORT", b"1883"), b"1883");
    assert_eq!(value_or(text, b"WIFI_SSID", b""), b"home");
}

#[test]
fn secrets_edge_cases() {
    assert_eq!(lookup(b"", b"WIFI_SSID"), None);
    assert_eq!(lookup(b"WIFI_SSIDX = a", b"WIFI_SSID"), None);
    assert_eq!(lookup(b"  KEY  =  \"\"\"  ", b"KEY"), Some(&b""[..]));
    assert_eq!(lookup(b"KEY = \"a\" \"b\"", b"KEY"), Some(&b"a\" \"b"[..]));
    assert_eq!(lookup(b"KEY", b"KEY"), None);
    assert_eq!(lookup(b"\n\nKEY=\xe3\x80\x80v\xe3\x80\x80", b"KEY"), Some(&b"v"[..]));
    assert_eq!(lookup(b"KEY = last", b"KEY"), Some(&b"last"[..]));
}

#[test]
fn zero_debounce_acts_on_the_first_low_reading_only() {
    let cfg = MonitorConfig { debounce_samples: 0, ..MonitorConfig::car_3s() };
    let mut m = BatteryMonitor::new(cfg);
    assert_eq!(m.update(12_000), BatteryState::Normal);
    assert_eq!(m.update(10_500), BatteryState::Normal);
    assert_eq!(m.update(10_000), BatteryState::Low);
    let mut m = BatteryMonitor::new(cfg);
    assert_eq!(m.update(9_000), BatteryState::Critical);
}

#[test]
fn lidar_link_follows_the_task() {
    let s = lidar_link_next(LinkState::Up, LidarEvent::Idle);
    assert_eq!(s, LinkState::Off);
    let s = lidar_link_next(s, LidarEvent::Starting);
    assert_eq!(s, LinkState::Starting);
    assert_eq!(lidar_link_next(s, LidarEvent::ScanSent(false)), LinkState::Fault);
    let s = lidar_link_next(s, LidarEvent::ScanSent(true));
    assert_eq!(s, LinkState::Starting);
    assert_eq!(lidar_link_next(s, LidarEvent::Read(false)), LinkState::Starting);
    assert_eq!(lidar_link_next(s, LidarEvent::Read(true)), LinkState::Up);
}

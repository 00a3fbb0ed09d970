//! Every tunable number in the firmware, named and documented.
use vstd::prelude::*;
use crate::battery::divider::Divider;
use crate::battery::model::AdcModel;
use crate::battery::monitor::MonitorConfig;
use crate::drive::controller::DriveConfig;

verus! {

/// Identifier used in MQTT topics (`olivaw/<CAR_ID>/…`) and as MQTT client id.
pub const CAR_ID: &'static str = "car-01";
/// BLE advertised name. The app filters on this.
pub const BLE_NAME: &'static str = "OLIVAW-CAR";
/// Drive loop period, milliseconds (50 Hz).
pub const DRIVE_TICK_MS: u64 = 20;
/// Battery sampling period, milliseconds (2 Hz).
pub const BATTERY_PERIOD_MS: u64 = 500;
/// ADC samples averaged per reading.
pub const BATTERY_SAMPLES: usize = 8;
/// Series cells in the pack.
pub const BATTERY_CELLS: u8 = 3;
/// Telemetry snapshot period, milliseconds (5 Hz → BLE notify rate).
pub const TELEMETRY_PERIOD_MS: u64 = 200;
/// Battery Level (0x2A19) notify period, in telemetry ticks (every 5 s).
pub const BATTERY_LEVEL_EVERY_TICKS: u32 = 25;
/// RSSI read period, in telemetry ticks (every 1 s).
pub const RSSI_EVERY_TICKS: u32 = 5;
/// MQTT telemetry publish period, in telemetry ticks (1 Hz).
pub const MQTT_TELEMETRY_EVERY_TICKS: u32 = 5;
/// MQTT keep-alive, seconds.
pub const MQTT_KEEP_ALIVE_S: u16 = 30;
/// Reconnect back-off after a network failure, seconds.
pub const NET_RETRY_S: u64 = 5;

/// Static random BLE address (top two bits set). Change per car.
pub fn ble_address() -> (a: [u8; 6])
    ensures
        a@ == seq![0xC2u8, 0x01, 0x1A, 0xC0, 0xFF, 0xEE],
{
    let a = [0xC2u8, 0x01, 0x1A, 0xC0, 0xFF, 0xEE];
    assert(a@ =~= seq![0xC2u8, 0x01, 0x1A, 0xC0, 0xFF, 0xEE]);
    a
}

/// Drive pipeline: 500 ms watchdog, 55 % duty cap for 6 V TT motors on a
/// 3S pack through an L298N, ramp of 60 ‰ per tick (0 → full in ~0.35 s).
pub fn drive() -> (c: DriveConfig)
    ensures
        c == (DriveConfig { watchdog_ms: 500, max_duty_permille: 550, slew_step_permille: 60 }),
{
    DriveConfig { watchdog_ms: 500, max_duty_permille: 550, slew_step_permille: 60 }
}

/// The divider on the board.
pub fn battery_divider() -> (d: Divider)
    ensures
        d == (Divider { r_top_ohm: 100_000, r_bottom_ohm: 22_000 }),
{
    Divider::car_3s()
}

/// Raw-code → millivolt model. Calibrate with a multimeter and replace.
pub fn battery_adc_model() -> (m: AdcModel)
    ensures
        m == (AdcModel { raw_lo: 190, mv_lo: 150, raw_hi: 4095, mv_hi: 3100 }),
{
    AdcModel::esp32_11db_nominal()
}

/// Low / critical thresholds and hysteresis.
pub fn battery_monitor() -> (c: MonitorConfig)
    ensures
        c == (MonitorConfig { warn_mv: 10_500, critical_mv: 9_900, hysteresis_mv: 300, debounce_samples: 4 }),
        c.recovery_fits(),
{
    MonitorConfig::car_3s()
}

} // verus!

//! The state every task reports into, and the events the drive task takes.
use vstd::prelude::*;
use crate::battery::monitor::BatteryState;
use crate::drive::cmdvel::DriveCommand;
use crate::proto::status::LinkState;
use crate::proto::telemetry::{Flags, Telemetry};

verus! {

/// Things that change how the drive task behaves.
#[derive(Debug, Clone, Copy, PartialEq, Eq, Structural)]
pub enum DriveEvent {
    /// Brake and latch.
    EStop,
    /// Release the latch.
    Clear,
    /// New duty cap, per-mille.
    SetMaxDuty(u16),
    /// The control link dropped: forget the last command now.
    LinkLost,
    /// Inhibit driving (critical battery) or release the inhibit.
    Inhibit(bool),
}

/// What every task reports into; the telemetry task snapshots it.
#[derive(Debug, Clone, Copy, PartialEq, Eq, Structural)]
pub struct CarState {
    /// Pack voltage, millivolts.
    pub battery_mv: u16,
    /// State of charge, percent.
    pub battery_pct: u8,
    /// Battery health verdict.
    pub battery_state: BatteryState,
    /// Commanded left duty after the governor, per-mille.
    pub left: i16,
    /// Commanded right duty after the governor, per-mille.
    pub right: i16,
    /// Duty cap in force, per-mille.
    pub max_duty: u16,
    /// Status bits.
    pub flags: Flags,
    /// Last BLE RSSI, dBm (0 = unknown).
    pub rssi_dbm: i8,
    /// Lidar link state.
    pub lidar: LinkState,
    /// Wi-Fi link state.
    pub wifi: LinkState,
    /// MQTT link state.
    pub mqtt: LinkState,
    /// Lidar UART FIFO overruns since boot.
    pub uart_overruns: u32,
}

/// The telemetry frame of a state at `uptime_s`.
pub open spec fn snapshot_of(s: CarState, uptime_s: u32) -> Telemetry {
    Telemetry {
        flags: s.flags,
        battery_mv: s.battery_mv,
        battery_pct: s.battery_pct,
        left: s.left,
        right: s.right,
        uptime_s,
        rssi_dbm: s.rssi_dbm,
        lidar: s.lidar,
        wifi: s.wifi,
        mqtt: s.mqtt,
        max_duty_permille: s.max_duty,
    }
}

impl CarState {
    /// Boot state: everything off, unknown battery, the configured duty cap.
    pub fn new() -> (s: CarState)
        ensures
            s == (CarState {
                battery_mv: 0,
                battery_pct: 0,
                battery_state: BatteryState::Normal,
                left: 0,
                right: 0,
                max_duty: 550,
                flags: Flags(0),
                rssi_dbm: 0,
                lidar: LinkState::Off,
                wifi: LinkState::Off,
                mqtt: LinkState::Off,
                uart_overruns: 0,
            }),
    {
        CarState {
            battery_mv: 0,
            battery_pct: 0,
            battery_state: BatteryState::Normal,
            left: 0,
            right: 0,
            max_duty: crate::car::config::drive().max_duty_permille,
            flags: Flags(0),
            rssi_dbm: 0,
            lidar: LinkState::Off,
            wifi: LinkState::Off,
            mqtt: LinkState::Off,
            uart_overruns: 0,
        }
    }

    /// Build the wire telemetry frame.
    pub fn snapshot(&self, uptime_s: u32) -> (t: Telemetry)
        ensures
            t == snapshot_of(*self, uptime_s),
            t.flags == self.flags,
            t.battery_mv == self.battery_mv,
            t.battery_pct == self.battery_pct,
            t.left == self.left,
            t.right == self.right,
            t.uptime_s == uptime_s,
            t.rssi_dbm == self.rssi_dbm,
            t.lidar == self.lidar,
            t.wifi == self.wifi,
            t.mqtt == self.mqtt,
            t.max_duty_permille == self.max_duty,
    {
        Telemetry {
            flags: self.flags,
            battery_mv: self.battery_mv,
            battery_pct: self.battery_pct,
            left: self.left,
            right: self.right,
            uptime_s,
            rssi_dbm: self.rssi_dbm,
            lidar: self.lidar,
            wifi: self.wifi,
            mqtt: self.mqtt,
            max_duty_permille: self.max_duty,
        }
    }
}

/// Record the lidar link state.
pub fn set_link(car: &mut CarState, state: LinkState)
    ensures
        *final(car) == (CarState { lidar: state, ..*old(car) }),
{
    car.lidar = state;
}

/// Milliseconds since boot on the wrapping 32-bit clock the drive watchdog
/// expects: the low 32 bits of the 64-bit millisecond count.
pub fn wrapping_ms(millis: u64) -> (ms: u32)
    ensures
        ms == millis % 0x1_0000_0000,
{
    (millis % 0x1_0000_0000) as u32
}

/// Seconds since boot, saturating at `u32::MAX`.
pub fn saturating_secs(secs: u64) -> (s: u32)
    ensures
        s == if secs > u32::MAX { u32::MAX as int } else { secs as int },
{
    if secs > u32::MAX as u64 {
        u32::MAX
    } else {
        secs as u32
    }
}

/// A snapshot reports every field of the state it is taken of, each in its
/// own place, and the uptime it is given: two states with different
/// readings never give the same frame at the same uptime.
pub proof fn lemma_snapshot_reports_the_state(s: CarState, uptime_s: u32)
    ensures
        snapshot_of(s, uptime_s).flags == s.flags,
        snapshot_of(s, uptime_s).battery_mv == s.battery_mv,
        snapshot_of(s, uptime_s).battery_pct == s.battery_pct,
        snapshot_of(s, uptime_s).left == s.left,
        snapshot_of(s, uptime_s).right == s.right,
        snapshot_of(s, uptime_s).uptime_s == uptime_s,
        snapshot_of(s, uptime_s).rssi_dbm == s.rssi_dbm,
        snapshot_of(s, uptime_s).lidar == s.lidar,
        snapshot_of(s, uptime_s).wifi == s.wifi,
        snapshot_of(s, uptime_s).mqtt == s.mqtt,
        snapshot_of(s, uptime_s).max_duty_permille == s.max_duty,
{
}

} // verus!

//! What each periodic task decides from what it observed. The task loops
//! (timers, radios, queues) call these and carry out the result.
use vstd::prelude::*;
use crate::battery::curve::{pack_percent, pack_percent_spec};
use crate::battery::divider::Divider;
use crate::battery::model::AdcModel;
use crate::battery::monitor::{BatteryMonitor, BatteryState, monitor_step, update_fits};
use crate::car::control::{CommandAction, Dispatch, dispatch, dispatch_spec};
use crate::car::shared::{CarState, DriveEvent};
use crate::drive::cmdvel::{DriveCommand, ParseError, parse_frame, parse_frame_spec};
use crate::drive::controller::{
    ControllerModel, DriveController, DriveOutput, controller_wf, output_command,
};
use crate::drive::governor::clamp_cap;
use crate::drive::cmdvel::{WatchdogModel, stopped};
use crate::drive::slew::SlewModel;
use crate::proto::control::{Control, decode_spec};
use crate::proto::error::ProtoError;
use crate::proto::status::LinkState;
use crate::proto::telemetry::{Flags, flags_with, flags_without};

verus! {

// ---------------------------------------------------------------- battery

/// The flags a battery verdict sets: `LOW_BATTERY` when low or critical,
/// `CRITICAL_BATTERY` when critical; the other bits unchanged.
pub open spec fn battery_flags(f: Flags, state: BatteryState) -> Flags {
    let low = state == BatteryState::Low || state == BatteryState::Critical;
    let f1 = if low { flags_with(f, Flags(2)) } else { flags_without(f, Flags(2)) };
    if state == BatteryState::Critical { flags_with(f1, Flags(4)) } else { flags_without(f1, Flags(4)) }
}

/// One battery sample: raw ADC mean → pin mV → pack mV → percent → verdict.
/// Updates the shared state and returns the inhibit event to send when the
/// verdict changed (inhibit exactly when it became critical).
pub fn battery_tick(
    monitor: &mut BatteryMonitor,
    last_state: &mut BatteryState,
    car: &mut CarState,
    raw: u16,
    model: &AdcModel,
    divider: &Divider,
    cells: u8,
) -> (event: Option<DriveEvent>)
    requires
        update_fits(
            old(monitor)@,
            divider.pack_mv_spec(model.pin_mv_spec(raw as int) as int) as int,
        ),
        model.pin_mv_spec(raw as int) * (divider.r_top_ohm + divider.r_bottom_ohm) <= u64::MAX,
    ensures
        ({
            let pin = model.pin_mv_spec(raw as int);
            let pack = divider.pack_mv_spec(pin as int);
            let pct = pack_percent_spec(pack as int, cells as int);
            let next = monitor_step(old(monitor)@, pack as int);
            &&& final(monitor)@ == next
            &&& *final(car) == (CarState {
                battery_mv: (if pack > u16::MAX { u16::MAX as int } else { pack as int }) as u16,
                battery_pct: pct as u8,
                battery_state: next.state,
                flags: battery_flags(old(car).flags, next.state),
                ..*old(car)
            })
            &&& *final(last_state) == next.state
            &&& event == if next.state != *old(last_state) {
                Some(DriveEvent::Inhibit(next.state == BatteryState::Critical))
            } else {
                None::<DriveEvent>
            }
        }),
{
    let pin_mv = model.pin_mv(raw);
    let pack_mv = divider.pack_mv(pin_mv);
    let pct = pack_percent(pack_mv, cells);
    let state = monitor.update(pack_mv);
    car.battery_mv = if pack_mv > u16::MAX as u32 { u16::MAX } else { pack_mv as u16 };
    car.battery_pct = pct;
    car.battery_state = state;
    let low = state == BatteryState::Low || state == BatteryState::Critical;
    car.flags.set(Flags::low_battery(), low);
    car.flags.set(Flags::critical_battery(), state == BatteryState::Critical);
    if state != *last_state {
        *last_state = state;
        Some(DriveEvent::Inhibit(state == BatteryState::Critical))
    } else {
        None
    }
}

// ---------------------------------------------------------------- drive

/// The controller after one event from the queue.
pub open spec fn drive_event_next(c: ControllerModel, ev: DriveEvent) -> ControllerModel {
    match ev {
        DriveEvent::EStop => ControllerModel {
            watchdog: WatchdogModel { target: stopped(), last_feed_ms: None, ..c.watchdog },
            last_feed_ms: None,
            estop: true,
            slew: SlewModel { current: stopped(), ..c.slew },
            ..c
        },
        DriveEvent::Clear => ControllerModel { estop: false, ..c },
        DriveEvent::SetMaxDuty(p) => ControllerModel { cap: clamp_cap(p as int) as u16, ..c },
        DriveEvent::LinkLost => ControllerModel {
            watchdog: WatchdogModel { target: stopped(), last_feed_ms: None, ..c.watchdog },
            last_feed_ms: None,
            ..c
        },
        DriveEvent::Inhibit(on) => ControllerModel { inhibited: on, ..c },
    }
}

/// Apply one queued event to the drive controller.
pub fn apply_drive_event(ctl: &mut DriveController, ev: DriveEvent)
    requires
        controller_wf(old(ctl)@),
    ensures
        final(ctl)@ == drive_event_next(old(ctl)@, ev),
        controller_wf(final(ctl)@),
{
    match ev {
        DriveEvent::EStop => ctl.estop(),
        DriveEvent::Clear => ctl.clear(),
        DriveEvent::SetMaxDuty(permille) => ctl.set_max_duty(permille),
        DriveEvent::LinkLost => ctl.link_lost(),
        DriveEvent::Inhibit(on) => ctl.set_inhibited(on),
    }
}

/// Report one drive tick into the shared state: the commanded speeds (zeros
/// when braking), the cap, and the E-stop and stale-link flags.
pub fn record_drive(car: &mut CarState, out: DriveOutput, ctl: &DriveController)
    ensures
        *final(car) == (CarState {
            left: output_command(out).left,
            right: output_command(out).right,
            max_duty: ctl@.cap,
            flags: {
                let f1 = if ctl@.estop { flags_with(old(car).flags, Flags(1)) } else { flags_without(old(car).flags, Flags(1)) };
                if ctl@.stale { flags_with(f1, Flags(16)) } else { flags_without(f1, Flags(16)) }
            },
            ..*old(car)
        }),
{
    let cmd = out.command();
    car.left = cmd.left;
    car.right = cmd.right;
    car.max_duty = ctl.max_duty();
    car.flags.set(Flags::e_stop(), ctl.is_estopped());
    car.flags.set(Flags::watchdog_stale(), ctl.is_stale());
}

// ---------------------------------------------------------------- schedules

/// `true` on the ticks that are a multiple of `period` (every tick when the
/// period is zero only at tick zero, as `u32::is_multiple_of` does).
pub open spec fn due_spec(tick: u32, period: u32) -> bool {
    if period == 0 { tick == 0 } else { tick % period == 0 }
}

/// `true` when `tick` is a multiple of `period`.
pub fn due(tick: u32, period: u32) -> (b: bool)
    ensures
        b == due_spec(tick, period),
{
    tick.is_multiple_of(period)
}

/// What the BLE notify loop does on one telemetry tick.
#[derive(Debug, Clone, Copy, PartialEq, Eq, Structural)]
pub struct NotifyPlan {
    /// The tick counter after this tick (wrapping).
    pub tick: u32,
    /// Read the connection's RSSI into the shared state first.
    pub read_rssi: bool,
    /// Notify the Battery Level characteristic after the telemetry frame.
    pub notify_battery: bool,
}

/// Plan one notify tick after `tick` ticks: advance the counter, read the
/// RSSI every `rssi_every` ticks, notify the battery level every
/// `battery_every` ticks.
pub fn notify_plan(tick: u32, rssi_every: u32, battery_every: u32) -> (p: NotifyPlan)
    ensures
        p.tick == (if tick == u32::MAX { 0 } else { tick + 1 }),
        p.read_rssi == due_spec(p.tick, rssi_every),
        p.notify_battery == due_spec(p.tick, battery_every),
{
    let t = tick.wrapping_add(1);
    NotifyPlan { tick: t, read_rssi: due(t, rssi_every), notify_battery: due(t, battery_every) }
}

/// The MQTT publisher's state: whether publishing is on, and the telemetry
/// tick counter.
#[derive(Debug, Clone, Copy, PartialEq, Eq, Structural)]
pub struct Uplink {
    /// Publishing on (initially) or paused.
    pub publishing: bool,
    /// Telemetry ticks seen in this session (wrapping).
    pub ticks: u32,
}

impl Uplink {
    /// A fresh session's counter with the given publishing switch.
    pub fn new(publishing: bool) -> (u: Uplink)
        ensures
            u == (Uplink { publishing, ticks: 0 }),
    {
        Uplink { publishing, ticks: 0 }
    }

    /// A telemetry snapshot arrived: apply a pending on/off request, advance
    /// the counter, and say whether to publish it (publishing, and every
    /// `every` ticks).
    pub fn on_telemetry(&mut self, request: Option<bool>, every: u32) -> (publish: bool)
        ensures
            final(self).publishing == match request {
                Some(on) => on,
                None => old(self).publishing,
            },
            final(self).ticks == (if old(self).ticks == u32::MAX { 0 } else { old(self).ticks + 1 }),
            publish == (final(self).publishing && due_spec(final(self).ticks, every)),
    {
        if let Some(on) = request {
            self.publishing = on;
        }
        self.ticks = self.ticks.wrapping_add(1);
        self.publishing && due(self.ticks, every)
    }

    /// A lidar rotation arrived: publish it while publishing is on.
    pub fn on_scan(&self) -> (publish: bool)
        ensures
            publish == self.publishing,
    {
        self.publishing
    }
}

/// MQTT ping period, seconds: half the keep-alive, at least 5 s.
pub fn ping_every_s(keep_alive_s: u16) -> (s: u64)
    ensures
        s == if keep_alive_s / 2 > 5 { (keep_alive_s / 2) as int } else { 5 },
{
    let half = (keep_alive_s / 2) as u64;
    if half > 5 {
        half
    } else {
        5
    }
}

// ---------------------------------------------------------------- status LED

/// The LED's on and off times, milliseconds: fast blink on a fault (E-stop
/// or critical battery), solid while a phone is connected, slow blink while
/// advertising.
pub open spec fn led_pattern_spec(f: Flags) -> (u64, u64) {
    if f.0 & 1 == 1 || f.0 & 4 == 4 {
        (100, 100)
    } else if f.0 & 8 == 8 {
        (1000, 0)
    } else {
        (100, 900)
    }
}

/// The status LED's blink pattern for the current flags.
pub fn led_pattern(flags: Flags) -> (p: (u64, u64))
    ensures
        p == led_pattern_spec(flags),
{
    let fault = flags.contains(Flags::e_stop()) || flags.contains(Flags::critical_battery());
    if fault {
        (100, 100)
    } else if flags.contains(Flags::ble_connected()) {
        (1000, 0)
    } else {
        (100, 900)
    }
}

// ---------------------------------------------------------------- BLE

/// Which characteristic a GATT write targeted.
#[derive(Debug, Clone, Copy, PartialEq, Eq, Structural)]
pub enum WriteTarget {
    /// The drive characteristic.
    Drive,
    /// The control characteristic.
    Control,
    /// Any other handle.
    Other,
}

/// What a GATT write asks for.
#[derive(Debug, Clone, PartialEq, Eq)]
pub enum WriteAction {
    /// A valid drive frame: signal it to the drive task.
    Drive(DriveCommand),
    /// A drive frame that was refused.
    BadDrive(ParseError),
    /// A valid control command, routed.
    Control(Dispatch),
    /// A control frame that was refused.
    BadControl(ProtoError),
    /// A write to another handle: nothing to do.
    Ignore,
}

/// The action for a write of `data` to `target`.
pub open spec fn write_action_spec(target: WriteTarget, data: Seq<u8>) -> WriteAction {
    match target {
        WriteTarget::Drive => match parse_frame_spec(data) {
            Ok(cmd) => WriteAction::Drive(cmd),
            Err(e) => WriteAction::BadDrive(e),
        },
        WriteTarget::Control => match decode_spec(data) {
            Ok(c) => WriteAction::Control(dispatch_spec(c)),
            Err(e) => WriteAction::BadControl(e),
        },
        WriteTarget::Other => WriteAction::Ignore,
    }
}

/// Handle one GATT write: drive frames are parsed, control frames decoded
/// and routed, anything else ignored.
pub fn route_write(target: WriteTarget, data: &[u8]) -> (a: WriteAction)
    ensures
        a == write_action_spec(target, data@),
{
    match target {
        WriteTarget::Drive => match parse_frame(data) {
            Ok(cmd) => WriteAction::Drive(cmd),
            Err(e) => WriteAction::BadDrive(e),
        },
        WriteTarget::Control => match Control::decode(data) {
            Ok(c) => WriteAction::Control(dispatch(c)),
            Err(e) => WriteAction::BadControl(e),
        },
        WriteTarget::Other => WriteAction::Ignore,
    }
}

/// A central connected: raise `BLE_CONNECTED`.
pub fn ble_connected(car: &mut CarState)
    ensures
        *final(car) == (CarState { flags: flags_with(old(car).flags, Flags(8)), ..*old(car) }),
{
    car.flags.insert(Flags::ble_connected());
}

/// The central disconnected: clear `BLE_CONNECTED`, forget the RSSI, and
/// tell the drive task the link is lost.
pub fn ble_disconnected(car: &mut CarState) -> (ev: DriveEvent)
    ensures
        *final(car) == (CarState { flags: flags_without(old(car).flags, Flags(8)), rssi_dbm: 0, ..*old(car) }),
        ev == DriveEvent::LinkLost,
{
    car.flags.remove(Flags::ble_connected());
    car.rssi_dbm = 0;
    DriveEvent::LinkLost
}

// ---------------------------------------------------------------- lidar

/// The lidar UART reported a FIFO overrun: count it (saturating) and raise
/// `UART_OVERRUN`.
pub fn record_uart_overrun(car: &mut CarState)
    ensures
        *final(car) == (CarState {
            uart_overruns: (if old(car).uart_overruns == u32::MAX { u32::MAX as int } else { old(car).uart_overruns + 1 }) as u32,
            flags: flags_with(old(car).flags, Flags(32)),
            ..*old(car)
        }),
{
    car.uart_overruns = car.uart_overruns.saturating_add(1);
    car.flags.insert(Flags::uart_overrun());
}

/// The lidar link is up once the pump is streaming.
pub fn lidar_link_after_read(streaming: bool, current: LinkState) -> (s: LinkState)
    ensures
        s == if streaming { LinkState::Up } else { current },
{
    if streaming {
        LinkState::Up
    } else {
        current
    }
}

/// What the lidar task went through, as far as its link state goes.
#[derive(Debug, Clone, Copy, PartialEq, Eq, Structural)]
pub enum LidarEvent {
    /// Waiting for an on request (the task is idle).
    Idle,
    /// An on request arrived; the SCAN request is about to be sent.
    Starting,
    /// The SCAN request was written (`true`) or the write failed (`false`).
    ScanSent(bool),
    /// A chunk was read; `true` once the pump is streaming nodes.
    Read(bool),
}

/// The lidar link state after an event: off while idle, starting on a
/// request, a fault when the SCAN request cannot be sent, up once nodes
/// stream, otherwise unchanged.
pub open spec fn lidar_link_spec(current: LinkState, ev: LidarEvent) -> LinkState {
    match ev {
        LidarEvent::Idle => LinkState::Off,
        LidarEvent::Starting => LinkState::Starting,
        LidarEvent::ScanSent(ok) => if ok { current } else { LinkState::Fault },
        LidarEvent::Read(streaming) => if streaming { LinkState::Up } else { current },
    }
}

/// The lidar link state after one event of the lidar task.
pub fn lidar_link_next(current: LinkState, ev: LidarEvent) -> (s: LinkState)
    ensures
        s == lidar_link_spec(current, ev),
{
    match ev {
        LidarEvent::Idle => LinkState::Off,
        LidarEvent::Starting => LinkState::Starting,
        LidarEvent::ScanSent(ok) => if ok { current } else { LinkState::Fault },
        LidarEvent::Read(streaming) => lidar_link_after_read(streaming, current),
    }
}

} // verus!

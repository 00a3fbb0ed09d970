//! Routes decoded control commands and MQTT `cmd` payloads to the task that
//! owns them.
use vstd::prelude::*;
use crate::car::shared::DriveEvent;
use crate::drive::cmdvel::{DriveCommand, ParseError, parse_frame, parse_frame_spec};
use crate::proto::control::{Control, decode_spec};
use crate::proto::error::ProtoError;

verus! {

/// Where a control command goes.
#[derive(Debug, Clone, Copy, PartialEq, Eq, Structural)]
pub enum Dispatch {
    /// An event for the drive task's queue.
    Drive(DriveEvent),
    /// A lidar on/off request.
    Lidar(bool),
    /// An uplink publish on/off request.
    Uplink(bool),
}

/// The route of each command.
pub open spec fn dispatch_spec(cmd: Control) -> Dispatch {
    match cmd {
        Control::EStop => Dispatch::Drive(DriveEvent::EStop),
        Control::Clear => Dispatch::Drive(DriveEvent::Clear),
        Control::SetMaxDuty(p) => Dispatch::Drive(DriveEvent::SetMaxDuty(p)),
        Control::LidarOn => Dispatch::Lidar(true),
        Control::LidarOff => Dispatch::Lidar(false),
        Control::UplinkOn => Dispatch::Uplink(true),
        Control::UplinkOff => Dispatch::Uplink(false),
    }
}

/// Route one control command: drive-related ones become drive events,
/// lidar and uplink ones become on/off requests.
pub fn dispatch(cmd: Control) -> (d: Dispatch)
    ensures
        d == dispatch_spec(cmd),
{
    match cmd {
        Control::EStop => Dispatch::Drive(DriveEvent::EStop),
        Control::Clear => Dispatch::Drive(DriveEvent::Clear),
        Control::SetMaxDuty(permille) => Dispatch::Drive(DriveEvent::SetMaxDuty(permille)),
        Control::LidarOn => Dispatch::Lidar(true),
        Control::LidarOff => Dispatch::Lidar(false),
        Control::UplinkOn => Dispatch::Uplink(true),
        Control::UplinkOff => Dispatch::Uplink(false),
    }
}

/// What an MQTT `cmd` payload asks for.
#[derive(Debug, Clone, Copy, PartialEq, Eq, Structural)]
pub enum CommandAction {
    /// A drive frame: signal it to the drive task.
    Drive(DriveCommand),
    /// A control opcode frame: dispatch it.
    Control(Control),
    /// Neither: log and ignore.
    Unrecognised,
}

/// A payload that parses as a drive frame is one; otherwise one that decodes
/// as a control command is one; otherwise it is unrecognised.
pub open spec fn command_action_spec(payload: Seq<u8>) -> CommandAction {
    match parse_frame_spec(payload) {
        Ok(cmd) => CommandAction::Drive(cmd),
        Err(_) => match decode_spec(payload) {
            Ok(c) => CommandAction::Control(c),
            Err(_) => CommandAction::Unrecognised,
        },
    }
}

/// `cmd` payloads are either a drive frame or a control opcode frame.
pub fn handle_command(payload: &[u8]) -> (a: CommandAction)
    ensures
        a == command_action_spec(payload@),
{
    match parse_frame(payload) {
        Ok(cmd) => CommandAction::Drive(cmd),
        Err(_) => match Control::decode(payload) {
            Ok(c) => CommandAction::Control(c),
            Err(_) => CommandAction::Unrecognised,
        },
    }
}

/// Every command reaches exactly the owner it names: E-stop, clear and the
/// duty cap go to the drive task, lidar and uplink switches to theirs.
pub proof fn lemma_dispatch_routes(cmd: Control)
    ensures
        (dispatch_spec(cmd) is Drive) <==> (cmd == Control::EStop || cmd == Control::Clear
            || cmd is SetMaxDuty),
        dispatch_spec(cmd) == Dispatch::Lidar(true) <==> cmd == Control::LidarOn,
        dispatch_spec(cmd) == Dispatch::Lidar(false) <==> cmd == Control::LidarOff,
        dispatch_spec(cmd) == Dispatch::Uplink(true) <==> cmd == Control::UplinkOn,
        dispatch_spec(cmd) == Dispatch::Uplink(false) <==> cmd == Control::UplinkOff,
{
}

/// A `cmd` payload that is a valid drive frame is always that drive command,
/// even when its bytes would also decode as a control opcode frame; control
/// decoding decides only payloads that are not drive frames.
pub proof fn lemma_drive_frames_come_first(payload: Seq<u8>)
    ensures
        parse_frame_spec(payload) matches Ok(cmd) ==> command_action_spec(payload)
            == CommandAction::Drive(cmd),
        parse_frame_spec(payload) is Err ==> (command_action_spec(payload) is Drive) == false,
        parse_frame_spec(payload) is Err ==> (decode_spec(payload) matches Ok(c) ==> command_action_spec(
            payload,
        ) == CommandAction::Control(c)),
        parse_frame_spec(payload) is Err && decode_spec(payload) is Err ==> command_action_spec(payload)
            == CommandAction::Unrecognised,
{
}

} // verus!

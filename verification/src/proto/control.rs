//! Control opcodes written by the phone to the car's control characteristic.
//!
//! Every command is one opcode byte followed by an optional little-endian
//! payload. Unknown opcodes are rejected, never ignored.
use vstd::prelude::*;
use crate::proto::error::ProtoError;

verus! {

/// Longest encoded control command, bytes.
pub const CONTROL_MAX_LEN: usize = 3;

/// A control command.
#[derive(Debug, Clone, Copy, PartialEq, Eq, Structural)]
#[non_exhaustive]
pub enum Control {
    /// Brake now and latch: drive commands are ignored until [`Control::Clear`].
    EStop,
    /// Release the E-stop latch.
    Clear,
    /// Start the lidar scan (motor + data stream).
    LidarOn,
    /// Stop the lidar.
    LidarOff,
    /// Bring up Wi-Fi + MQTT.
    UplinkOn,
    /// Tear down Wi-Fi + MQTT (BLE keeps working).
    UplinkOff,
    /// Change the duty cap, per-mille `0..=1000` (clamped by the firmware).
    SetMaxDuty(u16),
}

/// Opcode: emergency stop.
pub const OP_ESTOP: u8 = 0x01;
/// Opcode: release the E-stop latch.
pub const OP_CLEAR: u8 = 0x02;
/// Opcode: lidar on.
pub const OP_LIDAR_ON: u8 = 0x10;
/// Opcode: lidar off.
pub const OP_LIDAR_OFF: u8 = 0x11;
/// Opcode: uplink on.
pub const OP_UPLINK_ON: u8 = 0x20;
/// Opcode: uplink off.
pub const OP_UPLINK_OFF: u8 = 0x21;
/// Opcode: set the duty cap (u16 little-endian payload).
pub const OP_SET_MAX_DUTY: u8 = 0x30;

/// The bytes that encode `c`.
pub open spec fn control_bytes(c: Control) -> Seq<u8> {
    match c {
        Control::EStop => seq![OP_ESTOP],
        Control::Clear => seq![OP_CLEAR],
        Control::LidarOn => seq![OP_LIDAR_ON],
        Control::LidarOff => seq![OP_LIDAR_OFF],
        Control::UplinkOn => seq![OP_UPLINK_ON],
        Control::UplinkOff => seq![OP_UPLINK_OFF],
        Control::SetMaxDuty(p) => seq![OP_SET_MAX_DUTY, (p % 256) as u8, (p / 256) as u8],
    }
}

/// What `decode` makes of `bytes`.
pub open spec fn decode_spec(bytes: Seq<u8>) -> Result<Control, ProtoError> {
    if bytes.len() == 0 {
        Err(ProtoError::TooShort { got: 0, needed: 1 })
    } else {
        let op = bytes[0];
        if op == OP_ESTOP {
            Ok(Control::EStop)
        } else if op == OP_CLEAR {
            Ok(Control::Clear)
        } else if op == OP_LIDAR_ON {
            Ok(Control::LidarOn)
        } else if op == OP_LIDAR_OFF {
            Ok(Control::LidarOff)
        } else if op == OP_UPLINK_ON {
            Ok(Control::UplinkOn)
        } else if op == OP_UPLINK_OFF {
            Ok(Control::UplinkOff)
        } else if op == OP_SET_MAX_DUTY {
            if bytes.len() >= 3 {
                Ok(Control::SetMaxDuty((bytes[1] + bytes[2] * 256) as u16))
            } else {
                Err(ProtoError::TooShort { got: bytes.len() as usize, needed: 3 })
            }
        } else {
            Err(ProtoError::BadOpcode(op))
        }
    }
}

impl Control {
    /// Encode into `out`; returns the number of bytes used.
    pub fn encode(self, out: &mut [u8; CONTROL_MAX_LEN]) -> (n: usize)
        ensures
            n == control_bytes(self).len(),
            final(out)@.take(n as int) == control_bytes(self),
            final(out)@.skip(n as int) == old(out)@.skip(n as int),
    {
        let n: usize = match self {
            Control::EStop => {
                out[0] = OP_ESTOP;
                1
            },
            Control::Clear => {
                out[0] = OP_CLEAR;
                1
            },
            Control::LidarOn => {
                out[0] = OP_LIDAR_ON;
                1
            },
            Control::LidarOff => {
                out[0] = OP_LIDAR_OFF;
                1
            },
            Control::UplinkOn => {
                out[0] = OP_UPLINK_ON;
                1
            },
            Control::UplinkOff => {
                out[0] = OP_UPLINK_OFF;
                1
            },
            Control::SetMaxDuty(permille) => {
                out[0] = OP_SET_MAX_DUTY;
                out[1] = (permille % 256) as u8;
                out[2] = (permille / 256) as u8;
                3
            },
        };
        assert(out@.take(n as int) =~= control_bytes(self));
        assert(out@.skip(n as int) =~= old(out)@.skip(n as int));
        n
    }

    /// Decode one command from `bytes`.
    ///
    /// [`ProtoError::TooShort`] for an empty or truncated frame,
    /// [`ProtoError::BadOpcode`] for an unknown opcode.
    pub fn decode(bytes: &[u8]) -> (r: Result<Control, ProtoError>)
        ensures
            r == decode_spec(bytes@),
    {
        if bytes.len() == 0 {
            return Err(ProtoError::TooShort { got: 0, needed: 1 });
        }
        let op = bytes[0];
        if op == OP_ESTOP {
            Ok(Control::EStop)
        } else if op == OP_CLEAR {
            Ok(Control::Clear)
        } else if op == OP_LIDAR_ON {
            Ok(Control::LidarOn)
        } else if op == OP_LIDAR_OFF {
            Ok(Control::LidarOff)
        } else if op == OP_UPLINK_ON {
            Ok(Control::UplinkOn)
        } else if op == OP_UPLINK_OFF {
            Ok(Control::UplinkOff)
        } else if op == OP_SET_MAX_DUTY {
            if bytes.len() >= 3 {
                Ok(Control::SetMaxDuty(bytes[1] as u16 + bytes[2] as u16 * 256))
            } else {
                Err(ProtoError::TooShort { got: bytes.len(), needed: 3 })
            }
        } else {
            Err(ProtoError::BadOpcode(op))
        }
    }
}

/// Every command survives the wire: decoding its encoding gives it back, and
/// decoding any frame that succeeds consumed exactly its canonical encoding.
pub proof fn lemma_control_round_trip(c: Control, bytes: Seq<u8>)
    ensures
        decode_spec(control_bytes(c)) == Ok::<Control, ProtoError>(c),
        decode_spec(bytes) matches Ok(d) ==> bytes.take(control_bytes(d).len() as int) == control_bytes(d),
{
    if let Control::SetMaxDuty(p) = c {
        assert((p % 256) as u8 + (p / 256) as u8 * 256 == p);
    }
    if let Ok(d) = decode_spec(bytes) {
        if let Control::SetMaxDuty(p) = d {
            let v = bytes[1] + bytes[2] * 256;
            assert(p == v);
            assert(v % 256 == bytes[1]);
            assert(v / 256 == bytes[2]);
        }
        assert(bytes.take(control_bytes(d).len() as int) =~= control_bytes(d));
    }
}

} // verus!

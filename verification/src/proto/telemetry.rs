//! The car's telemetry frame: what the phone sees over BLE notify.
//!
//! A fixed 19-byte little-endian layout (it fits the 20-byte payload of the
//! default 23-byte ATT MTU). Byte offsets:
//!
//! ```text
//!  0  version            u8   = 1
//!  1  flags              u8   bitfield, see [`Flags`]
//!  2  battery_mv         u16  pack voltage, millivolts
//!  4  battery_pct        u8   0..=100
//!  5  left               i16  commanded left duty, per-mille
//!  7  right              i16  commanded right duty, per-mille
//!  9  uptime_s           u32  seconds since boot
//! 13  rssi_dbm           i8   BLE RSSI as seen by the car (0 = unknown)
//! 14  lidar              u8   LinkState
//! 15  wifi               u8   LinkState
//! 16  mqtt               u8   LinkState
//! 17  max_duty_permille  u16  the duty cap currently applied
//! ```
use vstd::prelude::*;
use crate::proto::error::ProtoError;
use crate::proto::status::{LinkState, link_byte, link_of_byte, lemma_link_state_round_trip};

verus! {

/// Current telemetry frame version.
pub const TELEMETRY_VERSION: u8 = 1;
/// Encoded length of a v1 telemetry frame, bytes.
pub const TELEMETRY_LEN: usize = 19;

/// Telemetry flag bits (byte 1).
#[derive(Debug, Clone, Copy, PartialEq, Eq, Structural)]
pub struct Flags(pub u8);

impl Default for Flags {
    fn default() -> (f: Flags)
        ensures
            f == Flags(0),
    {
        Flags(0)
    }
}

/// `f` with the bits of `other` set.
pub open spec fn flags_with(f: Flags, other: Flags) -> Flags {
    Flags(f.0 | other.0)
}

/// `f` with the bits of `other` cleared.
pub open spec fn flags_without(f: Flags, other: Flags) -> Flags {
    Flags(f.0 & !other.0)
}

/// `true` if every bit of `other` is set in `f`.
pub open spec fn flags_contain(f: Flags, other: Flags) -> bool {
    f.0 & other.0 == other.0
}

impl Flags {
    /// Emergency stop is latched; motors are braked until `Clear`.
    pub fn e_stop() -> (f: Flags)
        ensures
            f == Flags(1),
    {
        Flags(1)
    }

    /// Pack voltage below the warning threshold.
    pub fn low_battery() -> (f: Flags)
        ensures
            f == Flags(2),
    {
        Flags(2)
    }

    /// Pack voltage below the cut-off threshold; driving is inhibited.
    pub fn critical_battery() -> (f: Flags)
        ensures
            f == Flags(4),
    {
        Flags(4)
    }

    /// A BLE central is connected.
    pub fn ble_connected() -> (f: Flags)
        ensures
            f == Flags(8),
    {
        Flags(8)
    }

    /// The drive watchdog has expired (no fresh command).
    pub fn watchdog_stale() -> (f: Flags)
        ensures
            f == Flags(16),
    {
        Flags(16)
    }

    /// The lidar UART reported at least one FIFO overrun since boot.
    pub fn uart_overrun() -> (f: Flags)
        ensures
            f == Flags(32),
    {
        Flags(32)
    }

    /// `true` if every bit of `other` is set.
    pub fn contains(self, other: Flags) -> (b: bool)
        ensures
            b == flags_contain(self, other),
    {
        self.0 & other.0 == other.0
    }

    /// Set the bits of `other`.
    pub fn insert(&mut self, other: Flags)
        ensures
            *final(self) == flags_with(*old(self), other),
    {
        self.0 = self.0 | other.0;
    }

    /// Clear the bits of `other`.
    pub fn remove(&mut self, other: Flags)
        ensures
            *final(self) == flags_without(*old(self), other),
    {
        self.0 = self.0 & !other.0;
    }

    /// Set or clear the bits of `other`.
    pub fn set(&mut self, other: Flags, on: bool)
        ensures
            *final(self) == if on { flags_with(*old(self), other) } else { flags_without(*old(self), other) },
    {
        if on {
            self.insert(other);
        } else {
            self.remove(other);
        }
    }
}

/// After `insert` the bits are present, after `remove` absent (for a
/// non-empty set of bits); neither touches any other bit.
pub proof fn lemma_flags_set_and_clear(f: Flags, other: Flags, bit: u8)
    requires
        bit < 8,
    ensures
        flags_contain(flags_with(f, other), other),
        other.0 != 0 ==> !flags_contain(flags_without(f, other), other),
        (other.0 >> bit) & 1 == 0 ==> (flags_with(f, other).0 >> bit) & 1 == (f.0 >> bit) & 1,
        (other.0 >> bit) & 1 == 0 ==> (flags_without(f, other).0 >> bit) & 1 == (f.0 >> bit) & 1,
{
    let a = f.0;
    let b = other.0;
    assert((a | b) & b == b) by (bit_vector);
    assert(b != 0 ==> (a & !b) & b != b) by (bit_vector);
    assert(bit < 8 && (b >> bit) & 1 == 0 ==> ((a | b) >> bit) & 1 == (a >> bit) & 1) by (bit_vector);
    assert(bit < 8 && (b >> bit) & 1 == 0 ==> ((a & !b) >> bit) & 1 == (a >> bit) & 1) by (bit_vector);
}

/// One telemetry sample.
#[derive(Debug, Clone, Copy, PartialEq, Eq, Structural)]
pub struct Telemetry {
    /// Status bits.
    pub flags: Flags,
    /// Battery pack voltage, millivolts.
    pub battery_mv: u16,
    /// Battery state of charge, percent `0..=100`.
    pub battery_pct: u8,
    /// Commanded left duty after the governor, per-mille `-1000..=1000`.
    pub left: i16,
    /// Commanded right duty after the governor, per-mille `-1000..=1000`.
    pub right: i16,
    /// Seconds since boot.
    pub uptime_s: u32,
    /// BLE RSSI measured by the car, dBm. `0` means unknown.
    pub rssi_dbm: i8,
    /// Lidar link state.
    pub lidar: LinkState,
    /// Wi-Fi link state.
    pub wifi: LinkState,
    /// MQTT link state.
    pub mqtt: LinkState,
    /// Duty cap in force, per-mille `0..=1000`.
    pub max_duty_permille: u16,
}

impl Default for Telemetry {
    fn default() -> (t: Telemetry)
        ensures
            t == (Telemetry {
                flags: Flags(0),
                battery_mv: 0,
                battery_pct: 0,
                left: 0,
                right: 0,
                uptime_s: 0,
                rssi_dbm: 0,
                lidar: LinkState::Off,
                wifi: LinkState::Off,
                mqtt: LinkState::Off,
                max_duty_permille: 0,
            }),
    {
        Telemetry {
            flags: Flags(0),
            battery_mv: 0,
            battery_pct: 0,
            left: 0,
            right: 0,
            uptime_s: 0,
            rssi_dbm: 0,
            lidar: LinkState::Off,
            wifi: LinkState::Off,
            mqtt: LinkState::Off,
            max_duty_permille: 0,
        }
    }
}

/// Byte `k` (little-endian) of `v`.
pub open spec fn byte_of(v: u32, k: u32) -> u8 {
    ((v >> (8 * k)) & 0xff) as u8
}

/// The `u16` whose little-endian bytes are `lo, hi`.
pub open spec fn le_u16(lo: u8, hi: u8) -> u16 {
    ((lo as u16) | ((hi as u16) << 8u16)) as u16
}

/// The `u32` whose little-endian bytes are `b0..b3`.
pub open spec fn le_u32(b0: u8, b1: u8, b2: u8, b3: u8) -> u32 {
    ((b0 as u32) | ((b1 as u32) << 8u32) | ((b2 as u32) << 16u32) | ((b3 as u32) << 24u32)) as u32
}

/// The fixed BLE layout of `t`.
pub open spec fn telemetry_bytes(t: Telemetry) -> Seq<u8> {
    seq![
        TELEMETRY_VERSION,
        t.flags.0,
        byte_of(t.battery_mv as u32, 0),
        byte_of(t.battery_mv as u32, 1),
        t.battery_pct,
        byte_of((t.left as u16) as u32, 0),
        byte_of((t.left as u16) as u32, 1),
        byte_of((t.right as u16) as u32, 0),
        byte_of((t.right as u16) as u32, 1),
        byte_of(t.uptime_s, 0),
        byte_of(t.uptime_s, 1),
        byte_of(t.uptime_s, 2),
        byte_of(t.uptime_s, 3),
        t.rssi_dbm as u8,
        link_byte(t.lidar),
        link_byte(t.wifi),
        link_byte(t.mqtt),
        byte_of(t.max_duty_permille as u32, 0),
        byte_of(t.max_duty_permille as u32, 1),
    ]
}

/// What `Telemetry::decode` makes of `b`: too short, wrong version, or the
/// fields of the first 19 bytes (trailing bytes ignored).
pub open spec fn telemetry_decode_spec(b: Seq<u8>) -> Result<Telemetry, ProtoError> {
    if b.len() < TELEMETRY_LEN {
        Err(ProtoError::TooShort { got: b.len() as usize, needed: TELEMETRY_LEN })
    } else if b[0] != TELEMETRY_VERSION {
        Err(ProtoError::BadVersion(b[0]))
    } else {
        Ok(
            Telemetry {
                flags: Flags(b[1]),
                battery_mv: le_u16(b[2], b[3]),
                battery_pct: b[4],
                left: le_u16(b[5], b[6]) as i16,
                right: le_u16(b[7], b[8]) as i16,
                uptime_s: le_u32(b[9], b[10], b[11], b[12]),
                rssi_dbm: b[13] as i8,
                lidar: link_of_byte(b[14]),
                wifi: link_of_byte(b[15]),
                mqtt: link_of_byte(b[16]),
                max_duty_permille: le_u16(b[17], b[18]),
            },
        )
    }
}

fn u16_byte(v: u16, k: u32) -> (b: u8)
    requires
        k < 2,
    ensures
        b == byte_of(v as u32, k),
{
    ((v as u32 >> (8 * k)) & 0xff) as u8
}

fn u32_byte(v: u32, k: u32) -> (b: u8)
    requires
        k < 4,
    ensures
        b == byte_of(v, k),
{
    ((v >> (8 * k)) & 0xff) as u8
}

impl Telemetry {
    /// Encode as the fixed BLE layout.
    pub fn encode(&self) -> (b: [u8; TELEMETRY_LEN])
        ensures
            b@ == telemetry_bytes(*self),
    {
        let left = self.left as u16;
        let right = self.right as u16;
        let b = [
            TELEMETRY_VERSION,
            self.flags.0,
            u16_byte(self.battery_mv, 0),
            u16_byte(self.battery_mv, 1),
            self.battery_pct,
            u16_byte(left, 0),
            u16_byte(left, 1),
            u16_byte(right, 0),
            u16_byte(right, 1),
            u32_byte(self.uptime_s, 0),
            u32_byte(self.uptime_s, 1),
            u32_byte(self.uptime_s, 2),
            u32_byte(self.uptime_s, 3),
            self.rssi_dbm as u8,
            self.lidar.as_u8(),
            self.wifi.as_u8(),
            self.mqtt.as_u8(),
            u16_byte(self.max_duty_permille, 0),
            u16_byte(self.max_duty_permille, 1),
        ];
        assert(b@ =~= telemetry_bytes(*self));
        b
    }

    /// Decode the fixed BLE layout. Extra trailing bytes are ignored so a
    /// future longer frame still decodes its v1 prefix.
    pub fn decode(bytes: &[u8]) -> (r: Result<Telemetry, ProtoError>)
        ensures
            r == telemetry_decode_spec(bytes@),
    {
        if bytes.len() < TELEMETRY_LEN {
            return Err(ProtoError::TooShort { got: bytes.len(), needed: TELEMETRY_LEN });
        }
        if bytes[0] != TELEMETRY_VERSION {
            return Err(ProtoError::BadVersion(bytes[0]));
        }
        Ok(
            Telemetry {
                flags: Flags(bytes[1]),
                battery_mv: (bytes[2] as u16) | ((bytes[3] as u16) << 8u16),
                battery_pct: bytes[4],
                left: ((bytes[5] as u16) | ((bytes[6] as u16) << 8u16)) as i16,
                right: ((bytes[7] as u16) | ((bytes[8] as u16) << 8u16)) as i16,
                uptime_s: (bytes[9] as u32) | ((bytes[10] as u32) << 8u32) | ((bytes[11] as u32) << 16u32) | (
                (bytes[12] as u32) << 24u32),
                rssi_dbm: bytes[13] as i8,
                lidar: LinkState::from_u8(bytes[14]),
                wifi: LinkState::from_u8(bytes[15]),
                mqtt: LinkState::from_u8(bytes[16]),
                max_duty_permille: (bytes[17] as u16) | ((bytes[18] as u16) << 8u16),
            },
        )
    }
}

proof fn lemma_u16_bytes(v: u16)
    ensures
        le_u16(byte_of(v as u32, 0), byte_of(v as u32, 1)) == v,
{
    let w = v as u32;
    assert(w < 0x10000 ==> ((((w >> 0u32) & 0xff) as u8) as u16 | (((((w >> 8u32) & 0xff) as u8) as u16)
        << 8u16)) as u16 == w as u16) by (bit_vector);
}

proof fn lemma_i16_bytes(v: i16)
    ensures
        le_u16(byte_of((v as u16) as u32, 0), byte_of((v as u16) as u32, 1)) as i16 == v,
{
    lemma_u16_bytes(v as u16);
    assert((v as u16) as i16 == v) by (bit_vector);
}

proof fn lemma_u32_bytes(v: u32)
    ensures
        le_u32(byte_of(v, 0), byte_of(v, 1), byte_of(v, 2), byte_of(v, 3)) == v,
{
    assert(((((v >> 0u32) & 0xff) as u8) as u32 | (((((v >> 8u32) & 0xff) as u8) as u32) << 8u32) | (
    ((((v >> 16u32) & 0xff) as u8) as u32) << 16u32) | (((((v >> 24u32) & 0xff) as u8) as u32)
        << 24u32)) as u32 == v) by (bit_vector);
}

proof fn lemma_bytes_u16(lo: u8, hi: u8)
    ensures
        byte_of(le_u16(lo, hi) as u32, 0) == lo,
        byte_of(le_u16(lo, hi) as u32, 1) == hi,
{
    assert(((((((lo as u16) | ((hi as u16) << 8u16)) as u16) as u32 >> 0u32) & 0xff) as u8) == lo)
        by (bit_vector);
    assert(((((((lo as u16) | ((hi as u16) << 8u16)) as u16) as u32 >> 8u32) & 0xff) as u8) == hi)
        by (bit_vector);
}

proof fn lemma_bytes_i16(lo: u8, hi: u8)
    ensures
        byte_of(((le_u16(lo, hi) as i16) as u16) as u32, 0) == lo,
        byte_of(((le_u16(lo, hi) as i16) as u16) as u32, 1) == hi,
{
    lemma_bytes_u16(lo, hi);
    let u = le_u16(lo, hi);
    assert((u as i16) as u16 == u) by (bit_vector);
}

proof fn lemma_bytes_u32(b0: u8, b1: u8, b2: u8, b3: u8)
    ensures
        byte_of(le_u32(b0, b1, b2, b3), 0) == b0,
        byte_of(le_u32(b0, b1, b2, b3), 1) == b1,
        byte_of(le_u32(b0, b1, b2, b3), 2) == b2,
        byte_of(le_u32(b0, b1, b2, b3), 3) == b3,
{
    let v = le_u32(b0, b1, b2, b3);
    assert(v == ((b0 as u32) | ((b1 as u32) << 8u32) | ((b2 as u32) << 16u32) | ((b3 as u32) << 24u32)));
    assert((((((b0 as u32) | ((b1 as u32) << 8u32) | ((b2 as u32) << 16u32) | ((b3 as u32) << 24u32)) >> 0u32)
        & 0xff) as u8) == b0) by (bit_vector);
    assert((((((b0 as u32) | ((b1 as u32) << 8u32) | ((b2 as u32) << 16u32) | ((b3 as u32) << 24u32)) >> 8u32)
        & 0xff) as u8) == b1) by (bit_vector);
    assert((((((b0 as u32) | ((b1 as u32) << 8u32) | ((b2 as u32) << 16u32) | ((b3 as u32) << 24u32))
        >> 16u32) & 0xff) as u8) == b2) by (bit_vector);
    assert((((((b0 as u32) | ((b1 as u32) << 8u32) | ((b2 as u32) << 16u32) | ((b3 as u32) << 24u32))
        >> 24u32) & 0xff) as u8) == b3) by (bit_vector);
}

/// Every sample survives the BLE layout: decoding its 19 bytes (with any
/// trailing bytes) gives it back; and any frame that decodes re-encodes to
/// its own first 19 bytes when its link-state bytes are in range.
pub proof fn lemma_telemetry_round_trip(t: Telemetry, trailing: Seq<u8>, b: Seq<u8>)
    ensures
        telemetry_decode_spec(telemetry_bytes(t) + trailing) == Ok::<Telemetry, ProtoError>(t),
        telemetry_bytes(t).len() == TELEMETRY_LEN,
        (telemetry_decode_spec(b) is Ok && b[14] <= 3 && b[15] <= 3 && b[16] <= 3) ==> telemetry_bytes(
            telemetry_decode_spec(b)->Ok_0,
        ) == b.take(TELEMETRY_LEN as int),
{
    lemma_u16_bytes(t.battery_mv);
    lemma_u16_bytes(t.max_duty_permille);
    lemma_i16_bytes(t.left);
    lemma_i16_bytes(t.right);
    lemma_u32_bytes(t.uptime_s);
    lemma_link_state_round_trip(t.lidar, 0);
    lemma_link_state_round_trip(t.wifi, 0);
    lemma_link_state_round_trip(t.mqtt, 0);
    let r = t.rssi_dbm;
    assert((r as u8) as i8 == r) by (bit_vector);
    let e = telemetry_bytes(t) + trailing;
    assert(e[0] == TELEMETRY_VERSION);
    assert(telemetry_decode_spec(e) == Ok::<Telemetry, ProtoError>(t));
    if b.len() >= TELEMETRY_LEN && b[0] == TELEMETRY_VERSION && b[14] <= 3 && b[15] <= 3 && b[16] <= 3 {
        lemma_bytes_u16(b[2], b[3]);
        lemma_bytes_i16(b[5], b[6]);
        lemma_bytes_i16(b[7], b[8]);
        lemma_bytes_u32(b[9], b[10], b[11], b[12]);
        lemma_bytes_u16(b[17], b[18]);
        lemma_link_state_round_trip(LinkState::Off, b[14]);
        lemma_link_state_round_trip(LinkState::Off, b[15]);
        lemma_link_state_round_trip(LinkState::Off, b[16]);
        let x = b[13];
        assert((x as i8) as u8 == x) by (bit_vector);
        assert(telemetry_bytes(telemetry_decode_spec(b)->Ok_0) =~= b.take(TELEMETRY_LEN as int));
    }
}

} // verus!

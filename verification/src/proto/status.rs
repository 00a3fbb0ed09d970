//! State of the car's optional links (lidar, Wi-Fi, MQTT).
use vstd::prelude::*;

verus! {

/// State of an optional subsystem link.
///
/// One byte on the wire; unknown values decode to [`LinkState::Fault`] so a
/// newer car never crashes an older reader.
#[derive(Debug, Clone, Copy, PartialEq, Eq, Structural)]
pub enum LinkState {
    /// Disabled or never started (wire byte 0).
    Off,
    /// Starting up / connecting (wire byte 1).
    Starting,
    /// Running normally (wire byte 2).
    Up,
    /// Failed; will retry or needs a reset (wire byte 3).
    Fault,
}

impl Default for LinkState {
    fn default() -> (s: LinkState)
        ensures
            s == LinkState::Off,
    {
        LinkState::Off
    }
}

/// The wire byte of a link state.
pub open spec fn link_byte(s: LinkState) -> u8 {
    match s {
        LinkState::Off => 0,
        LinkState::Starting => 1,
        LinkState::Up => 2,
        LinkState::Fault => 3,
    }
}

/// The link state a wire byte decodes to.
pub open spec fn link_of_byte(v: u8) -> LinkState {
    if v == 0 {
        LinkState::Off
    } else if v == 1 {
        LinkState::Starting
    } else if v == 2 {
        LinkState::Up
    } else {
        LinkState::Fault
    }
}

impl LinkState {
    /// Decode from the wire byte.
    pub fn from_u8(v: u8) -> (s: LinkState)
        ensures
            s == link_of_byte(v),
    {
        match v {
            0 => LinkState::Off,
            1 => LinkState::Starting,
            2 => LinkState::Up,
            _ => LinkState::Fault,
        }
    }

    /// The wire byte.
    pub fn as_u8(self) -> (v: u8)
        ensures
            v == link_byte(self),
    {
        match self {
            LinkState::Off => 0,
            LinkState::Starting => 1,
            LinkState::Up => 2,
            LinkState::Fault => 3,
        }
    }

    /// `true` while the link is usable.
    pub fn is_up(self) -> (b: bool)
        ensures
            b == (self == LinkState::Up),
    {
        match self {
            LinkState::Up => true,
            _ => false,
        }
    }
}

/// Every state survives the wire, and every byte above 3 reads as `Fault`.
pub proof fn lemma_link_state_round_trip(s: LinkState, v: u8)
    ensures
        link_of_byte(link_byte(s)) == s,
        link_byte(s) <= 3,
        v <= 3 ==> link_byte(link_of_byte(v)) == v,
        v > 3 ==> link_of_byte(v) == LinkState::Fault,
{
}

} // verus!

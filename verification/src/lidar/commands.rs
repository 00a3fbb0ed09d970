//! The two request frames the car sends: start scanning, stop.
use vstd::prelude::*;

verus! {

/// Length of a payload-free RPLIDAR request: sync byte + command byte.
pub const REQUEST_LEN: usize = 2;
/// Request sync byte.
pub const REQUEST_SYNC: u8 = 0xA5;
/// `SCAN` command byte.
pub const CMD_SCAN: u8 = 0x20;
/// `STOP` command byte.
pub const CMD_STOP: u8 = 0x25;

/// An encoded request.
#[derive(Debug, Clone, Copy)]
pub struct Request {
    buf: [u8; REQUEST_LEN],
}

impl View for Request {
    type V = Seq<u8>;

    closed spec fn view(&self) -> Seq<u8> {
        self.buf@
    }
}

impl Request {
    /// The bytes to write to the lidar.
    pub fn bytes(&self) -> (b: &[u8])
        ensures
            b@ == self@,
    {
        self.buf.as_slice()
    }
}

/// `SCAN` (0xA5 0x20): starts the motor and the measurement stream.
pub fn scan_request() -> (r: Request)
    ensures
        r@ == seq![REQUEST_SYNC, CMD_SCAN],
{
    let r = Request { buf: [REQUEST_SYNC, CMD_SCAN] };
    assert(r.buf@ =~= seq![REQUEST_SYNC, CMD_SCAN]);
    r
}

/// `STOP` (0xA5 0x25): stops the stream; the motor spins down on the C1.
pub fn stop_request() -> (r: Request)
    ensures
        r@ == seq![REQUEST_SYNC, CMD_STOP],
{
    let r = Request { buf: [REQUEST_SYNC, CMD_STOP] };
    assert(r.buf@ =~= seq![REQUEST_SYNC, CMD_STOP]);
    r
}

} // verus!

//! Command-velocity text protocol and the safety watchdog.
//!
//! One frame per command: `"<left>,<right>"` (optional trailing `'\n'` or
//! `"\r\n"`), speeds in signed per-mille `-1000..=1000`. If no valid frame
//! arrives within the watchdog timeout the commanded speeds decay to zero.
use vstd::prelude::*;
use vstd::utf8::valid_utf8;
use crate::drive::text::{
    decimal, index_from, lemma_ascii_valid_utf8, lemma_decimal, lemma_parse_signed_decimal,
    leading_ws_len, parse_i16_at, parse_i16_spec, signed_decimal, trailing_ws_len, trim, trim_range,
    trim_start, find_byte, write_decimal, lemma_index_from_first,
};

verus! {

/// Full-scale speed magnitude accepted in a frame.
pub const SPEED_MAX: i16 = 1000;

/// Room a buffer needs for [`encode_frame`] (`"-1000,-1000"` plus one).
pub const ENCODE_MAX: usize = 12;

/// A parsed drive command: per-side speeds in signed per-mille.
#[derive(Debug, Clone, Copy, PartialEq, Eq, Structural)]
pub struct DriveCommand {
    /// Left track/wheel speed, `-1000..=1000`.
    pub left: i16,
    /// Right track/wheel speed, `-1000..=1000`.
    pub right: i16,
}

/// Both sides stopped.
pub open spec fn stopped() -> DriveCommand {
    DriveCommand { left: 0, right: 0 }
}

impl Default for DriveCommand {
    fn default() -> (c: DriveCommand)
        ensures
            c == stopped(),
    {
        DriveCommand { left: 0, right: 0 }
    }
}

/// Why a frame was rejected.
#[derive(Debug, Clone, Copy, PartialEq, Eq, Structural)]
#[non_exhaustive]
pub enum ParseError {
    /// The frame is not valid UTF-8 text.
    NotUtf8,
    /// The frame is not `<int>,<int>`.
    Malformed,
    /// A speed was outside `-1000..=1000`.
    OutOfRange,
}

impl ParseError {
    /// Human-readable reason.
    pub fn message(&self) -> (m: &'static str)
        ensures
            *self == ParseError::NotUtf8 ==> m@ == "frame is not UTF-8 text"@,
            *self == ParseError::Malformed ==> m@ == "frame is not '<left>,<right>'"@,
            *self == ParseError::OutOfRange ==> m@ == "speed outside -1000..=1000"@,
    {
        match self {
            ParseError::NotUtf8 => "frame is not UTF-8 text",
            ParseError::Malformed => "frame is not '<left>,<right>'",
            ParseError::OutOfRange => "speed outside -1000..=1000",
        }
    }
}

/// `true` for a speed inside `-1000..=1000`.
pub open spec fn in_speed_range(v: int) -> bool {
    -1000 <= v && v <= 1000
}

/// The meaning of a frame's text: trimmed, split at the first comma, both
/// halves trimmed and read as `i16`, then range-checked.
pub open spec fn parse_text_spec(text: Seq<u8>) -> Result<DriveCommand, ParseError> {
    let t = trim(text);
    let c = index_from(t, 0x2c, 0);
    if c < 0 {
        Err(ParseError::Malformed)
    } else {
        let l = parse_i16_spec(trim(t.take(c)));
        let r = parse_i16_spec(trim(t.skip(c + 1)));
        if l is None || r is None {
            Err(ParseError::Malformed)
        } else if !in_speed_range(l->0) || !in_speed_range(r->0) {
            Err(ParseError::OutOfRange)
        } else {
            Ok(DriveCommand { left: l->0 as i16, right: r->0 as i16 })
        }
    }
}

/// The meaning of a frame: text that is not UTF-8 is refused first.
pub open spec fn parse_frame_spec(frame: Seq<u8>) -> Result<DriveCommand, ParseError> {
    if !valid_utf8(frame) {
        Err(ParseError::NotUtf8)
    } else {
        parse_text_spec(frame)
    }
}

/// Clamp a speed into `-1000..=1000`.
pub open spec fn clamp_speed(v: int) -> int {
    if v < -1000 { -1000 } else if v > 1000 { 1000 } else { v }
}

/// `cmd` with both sides clamped into `-1000..=1000`.
pub open spec fn clamp_command(cmd: DriveCommand) -> DriveCommand {
    DriveCommand { left: clamp_speed(cmd.left as int) as i16, right: clamp_speed(cmd.right as int) as i16 }
}

/// The frame `encode_frame` writes for `cmd`.
pub open spec fn encode_spec(cmd: DriveCommand) -> Seq<u8> {
    signed_decimal(clamp_speed(cmd.left as int)) + seq![0x2cu8] + signed_decimal(
        clamp_speed(cmd.right as int),
    )
}

/// `core::str::from_utf8`: the bytes are accepted exactly when they are
/// well-formed UTF-8 (`vstd::utf8::valid_utf8`).
#[verifier::external_body]
fn utf8_ok(bytes: &[u8]) -> (ok: bool)
    ensures
        ok == valid_utf8(bytes@),
{
    core::str::from_utf8(bytes).is_ok()
}

/// Read a frame's text (any bytes; UTF-8 is checked by the caller).
fn parse_text(frame: &[u8]) -> (r: Result<DriveCommand, ParseError>)
    ensures
        r == parse_text_spec(frame@),
{
    let (a, b) = trim_range(frame, 0, frame.len());
    assert(frame@.subrange(0, frame@.len() as int) =~= frame@);
    let ghost t = frame@.subrange(a as int, b as int);
    let comma = match find_byte(frame, a, b, 0x2c) {
        Some(k) => k,
        None => {
            return Err(ParseError::Malformed);
        },
    };
    let c = a + comma;
    assert(t.take(comma as int) =~= frame@.subrange(a as int, c as int));
    assert(t.skip(comma + 1) =~= frame@.subrange(c + 1, b as int));
    let (la, lb) = trim_range(frame, a, c);
    let (ra, rb) = trim_range(frame, c + 1, b);
    let left = match parse_i16_at(frame, la, lb) {
        Some(v) => v,
        None => {
            return Err(ParseError::Malformed);
        },
    };
    let right = match parse_i16_at(frame, ra, rb) {
        Some(v) => v,
        None => {
            return Err(ParseError::Malformed);
        },
    };
    if left < -SPEED_MAX || left > SPEED_MAX || right < -SPEED_MAX || right > SPEED_MAX {
        return Err(ParseError::OutOfRange);
    }
    Ok(DriveCommand { left, right })
}

/// Parse one frame (`b"<left>,<right>"`, optional trailing newline).
///
/// Rejected frames should be ignored, keeping the previous command (the
/// watchdog handles a silent link).
pub fn parse_frame(frame: &[u8]) -> (r: Result<DriveCommand, ParseError>)
    ensures
        r == parse_frame_spec(frame@),
{
    if !utf8_ok(frame) {
        return Err(ParseError::NotUtf8);
    }
    parse_text(frame)
}

/// Write the text of `v` (already inside `-1000..=1000`) at `buf[pos..]`.
fn write_speed(buf: &mut [u8], pos: usize, v: i16) -> (end: usize)
    requires
        in_speed_range(v as int),
        pos + 5 <= old(buf)@.len(),
    ensures
        end == pos + signed_decimal(v as int).len(),
        final(buf)@.len() == old(buf)@.len(),
        final(buf)@.subrange(pos as int, end as int) == signed_decimal(v as int),
        forall|i: int|
            0 <= i < final(buf)@.len() && !(pos <= i < end) ==> final(buf)@[i] == old(buf)@[i],
{
    proof {
        lemma_parse_signed_decimal(v as int);
    }
    if v < 0 {
        buf[pos] = 0x2d;
        let m = (0 - v) as u16;
        proof {
            lemma_decimal(m as nat);
        }
        let ghost mid = buf@;
        let end = write_decimal(buf, pos + 1, m);
        assert(buf@.subrange(pos as int, end as int) =~= seq![0x2du8] + buf@.subrange(pos + 1, end as int));
        end
    } else {
        proof {
            lemma_decimal(v as nat);
        }
        write_decimal(buf, pos, v as u16)
    }
}

fn clamp_i16(v: i16) -> (r: i16)
    ensures
        r == clamp_speed(v as int),
{
    if v < -SPEED_MAX {
        -SPEED_MAX
    } else if v > SPEED_MAX {
        SPEED_MAX
    } else {
        v
    }
}

/// Encode `cmd` into `buf`; returns the frame length, or `None` if `buf` is
/// shorter than [`ENCODE_MAX`]. Speeds are clamped to `-1000..=1000`.
pub fn encode_frame(cmd: DriveCommand, buf: &mut [u8]) -> (r: Option<usize>)
    ensures
        final(buf)@.len() == old(buf)@.len(),
        old(buf)@.len() < ENCODE_MAX ==> r is None && final(buf)@ == old(buf)@,
        old(buf)@.len() >= ENCODE_MAX ==> {
            &&& r == Some(encode_spec(cmd).len() as usize)
            &&& final(buf)@.take(encode_spec(cmd).len() as int) == encode_spec(cmd)
            &&& final(buf)@.skip(encode_spec(cmd).len() as int) == old(buf)@.skip(
                encode_spec(cmd).len() as int,
            )
        },
{
    if buf.len() < ENCODE_MAX {
        return None;
    }
    let left = clamp_i16(cmd.left);
    let right = clamp_i16(cmd.right);
    proof {
        lemma_parse_signed_decimal(left as int);
        lemma_parse_signed_decimal(right as int);
    }
    let ghost b0 = buf@;
    let p = write_speed(buf, 0, left);
    let ghost b1 = buf@;
    buf[p] = 0x2c;
    let ghost b2 = buf@;
    let end = write_speed(buf, p + 1, right);
    let ghost e = encode_spec(cmd);
    assert(buf@.take(end as int) =~= e) by {
        assert(buf@.subrange(0, p as int) =~= b1.subrange(0, p as int));
        assert(buf@.take(end as int) =~= buf@.subrange(0, p as int) + seq![0x2cu8] + buf@.subrange(
            p + 1,
            end as int,
        ));
    }
    assert(buf@.skip(end as int) =~= b0.skip(end as int));
    Some(end)
}

/// Milliseconds from `fed` to `now` on a wrapping 32-bit clock.
pub open spec fn elapsed_ms(now: u32, fed: u32) -> int {
    if now >= fed { now - fed } else { now - fed + 0x1_0000_0000 }
}

/// The watchdog's abstract state.
pub struct WatchdogModel {
    pub timeout_ms: u32,
    pub target: DriveCommand,
    pub last_feed_ms: Option<u32>,
}

/// What the motors should run at `now_ms`: the last command while fresh,
/// zeros when stale or when nothing has arrived yet.
pub open spec fn watchdog_command(w: WatchdogModel, now_ms: u32) -> DriveCommand {
    match w.last_feed_ms {
        Some(fed) => if elapsed_ms(now_ms, fed) <= w.timeout_ms { w.target } else { stopped() },
        None => stopped(),
    }
}

/// The safety watchdog: commanded speeds decay to zero when the link goes
/// quiet. Time is any monotonic millisecond counter (rollover handled).
#[derive(Debug, Clone, Copy)]
pub struct Watchdog {
    timeout_ms: u32,
    target: DriveCommand,
    last_feed_ms: Option<u32>,
}

impl View for Watchdog {
    type V = WatchdogModel;

    closed spec fn view(&self) -> WatchdogModel {
        WatchdogModel { timeout_ms: self.timeout_ms, target: self.target, last_feed_ms: self.last_feed_ms }
    }
}

impl Watchdog {
    /// A watchdog with nothing received yet (the car uses 500 ms).
    pub fn new(timeout_ms: u32) -> (w: Watchdog)
        ensures
            w@ == (WatchdogModel { timeout_ms, target: stopped(), last_feed_ms: None }),
    {
        Watchdog { timeout_ms, target: DriveCommand { left: 0, right: 0 }, last_feed_ms: None }
    }

    /// Record a freshly received command.
    pub fn feed(&mut self, cmd: DriveCommand, now_ms: u32)
        ensures
            final(self)@ == (WatchdogModel {
                timeout_ms: old(self)@.timeout_ms,
                target: cmd,
                last_feed_ms: Some(now_ms),
            }),
    {
        self.target = cmd;
        self.last_feed_ms = Some(now_ms);
    }

    /// Drop the current command immediately (e.g. on radio disconnect).
    pub fn trip(&mut self)
        ensures
            final(self)@ == (WatchdogModel {
                timeout_ms: old(self)@.timeout_ms,
                target: stopped(),
                last_feed_ms: None,
            }),
    {
        self.target = DriveCommand { left: 0, right: 0 };
        self.last_feed_ms = None;
    }

    /// The speeds the motors should run **right now**.
    pub fn command(&self, now_ms: u32) -> (c: DriveCommand)
        ensures
            c == watchdog_command(self@, now_ms),
    {
        match self.last_feed_ms {
            Some(fed) => {
                if now_ms.wrapping_sub(fed) <= self.timeout_ms {
                    self.target
                } else {
                    DriveCommand { left: 0, right: 0 }
                }
            },
            None => DriveCommand { left: 0, right: 0 },
        }
    }
}

// ---------------------------------------------------------------- laws

/// `parse_frame` reads back exactly what `encode_frame` writes, after
/// clamping: encoding is the inverse of parsing for every command.
pub proof fn lemma_parse_inverts_encode(cmd: DriveCommand)
    ensures
        parse_frame_spec(encode_spec(cmd)) == Ok::<DriveCommand, ParseError>(clamp_command(cmd)),
        encode_spec(cmd).len() < ENCODE_MAX,
{
    let l = clamp_speed(cmd.left as int);
    let r = clamp_speed(cmd.right as int);
    lemma_parse_signed_decimal(l);
    lemma_parse_signed_decimal(r);
    let ls = signed_decimal(l);
    let rs = signed_decimal(r);
    let e = encode_spec(cmd);
    let k = ls.len() as int;
    assert(e.len() == ls.len() + 1 + rs.len());
    assert forall|i: int| 0 <= i < e.len() implies #[trigger] e[i] < 0x80 by {
        if i < k {
            assert(e[i] == ls[i]);
        } else if i > k {
            assert(e[i] == rs[i - k - 1]);
        }
    }
    lemma_ascii_valid_utf8(e);
    // No whitespace at either end of the frame or of its halves.
    assert(e[0] == ls[0]);
    assert(e[e.len() - 1] == rs.last());
    lemma_no_ws_at_ends(e);
    lemma_no_ws_at_ends(ls);
    lemma_no_ws_at_ends(rs);
    assert(trim(e) == e);
    // The first comma is the separator.
    assert forall|i: int| 0 <= i < k implies #[trigger] e[i] != 0x2c by {
        assert(e[i] == ls[i]);
    }
    lemma_index_from_first(e, 0x2c, 0, k);
    assert(e.take(k) =~= ls);
    assert(e.skip(k + 1) =~= rs);
}

/// A text that starts with `-` or a digit and ends with a digit has no
/// whitespace to trim.
proof fn lemma_no_ws_at_ends(s: Seq<u8>)
    requires
        s.len() >= 1,
        s[0] == 0x2d || 0x30 <= s[0] <= 0x39,
        0x30 <= s[s.len() - 1] <= 0x39,
        forall|i: int| 0 <= i < s.len() ==> #[trigger] s[i] < 0x80,
    ensures
        trim(s) == s,
{
    let n = s.len() as int;
    if n >= 2 {
        assert(s[n - 2] < 0x80);
    }
    if n >= 3 {
        assert(s[n - 3] < 0x80);
    }
    assert(leading_ws_len(s) == 0);
    assert(trim_start(s) == s);
    assert(trailing_ws_len(s) == 0);
}

/// Watchdog freshness: right after `feed(cmd, t)` the command is `cmd` for
/// every `now` at most `timeout_ms` (wrapping) after `t`, and zeros after
/// that; after `trip` (and before the first feed) it is zeros at every time.
pub proof fn lemma_watchdog_freshness(w: WatchdogModel, cmd: DriveCommand, t: u32, now: u32)
    ensures
        watchdog_command(WatchdogModel { target: cmd, last_feed_ms: Some(t), ..w }, now) == (if elapsed_ms(
            now,
            t,
        ) <= w.timeout_ms {
            cmd
        } else {
            stopped()
        }),
        watchdog_command(WatchdogModel { target: stopped(), last_feed_ms: None, ..w }, now) == stopped(),
        watchdog_command(w, now) == w.target || watchdog_command(w, now) == stopped(),
{
}

} // verus!

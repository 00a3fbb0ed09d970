//! MQTT topic layout: `olivaw/<car_id>/<channel>`.
//!
//! | Topic | Direction | Payload |
//! | --- | --- | --- |
//! | `olivaw/<car>/status` | car → hub, retained + last will | `"online"` / `"offline"` |
//! | `olivaw/<car>/telemetry` | car → hub, 1 Hz | JSON telemetry |
//! | `olivaw/<car>/scan` | car → hub, per rotation | postcard scan frame |
//! | `olivaw/<car>/cmd` | hub → car | control bytes or a drive frame |
use vstd::prelude::*;
use vstd::utf8::*;
use vstd::string::*;

verus! {

broadcast use vstd::string::group_string_axioms;

/// Topic prefix shared by every car.
pub const PREFIX: &'static str = "olivaw";
/// Status payload published on connect (retained).
pub const STATUS_ONLINE: &'static str = "online";
/// Status payload set as the last-will message.
pub const STATUS_OFFLINE: &'static str = "offline";
/// Longest topic this crate will build, bytes.
pub const TOPIC_MAX_LEN: usize = 48;
/// The wildcard subscription that matches every car's channels.
pub const ALL_CARS: &'static str = "olivaw/+/+";

/// The channels under a car's prefix.
#[derive(Debug, Clone, Copy, PartialEq, Eq, Structural)]
pub enum Channel {
    /// Online / offline, retained.
    Status,
    /// JSON telemetry.
    Telemetry,
    /// Binary scan frames.
    Scan,
    /// Commands from the hub.
    Cmd,
}

/// The UTF-8 bytes of `PREFIX` followed by `/`.
pub open spec fn prefix_bytes() -> Seq<u8> {
    seq![0x6fu8, 0x6c, 0x69, 0x76, 0x61, 0x77, 0x2f]
}

/// The bytes of a channel's path segment.
pub open spec fn segment_bytes(c: Channel) -> Seq<u8> {
    match c {
        Channel::Status => seq![0x73u8, 0x74, 0x61, 0x74, 0x75, 0x73],
        Channel::Telemetry => seq![0x74u8, 0x65, 0x6c, 0x65, 0x6d, 0x65, 0x74, 0x72, 0x79],
        Channel::Scan => seq![0x73u8, 0x63, 0x61, 0x6e],
        Channel::Cmd => seq![0x63u8, 0x6d, 0x64],
    }
}

/// The channel whose segment is exactly `b`, if any.
pub open spec fn channel_of(b: Seq<u8>) -> Option<Channel> {
    if b == segment_bytes(Channel::Status) {
        Some(Channel::Status)
    } else if b == segment_bytes(Channel::Telemetry) {
        Some(Channel::Telemetry)
    } else if b == segment_bytes(Channel::Scan) {
        Some(Channel::Scan)
    } else if b == segment_bytes(Channel::Cmd) {
        Some(Channel::Cmd)
    } else {
        None
    }
}

/// The channel named by `b[lo..hi]`.
fn channel_at(b: &[u8], lo: usize, hi: usize) -> (r: Option<Channel>)
    requires
        lo <= hi <= b@.len(),
    ensures
        r == channel_of(b@.subrange(lo as int, hi as int)),
{
    let status = [0x73u8, 0x74, 0x61, 0x74, 0x75, 0x73];
    let telemetry = [0x74u8, 0x65, 0x6c, 0x65, 0x6d, 0x65, 0x74, 0x72, 0x79];
    let scan = [0x73u8, 0x63, 0x61, 0x6e];
    let cmd = [0x63u8, 0x6d, 0x64];
    assert(status@ =~= segment_bytes(Channel::Status));
    assert(telemetry@ =~= segment_bytes(Channel::Telemetry));
    assert(scan@ =~= segment_bytes(Channel::Scan));
    assert(cmd@ =~= segment_bytes(Channel::Cmd));
    if crate::drive::text::bytes_equal(b, lo, hi, &status) {
        Some(Channel::Status)
    } else if crate::drive::text::bytes_equal(b, lo, hi, &telemetry) {
        Some(Channel::Telemetry)
    } else if crate::drive::text::bytes_equal(b, lo, hi, &scan) {
        Some(Channel::Scan)
    } else if crate::drive::text::bytes_equal(b, lo, hi, &cmd) {
        Some(Channel::Cmd)
    } else {
        None
    }
}

proof fn lemma_ascii_literal_bytes(s: &str)
    requires
        is_ascii(s),
    ensures
        s.spec_bytes() =~= Seq::new(s@.len(), |i| s@[i] as u8),
{
    is_ascii_spec_bytes(s);
}

/// In well-formed UTF-8 the position right after an ASCII byte is a
/// character boundary.
proof fn lemma_boundary_after_ascii(b: Seq<u8>, i: int)
    requires
        valid_utf8(b),
        0 <= i < b.len(),
        b[i] < 0x80,
    ensures
        is_char_boundary(b, i + 1),
    decreases b.len(),
{
    let first = length_of_first_scalar(b);
    let tail = pop_first_scalar(b);
    assert(valid_first_scalar(b));
    if i == 0 {
        assert(first == 1);
        assert(is_char_boundary(tail, 0));
    } else {
        if i < first {
            assert(is_continuation_byte(b[i]));
            assert(false);
        }
        assert(tail.len() == b.len() - first);
        assert(tail[i - first] == b[i]);
        lemma_boundary_after_ascii(tail, i - first);
    }
}

impl Channel {
    /// The last path segment.
    pub fn segment(self) -> (s: &'static str)
        ensures
            s.spec_bytes() == segment_bytes(self),
    {
        match self {
            Channel::Status => {
                let s = "status";
                proof {
                    reveal_strlit("status");
                    lemma_ascii_literal_bytes(s);
                }
                s
            },
            Channel::Telemetry => {
                let s = "telemetry";
                proof {
                    reveal_strlit("telemetry");
                    lemma_ascii_literal_bytes(s);
                }
                s
            },
            Channel::Scan => {
                let s = "scan";
                proof {
                    reveal_strlit("scan");
                    lemma_ascii_literal_bytes(s);
                }
                s
            },
            Channel::Cmd => {
                let s = "cmd";
                proof {
                    reveal_strlit("cmd");
                    lemma_ascii_literal_bytes(s);
                }
                s
            },
        }
    }

    /// Parse the last path segment.
    pub fn from_segment(s: &str) -> (c: Option<Channel>)
        ensures
            c == channel_of(s.spec_bytes()),
    {
        let b = s.as_bytes();
        assert(b@.subrange(0, b@.len() as int) =~= b@);
        channel_at(b, 0, b.len())
    }
}

/// `heapless::String<N>`: a UTF-8 string of at most `N` bytes stored inline.
#[verifier::external_type_specification]
#[verifier::external_body]
pub struct ExHeaplessString<const N: usize>(heapless::String<N>);

/// The UTF-8 bytes a topic string holds.
pub uninterp spec fn topic_bytes(s: heapless::String<TOPIC_MAX_LEN>) -> Seq<u8>;

/// `heapless::String::new`: an empty string.
#[verifier::external_body]
fn topic_new() -> (s: heapless::String<TOPIC_MAX_LEN>)
    ensures
        topic_bytes(s) == Seq::<u8>::empty(),
{
    heapless::String::new()
}

/// `heapless::String::push_str`: appends the piece's bytes when they all
/// fit the capacity, otherwise fails and changes nothing.
#[verifier::external_body]
fn topic_push_str(s: &mut heapless::String<TOPIC_MAX_LEN>, piece: &str) -> (r: Result<(), ()>)
    ensures
        topic_bytes(*old(s)).len() + piece.spec_bytes().len() <= TOPIC_MAX_LEN ==> r is Ok && topic_bytes(
            *final(s),
        ) == topic_bytes(*old(s)) + piece.spec_bytes(),
        topic_bytes(*old(s)).len() + piece.spec_bytes().len() > TOPIC_MAX_LEN ==> r is Err && topic_bytes(
            *final(s),
        ) == topic_bytes(*old(s)),
        topic_bytes(*final(s)).len() <= TOPIC_MAX_LEN,
{
    s.push_str(piece)
}

/// The bytes of `olivaw/<car_id>/<segment>`.
pub open spec fn topic_spec(car_id: Seq<u8>, channel: Channel) -> Seq<u8> {
    prefix_bytes() + car_id + seq![0x2fu8] + segment_bytes(channel)
}

/// Build `olivaw/<car_id>/<channel>` without allocating.
///
/// Returns `None` if the result would not fit [`TOPIC_MAX_LEN`] bytes.
pub fn topic(car_id: &str, channel: Channel) -> (r: Option<heapless::String<TOPIC_MAX_LEN>>)
    ensures
        r is Some <==> topic_spec(car_id.spec_bytes(), channel).len() <= TOPIC_MAX_LEN,
        r matches Some(s) ==> topic_bytes(s) == topic_spec(car_id.spec_bytes(), channel),
{
    let prefix = "olivaw";
    let slash = "/";
    proof {
        reveal_strlit("olivaw");
        reveal_strlit("/");
        lemma_ascii_literal_bytes(prefix);
        lemma_ascii_literal_bytes(slash);
    }
    let segment = channel.segment();
    let ghost total = topic_spec(car_id.spec_bytes(), channel);
    let ghost p1 = prefix.spec_bytes();
    let ghost p2 = p1 + slash.spec_bytes();
    let ghost p3 = p2 + car_id.spec_bytes();
    let ghost p4 = p3 + slash.spec_bytes();
    assert(p4 + segment.spec_bytes() =~= total);
    let mut s = topic_new();
    assert(Seq::<u8>::empty() + p1 =~= p1);
    if topic_push_str(&mut s, prefix).is_err() {
        return None;
    }
    if topic_push_str(&mut s, slash).is_err() {
        return None;
    }
    if topic_push_str(&mut s, car_id).is_err() {
        return None;
    }
    if topic_push_str(&mut s, slash).is_err() {
        return None;
    }
    if topic_push_str(&mut s, segment).is_err() {
        return None;
    }
    Some(s)
}

/// What `parse` makes of a topic's bytes: the car id's bytes and the
/// channel, when the topic is `olivaw/<non-empty id>/<known segment>`.
pub open spec fn parse_spec(b: Seq<u8>) -> Option<(Seq<u8>, Channel)> {
    if b.len() < 7 || b.take(7) != prefix_bytes() {
        None
    } else {
        let rest = b.skip(7);
        let j = crate::drive::text::index_from(rest, 0x2f, 0);
        if j <= 0 {
            None
        } else {
            let segment = rest.skip(j + 1);
            if crate::drive::text::index_from(segment, 0x2f, 0) >= 0 {
                None
            } else {
                match channel_of(segment) {
                    Some(c) => Some((rest.take(j), c)),
                    None => None,
                }
            }
        }
    }
}

/// Split `olivaw/<car_id>/<channel>` back into its parts.
pub fn parse(topic: &str) -> (r: Option<(&str, Channel)>)
    ensures
        match r {
            Some((car, c)) => parse_spec(topic.spec_bytes()) == Some((car.spec_bytes(), c)),
            None => parse_spec(topic.spec_bytes()) is None,
        },
{
    let b = topic.as_bytes();
    let n = b.len();
    proof {
        encode_utf8_valid_utf8(topic@);
    }
    if n < 7 {
        return None;
    }
    let prefix = [0x6fu8, 0x6c, 0x69, 0x76, 0x61, 0x77, 0x2f];
    assert(prefix@ =~= prefix_bytes());
    assert(b@.take(7) =~= b@.subrange(0, 7));
    if !crate::drive::text::bytes_equal(b, 0, 7, &prefix) {
        return None;
    }
    let ghost rest = b@.skip(7);
    assert(rest =~= b@.subrange(7, n as int));
    let k = match crate::drive::text::find_byte(b, 7, n, 0x2f) {
        Some(k) => k,
        None => {
            return None;
        },
    };
    if k == 0 {
        return None;
    }
    let j = 7 + k;
    let ghost segment = rest.skip(k + 1);
    assert(segment =~= b@.subrange(j + 1, n as int));
    if crate::drive::text::find_byte(b, j + 1, n, 0x2f).is_some() {
        return None;
    }
    let c = match channel_at(b, j + 1, n) {
        Some(c) => c,
        None => {
            return None;
        },
    };
    proof {
        is_char_boundary_iff_not_is_continuation_byte(b@, j as int);
        valid_utf8_split(b@, j as int);
    }
    let (head, _tail) = topic.split_at(j);
    proof {
        assert(head.spec_bytes()[6] == 0x2f);
        lemma_boundary_after_ascii(head.spec_bytes(), 6);
    }
    let (_prefix, car) = head.split_at(7);
    assert(car.spec_bytes() =~= rest.take(k as int));
    Some((car, c))
}

/// Each channel's segment names that channel and no other.
pub proof fn lemma_segment_round_trip(c: Channel)
    ensures
        channel_of(segment_bytes(c)) == Some(c),
{
    let s = segment_bytes(Channel::Status);
    let t = segment_bytes(Channel::Telemetry);
    let n = segment_bytes(Channel::Scan);
    let m = segment_bytes(Channel::Cmd);
    assert(s.len() == 6 && t.len() == 9 && n.len() == 4 && m.len() == 3);
    assert(s != n && s != m && s != t);
    assert(t != n && t != m);
    assert(n[1] != m[1]);
}

/// Parsing undoes building: the topic of a non-empty car id without `/`
/// parses back to that id and channel.
pub proof fn lemma_parse_inverts_topic(car_id: Seq<u8>, c: Channel)
    requires
        car_id.len() > 0,
        forall|i: int| 0 <= i < car_id.len() ==> #[trigger] car_id[i] != 0x2f,
    ensures
        parse_spec(topic_spec(car_id, c)) == Some((car_id, c)),
{
    let b = topic_spec(car_id, c);
    let seg = segment_bytes(c);
    let k = car_id.len() as int;
    assert(b.take(7) =~= prefix_bytes());
    let rest = b.skip(7);
    assert(rest =~= car_id + seq![0x2fu8] + seg);
    assert forall|j: int| 0 <= j < k implies #[trigger] rest[j] != 0x2f by {
        assert(rest[j] == car_id[j]);
    }
    crate::drive::text::lemma_index_from_first(rest, 0x2f, 0, k);
    assert(rest.skip(k + 1) =~= seg);
    assert(rest.take(k) =~= car_id);
    assert forall|j: int| 0 <= j < seg.len() implies #[trigger] seg[j] != 0x2f by {}
    crate::drive::text::lemma_index_from_absent(seg, 0x2f, 0);
    lemma_segment_round_trip(c);
}

} // verus!

//! Identifiers. A ticket, a comment and a user are each known by a UUID,
//! held here as the 128-bit number that its sixteen bytes spell from the
//! first byte down, so that the order of identifiers is the order of numbers.

use crate::error::{Error, ErrorView};
use vstd::arithmetic::div_mod::lemma_fundamental_div_mod_converse;
use vstd::arithmetic::power::pow;
use vstd::prelude::*;

verus! {

/// The character for a hexadecimal digit, in lower case.
pub open spec fn hex_digit(d: int) -> char {
    seq!['0', '1', '2', '3', '4', '5', '6', '7', '8', '9', 'a', 'b', 'c', 'd', 'e', 'f'][d]
}

/// The hexadecimal digit of `id` at place `k` of thirty-two, counted from
/// the left.
pub open spec fn hex_at(id: u128, k: int) -> int {
    ((id as int) / pow(16, (31 - k) as nat)) % 16
}

/// How many hyphens stand before place `i` of an identifier's text.
pub open spec fn hyphens_before(i: int) -> int {
    if i < 8 {
        0
    } else if i < 13 {
        1
    } else if i < 18 {
        2
    } else if i < 23 {
        3
    } else {
        4
    }
}

/// The text of an identifier: its thirty-two hexadecimal digits in lower
/// case, in groups of eight, four, four, four and twelve with hyphens
/// between them.
pub open spec fn uuid_text(id: u128) -> Seq<char> {
    Seq::new(
        36,
        |i: int|
            if i == 8 || i == 13 || i == 18 || i == 23 {
                '-'
            } else {
                hex_digit(hex_at(id, i - hyphens_before(i)))
            },
    )
}

/// The identifier that `uuid::Uuid::parse_str` reads from a text, if any.
pub uninterp spec fn uuid_parse(text: Seq<char>) -> Option<u128>;

/// The largest count of seconds since 1970 whose 100-nanosecond ticks since
/// 15 October 1582 still fit in 64 bits.
pub const MAX_SECONDS: u64 = 1_832_455_114_570;

/// Ticks of 100 nanoseconds between 15 October 1582 and `seconds` after the
/// start of 1970.
pub open spec fn ticks_at(seconds: u64) -> int {
    0x01B2_1DD2_1381_4000 + seconds * 10_000_000
}

/// The version-1 UUID for a time, a clock sequence and a node, field by
/// field: the low 32 bits of the ticks, their next 16 bits, version 1 over
/// their next 12 bits, the variant over 14 bits of the sequence, the node.
pub open spec fn v1_id(seconds: u64, counter: u16, node: Seq<u8>) -> int {
    let ticks = ticks_at(seconds);
    let time_low = ticks % 0x1_0000_0000;
    let time_mid = (ticks / 0x1_0000_0000) % 0x1_0000;
    let time_high = (ticks / 0x1_0000_0000_0000) % 0x1000 + 0x1000;
    let sequence_high = (counter / 0x100) % 0x40 + 0x80;
    let sequence_low = counter % 0x100;
    time_low * 0x1_0000_0000_0000_0000_0000_0000
        + time_mid * 0x1_0000_0000_0000_0000_0000
        + time_high * 0x1_0000_0000_0000_0000
        + sequence_high * 0x1_00_0000_0000_0000
        + sequence_low * 0x1_0000_0000_0000
        + node[0] * 0x1_00_0000_0000
        + node[1] * 0x1_0000_0000
        + node[2] * 0x1_00_0000
        + node[3] * 0x1_0000
        + node[4] * 0x1_00
        + node[5]
}

/// `Display` of `uuid::Uuid`, for the identifier whose bytes spell `id`.
/// It writes the hyphenated form in lower case, which `parse_str` reads back
/// as the same identifier.
#[verifier::external_body]
pub(crate) fn format_uuid(id: u128) -> (text: String)
    ensures
        text@ == uuid_text(id),
        uuid_parse(text@) == Some(id),
{
    uuid::Uuid::from_u128(id).to_string()
}

/// `uuid::Uuid::parse_str`: accepts the hyphenated, the simple and the URN
/// form, in either case of the digits.
#[verifier::external_body]
pub(crate) fn parse_uuid(text: &str) -> (id: Option<u128>)
    ensures
        id == uuid_parse(text@),
{
    uuid::Uuid::parse_str(text).ok().map(|u| u.as_u128())
}

/// `uuid::Uuid::new_v1` on `uuid::v1::Timestamp::from_unix` with a fresh
/// `uuid::v1::Context` that starts at `counter`, and no fraction of a second.
/// The bound on `seconds` keeps the tick count inside 64 bits; with a node of
/// six bytes `new_v1` has no error to report.
#[verifier::external_body]
pub(crate) fn build_v1(seconds: u64, counter: u16, node: &[u8; 6]) -> (id: Option<u128>)
    requires
        seconds <= MAX_SECONDS,
    ensures
        id is Some,
        id->0 == v1_id(seconds, counter, node@),
{
    let stamp = uuid::v1::Timestamp::from_unix(uuid::v1::Context::new(counter), seconds, 0);
    uuid::Uuid::new_v1(stamp, node).ok().map(|u| u.as_u128())
}

/// `uuid::Uuid::new_v4`: sixteen bytes from the operating system's random
/// source, marked as version 4 of the RFC 4122 variant. Of the other bits
/// nothing is known in advance.
#[verifier::external_body]
pub(crate) fn random_v4() -> (id: u128)
    ensures
        is_v4(id),
{
    uuid::Uuid::new_v4().as_u128()
}

/// What the clock reads, held against the start of 1970: how long after it
/// the clock stands, or how long before it, in whole seconds and the
/// nanoseconds of the second that has begun.
#[derive(Debug, Clone, Copy, PartialEq, Eq, Structural)]
pub enum Reading {
    After(u64, u32),
    Before(u64, u32),
}

/// `std::time::SystemTime::now` and its `duration_since` the start of 1970,
/// which tells a clock that stands before 1970 apart; of either duration the
/// whole seconds and the nanoseconds beyond them, which are fewer than a
/// thousand million. What the clock reads is not known in advance.
#[verifier::external_body]
pub(crate) fn read_clock() -> (reading: Reading)
    ensures
        match reading {
            Reading::After(_, nanos) => nanos < 1_000_000_000,
            Reading::Before(_, nanos) => nanos < 1_000_000_000,
        },
{
    match std::time::SystemTime::now().duration_since(std::time::UNIX_EPOCH) {
        Ok(after) => Reading::After(after.as_secs(), after.subsec_nanos()),
        Err(e) => Reading::Before(e.duration().as_secs(), e.duration().subsec_nanos()),
    }
}

/// `chrono::DateTime::from_timestamp` and the `timestamp` of what it makes:
/// the moment so many seconds and nanoseconds after the start of 1970, and
/// the whole seconds that lie between the two, which are the seconds given.
/// Within the bounds the moment is one that `chrono` can hold.
#[verifier::external_body]
pub(crate) fn timestamp_of(seconds: i64, nanos: u32) -> (stamp: Option<i64>)
    requires
        0 <= seconds <= MAX_SECONDS,
        nanos < 1_000_000_000,
    ensures
        stamp == Some(seconds),
{
    chrono::DateTime::from_timestamp(seconds, nanos).map(|moment| moment.timestamp())
}

/// `rand::random` for eight bits. Of the byte nothing is known in advance.
#[verifier::external_body]
pub(crate) fn random_byte() -> (byte: u8) {
    rand::random()
}

/// Whether an identifier is marked as random: version 4 in the upper half
/// of its seventh byte, and the RFC 4122 variant in the two highest bits of
/// its ninth.
pub open spec fn is_v4(id: u128) -> bool {
    (id / 0x1000_0000_0000_0000_0000) % 0x10 == 4 && (id / 0x4000_0000_0000_0000) % 4 == 2
}

/// What [`uuid_v1_at`] makes of a clock reading: an identifier, unless the
/// reading is before 1970 or beyond [`MAX_SECONDS`].
pub open spec fn v1_at(now: i64, counter: u16, node: Seq<u8>) -> Result<u128, ErrorView> {
    if 0 <= now <= MAX_SECONDS {
        Ok(v1_id(now as u64, counter, node) as u128)
    } else {
        Err(ErrorView::ClockOutOfRange(now))
    }
}

/// The version-1 identifier for the clock reading `now`, in seconds since
/// 1970, with the clock sequence `counter` and the node `node`.
pub fn uuid_v1_at(now: i64, counter: u16, node: &[u8; 6]) -> (id: Result<u128, Error>)
    ensures
        id_view(id) == v1_at(now, counter, node@),
{
    if now < 0 || now > MAX_SECONDS as i64 {
        return Err(Error::ClockOutOfRange(now));
    }
    match build_v1(now as u64, counter, node) {
        Some(id) => Ok(id),
        None => Err(Error::ClockOutOfRange(now)),
    }
}

/// Whether `outcome` is what [`uuid_v1`] can come back with: the identifier
/// or the failure that [`v1_at`] names for some reading of the clock, some
/// clock sequence and some node of six bytes.
pub open spec fn possible_v1(outcome: Result<u128, ErrorView>) -> bool {
    exists|now: i64, counter: u16, node: Seq<u8>|
        node.len() == 6 && #[trigger] v1_at(now, counter, node) == outcome
}

/// An identifier or a failure, as contracts see it.
pub open spec fn id_view(outcome: Result<u128, Error>) -> Result<u128, ErrorView> {
    match outcome {
        Ok(id) => Ok(id),
        Err(e) => Err(e@),
    }
}

/// The seconds of a reading, counted from the start of 1970: those that the
/// clock stands after it, or, for a clock that stands before it, the
/// negative count down to the second that has begun.
pub open spec fn reading_seconds(reading: Reading) -> int {
    match reading {
        Reading::After(seconds, _) => seconds as int,
        Reading::Before(seconds, nanos) => if nanos == 0 {
            -(seconds as int)
        } else {
            -(seconds as int) - 1
        },
    }
}

/// The 64-bit number nearest to `x`.
pub open spec fn nearest_i64(x: int) -> i64 {
    if x < i64::MIN {
        i64::MIN
    } else if x > i64::MAX {
        i64::MAX
    } else {
        x as i64
    }
}

/// The timestamp of a reading of the clock: its seconds since the start of
/// 1970, negative for a clock that stands before it, and the nearest number
/// of 64 bits where the clock stands further off than such a number says.
pub fn seconds_at(reading: Reading) -> (now: i64)
    ensures
        now == nearest_i64(reading_seconds(reading)),
{
    match reading {
        Reading::After(seconds, nanos) => {
            if seconds <= MAX_SECONDS && nanos < 1_000_000_000 {
                match timestamp_of(seconds as i64, nanos) {
                    Some(stamp) => stamp,
                    None => seconds as i64,
                }
            } else if seconds <= i64::MAX as u64 {
                seconds as i64
            } else {
                i64::MAX
            }
        },
        Reading::Before(seconds, nanos) => {
            if seconds <= i64::MAX as u64 {
                let whole: i64 = -(seconds as i64);
                if nanos == 0 {
                    whole
                } else {
                    whole - 1
                }
            } else {
                i64::MIN
            }
        },
    }
}

/// A fresh time-ordered identifier: version 1, for the present second on the
/// machine's clock, with a random clock sequence and a random node. Which
/// identifier comes back depends on the clock and on chance. A clock that
/// stands before 1970 makes none.
pub fn uuid_v1() -> (id: Result<u128, Error>)
    ensures
        possible_v1(id_view(id)),
{
    let high = random_byte();
    let low = random_byte();
    let counter: u16 = high as u16 * 256 + low as u16;
    let now = seconds_at(read_clock());
    let node: [u8; 6] = [
        random_byte(),
        random_byte(),
        random_byte(),
        random_byte(),
        random_byte(),
        random_byte(),
    ];
    let id = uuid_v1_at(now, counter, &node);
    assert(v1_at(now, counter, node@) == id_view(id));
    id
}

/// The last second whose tick count fits the sixty bits that a version-1
/// identifier has for it.
pub const LAST_WHOLE_SECOND: u64 = 103_072_857_660;

/// Identifiers made for different seconds differ, whatever their clock
/// sequences and nodes, as long as the tick count fits its sixty bits: the
/// time can be read back from the identifier.
pub proof fn lemma_seconds_tell_identifiers_apart(
    first: u64,
    counter: u16,
    node: Seq<u8>,
    second: u64,
    other_counter: u16,
    other_node: Seq<u8>,
)
    requires
        first != second,
        first <= LAST_WHOLE_SECOND,
        second <= LAST_WHOLE_SECOND,
        node.len() == 6,
        other_node.len() == 6,
    ensures
        v1_id(first, counter, node) != v1_id(second, other_counter, other_node),
{
    lemma_time_of(first, counter, node);
    lemma_time_of(second, other_counter, other_node);
}

/// Of two identifiers made within one stretch of 2^32 ticks, which is a
/// little over seven minutes, the one made for the later second is the
/// larger, whatever their clock sequences and nodes. Across such stretches
/// the order of identifiers is not the order of time: the low bits of the
/// time come first in an identifier.
pub proof fn lemma_later_sorts_later_within_a_stretch(
    first: u64,
    counter: u16,
    node: Seq<u8>,
    second: u64,
    other_counter: u16,
    other_node: Seq<u8>,
)
    requires
        first < second,
        second <= LAST_WHOLE_SECOND,
        ticks_at(first) / 0x1_0000_0000 == ticks_at(second) / 0x1_0000_0000,
        node.len() == 6,
        other_node.len() == 6,
    ensures
        v1_id(first, counter, node) < v1_id(second, other_counter, other_node),
{
    let a = ticks_at(first);
    let b = ticks_at(second);
    assert(a % 0x1_0000_0000 < b % 0x1_0000_0000) by {
        assert(a == 0x1_0000_0000 * (a / 0x1_0000_0000) + a % 0x1_0000_0000);
        assert(b == 0x1_0000_0000 * (b / 0x1_0000_0000) + b % 0x1_0000_0000);
    }
    lemma_rest_is_small(first, counter, node);
    lemma_rest_is_small(second, other_counter, other_node);
}

/// What follows the first thirty-two bits of an identifier is less than
/// 2^96.
proof fn lemma_rest_is_small(seconds: u64, counter: u16, node: Seq<u8>)
    requires
        seconds <= LAST_WHOLE_SECOND,
        node.len() == 6,
    ensures
        0 <= v1_id(seconds, counter, node) - (ticks_at(seconds) % 0x1_0000_0000)
            * 0x1_0000_0000_0000_0000_0000_0000 < 0x1_0000_0000_0000_0000_0000_0000,
{
    lemma_ticks_cut(ticks_at(seconds));
}

/// The ticks that an identifier was made for, read back from its first
/// sixty-four bits.
pub open spec fn ticks_in(id: int) -> int {
    let high = id / 0x1_0000_0000_0000_0000;
    let time_low = high / 0x1_0000_0000;
    let time_mid = (high / 0x1_0000) % 0x1_0000;
    let time_high = high % 0x1000;
    time_low + time_mid * 0x1_0000_0000 + time_high * 0x1_0000_0000_0000
}

/// The three fields that a tick count of sixty bits is cut into give the
/// tick count back.
proof fn lemma_ticks_cut(ticks: int)
    requires
        0 <= ticks < 0x1000_0000_0000_0000,
    ensures
        ticks == ticks % 0x1_0000_0000 + ((ticks / 0x1_0000_0000) % 0x1_0000) * 0x1_0000_0000 + ((
        ticks / 0x1_0000_0000_0000) % 0x1000) * 0x1_0000_0000_0000,
        0 <= ticks % 0x1_0000_0000 < 0x1_0000_0000,
        0 <= (ticks / 0x1_0000_0000) % 0x1_0000 < 0x1_0000,
        0 <= (ticks / 0x1_0000_0000_0000) % 0x1000 < 0x1000,
{
    let a = ticks / 0x1_0000_0000;
    assert(ticks == 0x1_0000_0000 * a + ticks % 0x1_0000_0000);
    assert(a == 0x1_0000 * (a / 0x1_0000) + a % 0x1_0000);
    assert(a / 0x1_0000 == ticks / 0x1_0000_0000_0000);
    assert(0 <= ticks / 0x1_0000_0000_0000 < 0x1000);
}

/// The fields of the first sixty-four bits can be read back from them.
proof fn lemma_high_cut(time_low: int, time_mid: int, time_high: int)
    requires
        0 <= time_low < 0x1_0000_0000,
        0 <= time_mid < 0x1_0000,
        0x1000 <= time_high < 0x2000,
    ensures
        ({
            let high = time_low * 0x1_0000_0000 + time_mid * 0x1_0000 + time_high;
            &&& high / 0x1_0000_0000 == time_low
            &&& (high / 0x1_0000) % 0x1_0000 == time_mid
            &&& high % 0x1000 == time_high - 0x1000
        }),
{
    let high = time_low * 0x1_0000_0000 + time_mid * 0x1_0000 + time_high;
    lemma_fundamental_div_mod_converse(
        high,
        0x1_0000_0000,
        time_low,
        time_mid * 0x1_0000 + time_high,
    );
    lemma_fundamental_div_mod_converse(
        high,
        0x1_0000,
        time_low * 0x1_0000 + time_mid,
        time_high,
    );
    lemma_fundamental_div_mod_converse(
        time_low * 0x1_0000 + time_mid,
        0x1_0000,
        time_low,
        time_mid,
    );
    lemma_fundamental_div_mod_converse(
        high,
        0x1000,
        time_low * 0x10_0000 + time_mid * 0x10 + 1,
        time_high - 0x1000,
    );
}

/// The time can be read back from a version-1 identifier.
proof fn lemma_time_of(seconds: u64, counter: u16, node: Seq<u8>)
    requires
        seconds <= LAST_WHOLE_SECOND,
        node.len() == 6,
    ensures
        ticks_in(v1_id(seconds, counter, node)) == ticks_at(seconds),
{
    let ticks = ticks_at(seconds);
    lemma_ticks_cut(ticks);
    let time_low = ticks % 0x1_0000_0000;
    let time_mid = (ticks / 0x1_0000_0000) % 0x1_0000;
    let time_high = (ticks / 0x1_0000_0000_0000) % 0x1000 + 0x1000;
    lemma_high_cut(time_low, time_mid, time_high);
    let sequence_high = (counter / 0x100) % 0x40 + 0x80;
    let sequence_low = counter % 0x100;
    let low: int = sequence_high * 0x1_00_0000_0000_0000 + sequence_low * 0x1_0000_0000_0000
        + node[0] * 0x1_00_0000_0000 + node[1] * 0x1_0000_0000 + node[2] * 0x1_00_0000 + node[3]
        * 0x1_0000 + node[4] * 0x1_00 + node[5];
    let high: int = time_low * 0x1_0000_0000 + time_mid * 0x1_0000 + time_high;
    lemma_fundamental_div_mod_converse(
        v1_id(seconds, counter, node),
        0x1_0000_0000_0000_0000,
        high,
        low,
    );
}

} // verus!

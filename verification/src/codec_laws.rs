//! What a result of the codec must satisfy.
//!
//! Each law pins a result down by the relation it has to its inputs, byte for
//! byte and in plain numbers: a packet is 48 bytes, with the kiss code at 12,
//! the originate timestamp at 24, the receive timestamp at 32 and the transmit
//! timestamp at 40.

use crate::types::{
    DeserializeError, LeapSecond, PollIntervalError, Rejection, SerializeError, Timestamp, Verdict,
};
use crate::{arithmetic, laws, serializer, types, wire};
use vstd::arithmetic::power2;
use vstd::prelude::*;

verus! {

// ---- words ---------------------------------------------------------------

/// A word is written as four bytes, the most significant first: they are its
/// digits to the base 256.
pub proof fn a_word_is_written_in_network_order(value: u32)
    ensures
        wire::word_to_bytes(value).len() == 4,
        ({
            let bytes = wire::word_to_bytes(value);
            bytes[0] * 16_777_216 + bytes[1] * 65_536 + bytes[2] * 256 + bytes[3] == value
        }),
{
}

/// A word is read as it was written, wherever it stands; the bytes around it
/// do not count.
pub proof fn a_word_is_read_in_network_order(bytes: Seq<u8>, at: int)
    ensures
        wire::word(bytes, at) == bytes[at] * 16_777_216 + bytes[at + 1] * 65_536 + bytes[at + 2]
            * 256 + bytes[at + 3],
{
}

/// A timestamp is read from two words, the seconds first.
pub proof fn a_timestamp_is_two_words(bytes: Seq<u8>, at: int)
    ensures
        wire::stamp(bytes, at).seconds == wire::word(bytes, at),
        wire::stamp(bytes, at).fractions == wire::word(bytes, at + 4),
{
}

/// Splicing bytes in changes those bytes and no others.
pub proof fn splicing_changes_only_its_part(bytes: Seq<u8>, at: int, part: Seq<u8>, i: int)
    requires
        0 <= at,
        at + part.len() <= bytes.len(),
        0 <= i < bytes.len(),
    ensures
        wire::splice(bytes, at, part).len() == bytes.len(),
        wire::splice(bytes, at, part)[i] == (if at <= i < at + part.len() {
            part[i - at]
        } else {
            bytes[i]
        }),
{
}

/// A timestamp reads as zero exactly where all its eight bytes are zero.
pub proof fn a_timestamp_is_zero_where_its_bytes_are(bytes: Seq<u8>, at: int)
    requires
        0 <= at,
        at + 8 <= bytes.len(),
    ensures
        wire::stamp(bytes, at) == types::zero_time() <==> bytes.subrange(at, at + 8)
            == seq![0u8, 0u8, 0u8, 0u8, 0u8, 0u8, 0u8, 0u8],
{
    let eight = bytes.subrange(at, at + 8);
    let zeros = seq![0u8, 0u8, 0u8, 0u8, 0u8, 0u8, 0u8, 0u8];
    assert(forall|i: int| 0 <= i < 8 ==> #[trigger] eight[i] == bytes[at + i]);
    assert(eight[0] == bytes[at] && eight[1] == bytes[at + 1] && eight[2] == bytes[at + 2]
        && eight[3] == bytes[at + 3] && eight[4] == bytes[at + 4] && eight[5] == bytes[at + 5]
        && eight[6] == bytes[at + 6] && eight[7] == bytes[at + 7]);
    if wire::stamp(bytes, at) == types::zero_time() {
        assert(eight =~= zeros);
    }
}

// ---- requests ------------------------------------------------------------

/// The random bits: the seconds stay, and a bit of the fractions is set
/// exactly where the clock had it set or where the top half of the random
/// number, moved to the bottom, has.
pub proof fn random_bits_are_set_in_the_fractions(time: Timestamp, random_number: u32, bit: u32)
    requires
        bit < 32,
    ensures
        ({
            let randomized = serializer::randomized(time, random_number);
            &&& randomized.seconds == time.seconds
            &&& (randomized.fractions >> bit) & 1 == 1 <==> (time.fractions >> bit) & 1 == 1 || (
            bit < 16 && (random_number >> ((bit + 16) as u32)) & 1 == 1)
        }),
{
    let f = time.fractions;
    let r = random_number;
    assert(((f | (r >> 16)) >> bit) & 1 == 1 <==> (f >> bit) & 1 == 1 || (bit < 16 && (r >> ((bit
        + 16) as u32)) & 1 == 1)) by (bit_vector)
        requires
            bit < 32,
    ;
}

/// **The request.** For every time it is 48 bytes: a first byte that says leap
/// indicator 0, version 4 and mode 3, a client; then 39 bytes of zero; then the
/// seconds and the fractions of its time, most significant byte first.
pub proof fn a_request_is_a_client_packet(time: Timestamp)
    ensures
        ({
            let packet = serializer::request_packet(time);
            &&& packet.len() == 48
            &&& packet[0] / 64 == 0
            &&& packet[0] / 8 % 8 == 4
            &&& packet[0] % 8 == 3
            &&& forall|i: int| 1 <= i < 40 ==> #[trigger] packet[i] == 0
            &&& packet.subrange(40, 44) == wire::word_to_bytes(time.seconds)
            &&& packet.subrange(44, 48) == wire::word_to_bytes(time.fractions)
        }),
{
    let packet = serializer::request_packet(time);
    assert(packet.subrange(40, 44) =~= wire::word_to_bytes(time.seconds));
    assert(packet.subrange(44, 48) =~= wire::word_to_bytes(time.fractions));
}

/// No client would believe a request: it is never read as a response.
pub proof fn a_request_is_no_response(
    time: Timestamp,
    request_time: Timestamp,
    received_at: Timestamp,
)
    ensures
        serializer::reading(serializer::request_packet(time), request_time, received_at) is Err,
{
    a_request_is_a_client_packet(time);
}

/// **Serializing.** A buffer under 48 bytes is refused first, then the zero
/// timestamp, and a refusal changes nothing. Every other call succeeds: it
/// leaves the packet of the randomized time in the first 48 bytes and every
/// other byte alone, and that time is the one to remember.
pub proof fn serializing_refuses_two_things(
    request_time: Timestamp,
    random_number: u32,
    buffer: Seq<u8>,
)
    ensures
        ({
            let (result, time, left) = serializer::serialization(
                request_time,
                random_number,
                buffer,
            );
            if buffer.len() < 48 {
                &&& result == Err::<(), SerializeError>(SerializeError::BufferTooSmall)
                &&& time == request_time && left == buffer
            } else if request_time.seconds == 0 && request_time.fractions == 0 {
                &&& result == Err::<(), SerializeError>(SerializeError::BadParameter)
                &&& time == request_time && left == buffer
            } else {
                &&& result is Ok
                &&& time == serializer::randomized(request_time, random_number)
                &&& left.len() == buffer.len()
                &&& left.subrange(0, 48) == serializer::request_packet(time)
                &&& left.subrange(48, buffer.len() as int) == buffer.subrange(
                    48,
                    buffer.len() as int,
                )
            }
        }),
{
    if buffer.len() >= 48 && request_time != types::zero_time() {
        let (result, time, left) = serializer::serialization(request_time, random_number, buffer);
        a_request_is_a_client_packet(time);
        assert(left.subrange(0, 48) =~= serializer::request_packet(time));
        assert(left.subrange(48, buffer.len() as int) =~= buffer.subrange(
            48,
            buffer.len() as int,
        ));
    }
}

// ---- responses -----------------------------------------------------------

/// **Which responses are read.** The size is looked at first, then the request
/// time, and everything else is the packet's: a packet of 48 bytes or more is
/// read for a request that is not zero exactly where its first byte has mode 4,
/// a server, where its bytes 24 to 31 are the very bytes in which the request
/// carried its time, and where neither its bytes 32 to 39 nor its bytes 40 to
/// 47 are all zero. Every other packet is invalid.
pub proof fn a_response_is_read_exactly_where_it_echoes(
    packet: Seq<u8>,
    request_time: Timestamp,
    received_at: Timestamp,
)
    ensures
        ({
            let reading = serializer::reading(packet, request_time, received_at);
            let zeros = seq![0u8, 0u8, 0u8, 0u8, 0u8, 0u8, 0u8, 0u8];
            if packet.len() < 48 {
                reading == Err::<Verdict, DeserializeError>(DeserializeError::BufferTooSmall)
            } else if request_time.seconds == 0 && request_time.fractions == 0 {
                reading == Err::<Verdict, DeserializeError>(DeserializeError::BadParameter)
            } else if packet[0] % 8 == 4 && packet.subrange(24, 32) == serializer::request_packet(
                request_time,
            ).subrange(40, 48) && packet.subrange(32, 40) != zeros && packet.subrange(40, 48)
                != zeros {
                reading is Ok
            } else {
                reading == Err::<Verdict, DeserializeError>(DeserializeError::InvalidResponse)
            }
        }),
{
    if packet.len() >= 48 {
        let sent = serializer::request_packet(request_time);
        laws::a_request_carries_its_time(request_time);
        a_timestamp_is_zero_where_its_bytes_are(packet, 32);
        a_timestamp_is_zero_where_its_bytes_are(packet, 40);
        if packet.subrange(24, 32) == sent.subrange(40, 48) {
            wire::same_bytes_same_stamp(packet, 24, sent, 40);
        }
        if wire::stamp(packet, 24) == request_time {
            the_same_stamp_is_the_same_bytes(packet, 24, sent, 40);
        }
    }
}

/// The same timestamp is the same eight bytes, wherever it stands.
proof fn the_same_stamp_is_the_same_bytes(bytes: Seq<u8>, at: int, other: Seq<u8>, other_at: int)
    requires
        0 <= at,
        at + 8 <= bytes.len(),
        0 <= other_at,
        other_at + 8 <= other.len(),
        wire::stamp(bytes, at) == wire::stamp(other, other_at),
    ensures
        bytes.subrange(at, at + 8) == other.subrange(other_at, other_at + 8),
{
    wire::bytes_round_trip(bytes, at);
    wire::bytes_round_trip(bytes, at + 4);
    wire::bytes_round_trip(other, other_at);
    wire::bytes_round_trip(other, other_at + 4);
    assert(bytes.subrange(at, at + 8) =~= bytes.subrange(at, at + 4) + bytes.subrange(
        at + 4,
        at + 8,
    ));
    assert(other.subrange(other_at, other_at + 8) =~= other.subrange(other_at, other_at + 4)
        + other.subrange(other_at + 4, other_at + 8));
}

/// **What a response says.** Stratum 0 refuses, with the code in the bytes 12
/// to 15: `DENY` and `RSTR` ask for another server, `RATE` for patience, and
/// every other code is the server's business. Any other stratum gives the time:
/// that of the bytes 40 to 47, with the leap second that the two top bits of
/// the first byte announce, and with an offset that is the mean of the two
/// legs, from the request to the bytes 32 to 39 and back from the bytes 40 to
/// 47 to the arrival.
pub proof fn a_response_says_what_its_fields_say(
    packet: Seq<u8>,
    request_time: Timestamp,
    received_at: Timestamp,
)
    requires
        serializer::reading(packet, request_time, received_at) is Ok,
    ensures
        match serializer::reading(packet, request_time, received_at)->Ok_0 {
            Verdict::Rejected(rejected) => {
                let code = packet.subrange(12, 16);
                &&& packet[1] == 0
                &&& wire::word_to_bytes(rejected.code) == code
                &&& rejected.kind == Rejection::ChangeServer <==> (code == seq![
                    0x44u8,
                    0x45u8,
                    0x4Eu8,
                    0x59u8,
                ] || code == seq![0x52u8, 0x53u8, 0x54u8, 0x52u8])
                &&& rejected.kind == Rejection::RetryWithBackoff <==> code == seq![
                    0x52u8,
                    0x41u8,
                    0x54u8,
                    0x45u8,
                ]
            },
            Verdict::Accepted(accepted) => {
                let legs = arithmetic::time_difference(wire::stamp(packet, 32), request_time)
                    + arithmetic::time_difference(wire::stamp(packet, 40), received_at);
                &&& packet[1] != 0
                &&& wire::word_to_bytes(accepted.server_time.seconds) == packet.subrange(40, 44)
                &&& wire::word_to_bytes(accepted.server_time.fractions) == packet.subrange(44, 48)
                &&& accepted.leap_second == LeapSecond::NoLeapSecond <==> packet[0] < 64
                &&& accepted.leap_second == LeapSecond::LastMinuteHas61Seconds <==> 64 <= packet[0]
                    < 128
                &&& accepted.leap_second == LeapSecond::LastMinuteHas59Seconds <==> 128 <= packet[0]
                    < 192
                &&& accepted.leap_second == LeapSecond::AlarmServerNotSynchronized <==> 192
                    <= packet[0]
                &&& legs >= 0 ==> 0 <= legs - 2 * accepted.clock_offset_ms <= 1
                &&& legs <= 0 ==> -1 <= legs - 2 * accepted.clock_offset_ms <= 0
            },
        },
{
    wire::bytes_round_trip(packet, 12);
    wire::bytes_round_trip(packet, 40);
    wire::bytes_round_trip(packet, 44);
    let code = packet.subrange(12, 16);
    let value = wire::word(packet, 12);
    kiss_code_in_bytes(value, 0x4445_4E59, seq![0x44u8, 0x45u8, 0x4Eu8, 0x59u8]);
    kiss_code_in_bytes(value, 0x5253_5452, seq![0x52u8, 0x53u8, 0x54u8, 0x52u8]);
    kiss_code_in_bytes(value, 0x5241_5445, seq![0x52u8, 0x41u8, 0x54u8, 0x45u8]);
}

/// Two codes are equal exactly where their bytes are.
proof fn kiss_code_in_bytes(value: u32, code: u32, bytes: Seq<u8>)
    requires
        bytes.len() == 4,
        bytes[0] * 16_777_216 + bytes[1] * 65_536 + bytes[2] * 256 + bytes[3] == code,
    ensures
        value == code <==> wire::word_to_bytes(value) == bytes,
{
    wire::word_round_trips(value);
    wire::bytes_round_trip(bytes, 0);
    assert(bytes.subrange(0, 4) =~= bytes);
}

/// What a kiss code asks for depends on nothing but the code.
pub proof fn a_kiss_code_asks_for_one_thing(code: u32)
    ensures
        serializer::rejection_kind(code) == Rejection::ChangeServer <==> code == 1_145_392_729
            || code == 1_381_192_786,
        serializer::rejection_kind(code) == Rejection::RetryWithBackoff <==> code
            == 1_380_013_125,
{
}

// ---- poll intervals ------------------------------------------------------

/// A power of two is 1, or twice a power of two; so no number below 1 is one,
/// and no odd number above 1.
pub proof fn powers_of_two_double(n: int)
    ensures
        n <= 0 ==> !serializer::is_power_of_two(n),
        serializer::is_power_of_two(1),
        serializer::is_power_of_two(2 * n) <==> serializer::is_power_of_two(n),
        serializer::is_power_of_two(2 * n + 1) <==> n == 0,
{
    power2::lemma2_to64();
    assert(serializer::is_power_of_two(1)) by {
        assert(power2::pow2(0) == 1);
    }
    if serializer::is_power_of_two(n) {
        let k = choose|k: nat| n == #[trigger] power2::pow2(k);
        power2::lemma_pow2_pos(k);
        power2::lemma_pow2_unfold(k + 1);
        assert(2 * n == power2::pow2(k + 1));
    }
    if serializer::is_power_of_two(2 * n) {
        let k = choose|k: nat| 2 * n == #[trigger] power2::pow2(k);
        power2::lemma_pow2_unfold(k);
        assert(n == power2::pow2((k - 1) as nat));
    }
    if serializer::is_power_of_two(2 * n + 1) {
        let k = choose|k: nat| 2 * n + 1 == #[trigger] power2::pow2(k);
        if k > 0 {
            power2::lemma_pow2_unfold(k);
        }
    }
}

/// The exact interval is the largest whole number of seconds in which a clock
/// that drifts by that many parts per million loses no more than the accuracy.
pub proof fn the_exact_interval_is_the_largest(tolerance: u16, accuracy: u16)
    requires
        tolerance > 0,
    ensures
        ({
            let exact = serializer::exact_poll_interval(tolerance, accuracy);
            &&& 0 <= exact
            &&& exact * tolerance <= accuracy * 1000 < (exact + 1) * tolerance
        }),
{
    let wanted = accuracy * 1000;
    let exact = wanted / tolerance as int;
    vstd::arithmetic::div_mod::lemma_fundamental_div_mod(wanted, tolerance as int);
    vstd::arithmetic::div_mod::lemma_div_pos_is_pos(wanted, tolerance as int);
    assert((exact + 1) * tolerance == exact * tolerance + tolerance) by (nonlinear_arith);
    assert(exact * tolerance == tolerance * exact) by (nonlinear_arith);
}

/// **The poll interval.** It is refused as a bad parameter exactly where an
/// argument is zero, and as under one second exactly where the clock would lose
/// more than the accuracy in a single second. In every other case there is an
/// interval: the power of two in which the clock loses no more than the
/// accuracy, while in twice the time it would.
pub proof fn a_poll_interval_is_owed_from_one_second_on(
    tolerance: u16,
    accuracy: u16,
    result: Result<u32, PollIntervalError>,
)
    requires
        serializer::is_poll_interval(tolerance, accuracy, result),
    ensures
        result == Err::<u32, PollIntervalError>(PollIntervalError::BadParameter) <==> tolerance == 0
            || accuracy == 0,
        result == Err::<u32, PollIntervalError>(PollIntervalError::ZeroPollInterval) <==> tolerance
            != 0 && accuracy != 0 && accuracy * 1000 < tolerance,
        result is Ok <==> tolerance != 0 && accuracy != 0 && accuracy * 1000 >= tolerance,
        result is Ok ==> {
            &&& serializer::is_power_of_two(result->Ok_0 as int)
            &&& result->Ok_0 * tolerance <= accuracy * 1000
            &&& 2 * result->Ok_0 * tolerance > accuracy * 1000
        },
{
    if tolerance != 0 && accuracy != 0 {
        let exact = serializer::exact_poll_interval(tolerance, accuracy);
        the_exact_interval_is_the_largest(tolerance, accuracy);
        assert(exact == 0 <==> accuracy * 1000 < tolerance) by (nonlinear_arith)
            requires
                0 <= exact,
                tolerance > 0,
                exact * tolerance <= accuracy * 1000 < (exact + 1) * tolerance,
        ;
        match result {
            Ok(interval) => {
                laws::the_poll_interval_keeps_the_accuracy(tolerance, accuracy, interval);
                powers_of_two_double(interval as int);
            },
            Err(PollIntervalError::BadParameter) => {},
            Err(PollIntervalError::ZeroPollInterval) => {},
        }
    }
}

/// A better clock never has to be asked about more often, nor does a laxer
/// accuracy.
pub proof fn a_poll_interval_grows_with_what_is_allowed(
    tolerance: u16,
    accuracy: u16,
    interval: u32,
    better_tolerance: u16,
    laxer_accuracy: u16,
    other: Result<u32, PollIntervalError>,
)
    requires
        serializer::is_poll_interval(tolerance, accuracy, Ok(interval)),
        0 < better_tolerance <= tolerance,
        accuracy <= laxer_accuracy,
        serializer::is_poll_interval(better_tolerance, laxer_accuracy, other),
    ensures
        other is Ok,
        other->Ok_0 >= interval,
{
    a_poll_interval_is_owed_from_one_second_on(tolerance, accuracy, Ok(interval));
    a_poll_interval_is_owed_from_one_second_on(better_tolerance, laxer_accuracy, other);
    let longer = other->Ok_0;
    if longer < interval {
        twice_at_most(longer as int, interval as int);
        assert(2 * longer * better_tolerance <= interval * tolerance) by (nonlinear_arith)
            requires
                0 <= 2 * longer <= interval,
                0 < better_tolerance <= tolerance,
        ;
    }
}

/// A smaller power of two is at most half as large.
proof fn twice_at_most(small: int, large: int)
    requires
        serializer::is_power_of_two(small),
        serializer::is_power_of_two(large),
        small < large,
    ensures
        2 * small <= large,
{
    let k = choose|k: nat| small == #[trigger] power2::pow2(k);
    let l = choose|l: nat| large == #[trigger] power2::pow2(l);
    power2::lemma_pow2_unfold(k + 1);
    if l < k {
        power2::lemma_pow2_strictly_increases(l, k);
    } else if k + 1 < l {
        power2::lemma_pow2_strictly_increases(k + 1, l);
    }
}

// ---- UNIX time -----------------------------------------------------------

/// **UNIX time.** From the SNTP second 2,208,988,800 on, the UNIX second is
/// what lies beyond it; below it the field has wrapped, and 2^32 seconds more
/// have passed. The microseconds are as many times 4,295 units as the fractions
/// hold.
pub proof fn unix_time_counts_from_1970(time: Timestamp)
    ensures
        ({
            let (seconds, micros) = serializer::unix_time(time);
            &&& 0 <= seconds < 4_294_967_296
            &&& seconds == time.seconds - 2_208_988_800 || seconds == time.seconds - 2_208_988_800
                + 4_294_967_296
            &&& 4_295 * micros <= time.fractions < 4_295 * (micros + 1)
        }),
{
}

/// The UNIX second follows the SNTP second by one, through the wrap of 2036.
pub proof fn unix_time_ticks_with_sntp_time(time: Timestamp, next: Timestamp)
    requires
        time.seconds != 2_208_988_799,
        next.seconds == time.seconds + 1 || (time.seconds == 4_294_967_295 && next.seconds == 0),
    ensures
        serializer::unix_time(next).0 == serializer::unix_time(time).0 + 1,
{
    unix_time_counts_from_1970(time);
    unix_time_counts_from_1970(next);
}

} // verus!

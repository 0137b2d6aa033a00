//! What holds of the codec and of the time arithmetic as a whole.
//!
//! The contracts of the single functions are stated over the spec functions
//! used here; each law below relates several of them, or speaks of all inputs.

use crate::arithmetic::{
    CLOCK_OFFSET_MAX_TIME_DIFFERENCE, FRACTION_VALUE_PER_MILLISECOND, TOTAL_MILLISECONDS_IN_NTP_ERA,
};
use crate::serializer::{
    MODE_SERVER, TIME_AT_UNIX_EPOCH_SECS, UNIX_TIME_SECS_AT_SNTP_ERA_1_SMALLEST_TIME,
};
use crate::types::{Timestamp, Verdict};
use crate::wire::{ORIGIN_AT, PACKET_BASE_SIZE, RECEIVE_AT, STRATUM_AT, TRANSMIT_AT};
use crate::{arithmetic, serializer, types, wire};
use vstd::arithmetic::power2;
use vstd::prelude::*;

verus! {

// ---- requests and responses ----------------------------------------------

/// Randomizing a request gives up less than 2^16 units of its fractions, about
/// 15 microseconds: the seconds and the top half of the fractions stay, nothing
/// carries, and no request becomes the zero timestamp.
pub proof fn randomizing_keeps_the_time(time: Timestamp, random_number: u32)
    ensures
        serializer::randomized(time, random_number).seconds == time.seconds,
        0 <= serializer::randomized(time, random_number).fractions - time.fractions < 0x1_0000,
        serializer::randomized(time, random_number).fractions / 0x1_0000 == time.fractions
            / 0x1_0000,
        time != types::zero_time() ==> serializer::randomized(time, random_number)
            != types::zero_time(),
{
    let f = time.fractions;
    let r = random_number;
    assert((f | (r >> 16)) >= f && (f | (r >> 16)) - f < 0x1_0000) by (bit_vector);
    assert((f | (r >> 16)) / 0x1_0000 == f / 0x1_0000) by (bit_vector);
}

/// The packet of a request carries its timestamp in the transmit field, and
/// is 48 bytes long.
pub proof fn a_request_carries_its_time(time: Timestamp)
    ensures
        serializer::request_packet(time).len() == PACKET_BASE_SIZE,
        wire::stamp(serializer::request_packet(time), TRANSMIT_AT as int) == time,
{
    let packet = serializer::request_packet(time);
    wire::word_round_trips(time.seconds);
    wire::word_round_trips(time.fractions);
    let seconds = wire::word_to_bytes(time.seconds);
    let fractions = wire::word_to_bytes(time.fractions);
    assert(packet.subrange(40, 44) =~= seconds.subrange(0, 4));
    assert(packet.subrange(44, 48) =~= fractions.subrange(0, 4));
    wire::same_bytes_same_word(packet, 40, seconds, 0);
    wire::same_bytes_same_word(packet, 44, fractions, 0);
}

/// **The round trip.** A server that copies the transmit field of a request
/// into the originate field of its response, names itself a server, and fills
/// in two times that are not zero is believed: the response to a request that
/// this library made is never refused as invalid. With a stratum it gives the
/// time; with stratum 0 it refuses.
///
/// The request is remembered as it was *sent*, with the random bits.
pub proof fn a_response_to_our_own_request_is_believed(
    time: Timestamp,
    random_number: u32,
    response: Seq<u8>,
    response_rx_time: Timestamp,
)
    requires
        time != types::zero_time(),
        response.len() >= PACKET_BASE_SIZE,
        serializer::packet_mode(response) == MODE_SERVER,
        response.subrange(24, 32) == serializer::request_packet(
            serializer::randomized(time, random_number),
        ).subrange(40, 48),
        wire::stamp(response, RECEIVE_AT as int) != types::zero_time(),
        wire::stamp(response, TRANSMIT_AT as int) != types::zero_time(),
    ensures
        ({
            let request = serializer::randomized(time, random_number);
            let verdict = serializer::verdict(response, request, response_rx_time);
            &&& serializer::reading(response, request, response_rx_time) == Ok::<
                Verdict,
                types::DeserializeError,
            >(verdict)
            &&& response[STRATUM_AT as int] != 0 <==> verdict is Accepted
            &&& verdict is Accepted ==> verdict->Accepted_0.server_time == wire::stamp(
                response,
                TRANSMIT_AT as int,
            )
        }),
{
    let request = serializer::randomized(time, random_number);
    let sent = serializer::request_packet(request);
    randomizing_keeps_the_time(time, random_number);
    a_request_carries_its_time(request);
    wire::same_bytes_same_stamp(response, 24, sent, 40);
    assert(wire::stamp(response, ORIGIN_AT as int) == request);
}

/// Nothing else is believed: a response that is read at all is a full packet
/// from a server that echoes the request exactly and carries no zero timestamp.
/// In particular nothing is believed while no request is outstanding.
pub proof fn only_an_exact_echo_is_believed(
    packet: Seq<u8>,
    request_time: Timestamp,
    response_rx_time: Timestamp,
)
    ensures
        serializer::reading(packet, request_time, response_rx_time) is Ok ==> {
            &&& packet.len() >= PACKET_BASE_SIZE
            &&& serializer::packet_mode(packet) == MODE_SERVER
            &&& wire::stamp(packet, ORIGIN_AT as int) == request_time
            &&& wire::stamp(packet, ORIGIN_AT as int) != types::zero_time()
            &&& wire::stamp(packet, RECEIVE_AT as int) != types::zero_time()
            &&& wire::stamp(packet, TRANSMIT_AT as int) != types::zero_time()
        },
        serializer::reading(packet, types::zero_time(), response_rx_time) is Err,
{
}

/// A response is read from its leap indicator, its mode, its stratum, its kiss
/// code (in a Kiss-o'-Death only) and its originate, receive and transmit
/// timestamps. The version, the poll and precision bytes, the root delay and
/// dispersion, the reference timestamp, and whatever follows the first 48 bytes
/// are ignored.
pub proof fn the_other_fields_are_ignored(
    packet: Seq<u8>,
    other: Seq<u8>,
    request_time: Timestamp,
    response_rx_time: Timestamp,
)
    requires
        packet.len() >= PACKET_BASE_SIZE,
        other.len() >= PACKET_BASE_SIZE,
        packet[0] / 64 == other[0] / 64,
        packet[0] % 8 == other[0] % 8,
        packet[STRATUM_AT as int] == other[STRATUM_AT as int],
        packet[STRATUM_AT as int] == 0 ==> packet.subrange(12, 16) == other.subrange(12, 16),
        packet.subrange(24, 48) == other.subrange(24, 48),
    ensures
        serializer::reading(packet, request_time, response_rx_time) == serializer::reading(
            other,
            request_time,
            response_rx_time,
        ),
{
    let tail = packet.subrange(24, 48);
    assert(packet.subrange(24, 32) =~= tail.subrange(0, 8));
    assert(other.subrange(24, 32) =~= tail.subrange(0, 8));
    assert(packet.subrange(32, 40) =~= tail.subrange(8, 16));
    assert(other.subrange(32, 40) =~= tail.subrange(8, 16));
    assert(packet.subrange(40, 48) =~= tail.subrange(16, 24));
    assert(other.subrange(40, 48) =~= tail.subrange(16, 24));
    wire::same_bytes_same_stamp(packet, 24, other, 24);
    wire::same_bytes_same_stamp(packet, 32, other, 32);
    wire::same_bytes_same_stamp(packet, 40, other, 40);
    if packet[STRATUM_AT as int] == 0 {
        wire::same_bytes_same_word(packet, 12, other, 12);
    }
}

// ---- the era wrap --------------------------------------------------------

/// Milliseconds since the beginning of era 0 of the instant that a timestamp
/// stands for in a given era.
pub open spec fn instant(era: int, time: Timestamp) -> int {
    era * TOTAL_MILLISECONDS_IN_NTP_ERA + arithmetic::millis(time)
}

/// Milliseconds never round up into the next second.
pub proof fn milliseconds_stay_in_their_second(time: Timestamp)
    ensures
        time.seconds * 1000 <= arithmetic::millis(time) < (time.seconds + 1) * 1000,
        0 <= arithmetic::millis(time) < TOTAL_MILLISECONDS_IN_NTP_ERA,
{
}

/// **The era wrap.** Two clocks that are less than half an era apart are told
/// apart correctly, whatever eras they are in: the difference of the two
/// timestamps is the difference of the two instants.
pub proof fn differences_are_right_across_eras(
    server_era: int,
    server: Timestamp,
    client_era: int,
    client: Timestamp,
)
    requires
        -CLOCK_OFFSET_MAX_TIME_DIFFERENCE < instant(server_era, server) - instant(
            client_era,
            client,
        ) <= CLOCK_OFFSET_MAX_TIME_DIFFERENCE,
    ensures
        arithmetic::time_difference(server, client) == instant(server_era, server) - instant(
            client_era,
            client,
        ),
{
    milliseconds_stay_in_their_second(server);
    milliseconds_stay_in_their_second(client);
    let eras = server_era - client_era;
    let difference = arithmetic::millis(server) - arithmetic::millis(client);
    assert(instant(server_era, server) - instant(client_era, client) == eras
        * TOTAL_MILLISECONDS_IN_NTP_ERA + difference) by (nonlinear_arith)
        requires
            eras == server_era - client_era,
            difference == arithmetic::millis(server) - arithmetic::millis(client),
            instant(server_era, server) == server_era * TOTAL_MILLISECONDS_IN_NTP_ERA
                + arithmetic::millis(server),
            instant(client_era, client) == client_era * TOTAL_MILLISECONDS_IN_NTP_ERA
                + arithmetic::millis(client),
    ;
    assert(-1 <= eras <= 1);
}

/// Among the three readings of a difference the chosen one is the smallest in
/// absolute value.
pub proof fn the_nearest_reading_is_the_smallest(difference: int)
    requires
        -TOTAL_MILLISECONDS_IN_NTP_ERA < difference < TOTAL_MILLISECONDS_IN_NTP_ERA,
    ensures
        ({
            let era = TOTAL_MILLISECONDS_IN_NTP_ERA;
            let chosen = arithmetic::nearest_reading(difference);
            &&& chosen == difference || chosen == difference + era || chosen == difference - era
            &&& arithmetic::magnitude(chosen) <= arithmetic::magnitude(difference)
            &&& arithmetic::magnitude(chosen) <= arithmetic::magnitude(difference + era)
            &&& arithmetic::magnitude(chosen) <= arithmetic::magnitude(difference - era)
        }),
{
}

/// Two readings of a difference tie only at exactly half an era, and there the
/// server is taken to be ahead, from whichever side the tie is met.
pub proof fn readings_tie_only_at_half_an_era(difference: int)
    ensures
        arithmetic::magnitude(difference) == arithmetic::magnitude(
            difference + TOTAL_MILLISECONDS_IN_NTP_ERA,
        ) <==> difference == -CLOCK_OFFSET_MAX_TIME_DIFFERENCE,
        arithmetic::magnitude(difference) == arithmetic::magnitude(
            difference - TOTAL_MILLISECONDS_IN_NTP_ERA,
        ) <==> difference == CLOCK_OFFSET_MAX_TIME_DIFFERENCE,
        arithmetic::magnitude(difference) == CLOCK_OFFSET_MAX_TIME_DIFFERENCE
            ==> arithmetic::nearest_reading(difference) == CLOCK_OFFSET_MAX_TIME_DIFFERENCE,
{
}

/// Seen from the other side a difference has the other sign, but for the tie at
/// half an era.
pub proof fn differences_are_antisymmetric(server: Timestamp, client: Timestamp)
    requires
        arithmetic::magnitude(arithmetic::millis(server) - arithmetic::millis(client))
            != CLOCK_OFFSET_MAX_TIME_DIFFERENCE,
    ensures
        arithmetic::time_difference(server, client) == -arithmetic::time_difference(client, server),
{
}

/// **A symmetric delay cancels.** If the server is ahead by `ahead_ms` and each
/// leg of the round trip takes `delay_ms`, the measured offset is `ahead_ms`,
/// in whatever eras the four timestamps lie.
pub proof fn a_symmetric_delay_cancels(
    client_tx_era: int,
    client_tx: Timestamp,
    server_rx_era: int,
    server_rx: Timestamp,
    server_tx_era: int,
    server_tx: Timestamp,
    client_rx_era: int,
    client_rx: Timestamp,
    ahead_ms: int,
    delay_ms: int,
)
    requires
        instant(server_rx_era, server_rx) == instant(client_tx_era, client_tx) + delay_ms
            + ahead_ms,
        instant(client_rx_era, client_rx) == instant(server_tx_era, server_tx) + delay_ms
            - ahead_ms,
        -CLOCK_OFFSET_MAX_TIME_DIFFERENCE < ahead_ms + delay_ms
            <= CLOCK_OFFSET_MAX_TIME_DIFFERENCE,
        -CLOCK_OFFSET_MAX_TIME_DIFFERENCE < ahead_ms - delay_ms
            <= CLOCK_OFFSET_MAX_TIME_DIFFERENCE,
    ensures
        arithmetic::clock_offset(client_tx, server_rx, server_tx, client_rx) == ahead_ms,
{
    differences_are_right_across_eras(server_rx_era, server_rx, client_tx_era, client_tx);
    differences_are_right_across_eras(server_tx_era, server_tx, client_rx_era, client_rx);
}

// ---- elapsed time --------------------------------------------------------

/// While a clock moves forward by less than an era, the elapsed time is its
/// progress: 1000 for each second, more or less by what the fractions differ,
/// with no wrap of the counter. The seconds field may wrap on the way.
pub proof fn a_clock_that_moves_forward_is_timed(
    current_era: int,
    current: Timestamp,
    older_era: int,
    older: Timestamp,
)
    requires
        ({
            let seconds = (current_era - older_era) * 0x1_0000_0000 + current.seconds
                - older.seconds;
            0 < seconds < 0x1_0000_0000 || (seconds == 0 && current.fractions >= older.fractions)
        }),
    ensures
        arithmetic::elapsed_ms(current, older) == ((current_era - older_era) * 0x1_0000_0000
            + current.seconds - older.seconds) * 1000 + arithmetic::fractions_between(
            current,
            older,
        ),
        -999 <= arithmetic::fractions_between(current, older) <= 999,
{
}

/// A clock that steps back inside one second, by a millisecond or more, is
/// credited with so many milliseconds that every 32-bit deadline has passed.
pub proof fn a_clock_that_steps_back_is_past_every_deadline(current: Timestamp, older: Timestamp)
    requires
        current.seconds == older.seconds,
        older.fractions - current.fractions >= FRACTION_VALUE_PER_MILLISECOND,
    ensures
        arithmetic::elapsed_ms(current, older) == 0x1_0000_0000_0000_0000 - (older.fractions
            - current.fractions) / FRACTION_VALUE_PER_MILLISECOND as int,
        arithmetic::elapsed_ms(current, older) > u32::MAX,
{
}

// ---- UNIX time -----------------------------------------------------------

/// The two era constants sum to exactly 2^32, so the two branches of the
/// conversion, the subtraction of era 0 and the wrapping sum of era 1, are one
/// and the same function and meet at the boundary.
pub proof fn the_era_constants_are_complementary(sntp_seconds: u32)
    ensures
        TIME_AT_UNIX_EPOCH_SECS + UNIX_TIME_SECS_AT_SNTP_ERA_1_SMALLEST_TIME == 0x1_0000_0000,
        serializer::unix_seconds(sntp_seconds) == (UNIX_TIME_SECS_AT_SNTP_ERA_1_SMALLEST_TIME
            + sntp_seconds) % 0x1_0000_0000,
        serializer::unix_seconds(TIME_AT_UNIX_EPOCH_SECS) == 0,
        serializer::unix_seconds(0) == UNIX_TIME_SECS_AT_SNTP_ERA_1_SMALLEST_TIME,
{
}

/// The conversion is right from the UNIX epoch on for 2^32 seconds, that is
/// until 2106: in era 0 from 1970 and in era 1 beyond 2036.
pub proof fn unix_time_is_right_until_2106(era: int, sntp_seconds: u32)
    requires
        TIME_AT_UNIX_EPOCH_SECS <= era * 0x1_0000_0000 + sntp_seconds < TIME_AT_UNIX_EPOCH_SECS
            + 0x1_0000_0000,
    ensures
        serializer::unix_seconds(sntp_seconds) == era * 0x1_0000_0000 + sntp_seconds
            - TIME_AT_UNIX_EPOCH_SECS,
{
}

// ---- poll intervals ------------------------------------------------------

/// Asking at the calculated interval keeps the accuracy that was asked for: a
/// clock that drifts by `tolerance` parts per million loses no more than
/// `accuracy` milliseconds in that time. No longer power of two would do.
pub proof fn the_poll_interval_keeps_the_accuracy(tolerance: u16, accuracy: u16, interval: u32)
    requires
        tolerance > 0,
        interval <= serializer::exact_poll_interval(tolerance, accuracy) < 2 * interval,
    ensures
        interval * tolerance <= accuracy * 1000,
        2 * interval * tolerance > accuracy * 1000,
{
    let exact = serializer::exact_poll_interval(tolerance, accuracy);
    let wanted = accuracy * 1000;
    vstd::arithmetic::div_mod::lemma_fundamental_div_mod(wanted, tolerance as int);
    assert(interval * tolerance <= exact * tolerance) by (nonlinear_arith)
        requires
            interval <= exact,
            tolerance > 0,
    ;
    assert(2 * interval * tolerance >= (exact + 1) * tolerance) by (nonlinear_arith)
        requires
            exact + 1 <= 2 * interval,
            tolerance > 0,
    ;
    assert((exact + 1) * tolerance == exact * tolerance + tolerance) by (nonlinear_arith);
    assert(exact * tolerance == tolerance * exact) by (nonlinear_arith);
}

/// There is only one interval to calculate: no two powers of two round the same
/// exact interval down.
pub proof fn the_poll_interval_is_unique(exact: int, interval: int, other: int)
    requires
        serializer::is_power_of_two(interval),
        interval <= exact < 2 * interval,
        serializer::is_power_of_two(other),
        other <= exact < 2 * other,
    ensures
        interval == other,
{
    let k = choose|k: nat| interval == #[trigger] power2::pow2(k);
    let l = choose|l: nat| other == #[trigger] power2::pow2(l);
    power2::lemma_pow2_unfold(k + 1);
    power2::lemma_pow2_unfold(l + 1);
    if k + 1 < l {
        power2::lemma_pow2_strictly_increases(k + 1, l);
    } else if l + 1 < k {
        power2::lemma_pow2_strictly_increases(l + 1, k);
    }
}

} // verus!

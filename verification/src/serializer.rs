//! The packet codec: requests out, responses in.
//!
//! Four entry points with no I/O and no clock: the caller supplies the time
//! and the randomness.

use crate::arithmetic::calculate_clock_offset;
use crate::arithmetic::FRACTION_VALUE_PER_MICROSECOND;
use crate::types::{
    Accepted, DeserializeError, LeapSecond, PollIntervalError, Rejected, Rejection, SerializeError,
    Timestamp, Verdict,
};
use crate::wire::{
    put_word, timestamp_at, word_at, LEAP_VERSION_MODE_AT, ORIGIN_AT, PACKET_BASE_SIZE, RECEIVE_AT,
    REF_ID_AT, STRATUM_AT, TRANSMIT_AT,
};
use crate::{arithmetic, types, wire};
use vstd::arithmetic::power2;
use vstd::prelude::*;

verus! {

/// Seconds between the SNTP epoch (1 January 1900) and the UNIX epoch (1
/// January 1970).
pub const TIME_AT_UNIX_EPOCH_SECS: u32 = 2_208_988_800;

/// The UNIX time at which the SNTP seconds field wraps: 7 February 2036,
/// 06:28:16 UTC.
pub const UNIX_TIME_SECS_AT_SNTP_ERA_1_SMALLEST_TIME: u32 = 2_085_978_496;

/// A kiss code is four ASCII characters.
pub const KISS_OF_DEATH_CODE_LENGTH: usize = 4;

/// The first byte of a request: leap indicator 0, version 4, mode 3 (client).
pub const REQUEST_LEAP_VERSION_MODE: u8 = 0x23;

/// The mode of a packet that a server sent.
pub const MODE_SERVER: u8 = 4;

/// The stratum that marks a Kiss-o'-Death.
pub const KISS_OF_DEATH_STRATUM: u8 = 0;

/// The kiss code `DENY`.
pub const KOD_DENY: u32 = 0x4445_4E59;

/// The kiss code `RSTR`.
pub const KOD_RSTR: u32 = 0x5253_5452;

/// The kiss code `RATE`.
pub const KOD_RATE: u32 = 0x5241_5445;

// ---- what the codec computes ---------------------------------------------

/// The timestamp a request carries: `time` with the top half of the random
/// number OR-ed into the bottom half of its fractions.
pub open spec fn randomized(time: Timestamp, random_number: u32) -> Timestamp {
    Timestamp { seconds: time.seconds, fractions: time.fractions | (random_number >> 16) }
}

/// The packet of a request made at `time`: everything is zero but the first
/// byte and the transmit timestamp.
pub open spec fn request_packet(time: Timestamp) -> Seq<u8> {
    seq![REQUEST_LEAP_VERSION_MODE] + Seq::new(39, |i: int| 0u8) + wire::word_to_bytes(
        time.seconds,
    ) + wire::word_to_bytes(time.fractions)
}

/// What serializing a request comes to: the answer, the timestamp to remember,
/// and the bytes left in the buffer.
pub open spec fn serialization(
    request_time: Timestamp,
    random_number: u32,
    buffer: Seq<u8>,
) -> (Result<(), SerializeError>, Timestamp, Seq<u8>) {
    if buffer.len() < PACKET_BASE_SIZE {
        (Err(SerializeError::BufferTooSmall), request_time, buffer)
    } else if request_time == types::zero_time() {
        (Err(SerializeError::BadParameter), request_time, buffer)
    } else {
        let time = randomized(request_time, random_number);
        (Ok(()), time, request_packet(time) + buffer.skip(PACKET_BASE_SIZE as int))
    }
}

/// The mode of a packet: the three low bits of its first byte.
pub open spec fn packet_mode(packet: Seq<u8>) -> int {
    packet[LEAP_VERSION_MODE_AT as int] as int % 8
}

/// What the two top bits of a packet's first byte announce.
pub open spec fn packet_leap_second(packet: Seq<u8>) -> LeapSecond {
    let indicator = packet[LEAP_VERSION_MODE_AT as int] as int / 64;
    if indicator == 0 {
        LeapSecond::NoLeapSecond
    } else if indicator == 1 {
        LeapSecond::LastMinuteHas61Seconds
    } else if indicator == 2 {
        LeapSecond::LastMinuteHas59Seconds
    } else {
        LeapSecond::AlarmServerNotSynchronized
    }
}

/// Is this packet an answer to the request made at `request_time`? It comes
/// from a server, none of its three timestamps is zero, and it echoes the
/// request in its originate field.
pub open spec fn answers(packet: Seq<u8>, request_time: Timestamp) -> bool {
    &&& packet_mode(packet) == MODE_SERVER
    &&& wire::stamp(packet, ORIGIN_AT as int) == request_time
    &&& request_time != types::zero_time()
    &&& wire::stamp(packet, RECEIVE_AT as int) != types::zero_time()
    &&& wire::stamp(packet, TRANSMIT_AT as int) != types::zero_time()
}

/// What a client should do about a kiss code.
pub open spec fn rejection_kind(code: u32) -> Rejection {
    if code == KOD_DENY || code == KOD_RSTR {
        Rejection::ChangeServer
    } else if code == KOD_RATE {
        Rejection::RetryWithBackoff
    } else {
        Rejection::Other
    }
}

/// What a packet that answers the request says.
pub open spec fn verdict(
    packet: Seq<u8>,
    request_time: Timestamp,
    response_rx_time: Timestamp,
) -> Verdict {
    if packet[STRATUM_AT as int] == KISS_OF_DEATH_STRATUM {
        let code = wire::word(packet, REF_ID_AT as int);
        Verdict::Rejected(Rejected { code, kind: rejection_kind(code) })
    } else {
        Verdict::Accepted(
            Accepted {
                server_time: wire::stamp(packet, TRANSMIT_AT as int),
                leap_second: packet_leap_second(packet),
                clock_offset_ms: arithmetic::clock_offset(
                    request_time,
                    wire::stamp(packet, RECEIVE_AT as int),
                    wire::stamp(packet, TRANSMIT_AT as int),
                    response_rx_time,
                ) as i64,
            },
        )
    }
}

/// How a response is read: the verdict, or why there is none.
pub open spec fn reading(
    packet: Seq<u8>,
    request_time: Timestamp,
    response_rx_time: Timestamp,
) -> Result<Verdict, DeserializeError> {
    if packet.len() < PACKET_BASE_SIZE {
        Err(DeserializeError::BufferTooSmall)
    } else if request_time == types::zero_time() {
        Err(DeserializeError::BadParameter)
    } else if !answers(packet, request_time) {
        Err(DeserializeError::InvalidResponse)
    } else {
        Ok(verdict(packet, request_time, response_rx_time))
    }
}

/// The poll interval in whole seconds that an accuracy allows, before rounding.
pub open spec fn exact_poll_interval(clock_freq_tolerance: u16, desired_accuracy: u16) -> int {
    desired_accuracy * 1000 / clock_freq_tolerance as int
}

/// Is this what the calculation of a poll interval answers?
pub open spec fn is_poll_interval(
    clock_freq_tolerance: u16,
    desired_accuracy: u16,
    result: Result<u32, PollIntervalError>,
) -> bool {
    let exact = exact_poll_interval(clock_freq_tolerance, desired_accuracy);
    match result {
        Err(PollIntervalError::BadParameter) => clock_freq_tolerance == 0 || desired_accuracy == 0,
        Err(PollIntervalError::ZeroPollInterval) => clock_freq_tolerance != 0 && desired_accuracy
            != 0 && exact == 0,
        Ok(interval) => {
            &&& clock_freq_tolerance != 0 && desired_accuracy != 0
            &&& is_power_of_two(interval as int)
            &&& interval <= exact < 2 * interval
        },
    }
}

/// Is `n` a power of two?
pub open spec fn is_power_of_two(n: int) -> bool {
    exists|k: nat| n == #[trigger] power2::pow2(k)
}

/// The UNIX second of an SNTP second, on counters that wrap: the SNTP count
/// less the seconds up to the UNIX epoch.
pub open spec fn unix_seconds(sntp_seconds: u32) -> int {
    (sntp_seconds - TIME_AT_UNIX_EPOCH_SECS) % 0x1_0000_0000
}

/// An SNTP timestamp as UNIX seconds and whole microseconds.
pub open spec fn unix_time(time: Timestamp) -> (int, int) {
    (
        unix_seconds(time.seconds),
        (time.fractions / FRACTION_VALUE_PER_MICROSECOND) as int,
    )
}

// ---- the entry points ----------------------------------------------------

/// Build a request packet.
///
/// **`request_time` is an in-out parameter.** The top 16 bits of the random
/// number are OR-ed into the low 16 bits of its fractions, which protects
/// against replays, and the caller must remember the *modified* timestamp: a
/// server echoes it in the originate field and [`deserialize_response`] checks
/// it exactly.
///
/// Only the first [`PACKET_BASE_SIZE`] bytes are written; what the caller has
/// reserved beyond them for authentication data is left alone.
///
/// # Errors
///
/// [`SerializeError::BufferTooSmall`] if the buffer is under
/// [`PACKET_BASE_SIZE`], and [`SerializeError::BadParameter`] if the request
/// timestamp is zero. The size is checked first.
pub fn serialize_request(
    request_time: &mut Timestamp,
    random_number: u32,
    buffer: &mut [u8],
) -> (result: Result<(), SerializeError>)
    ensures
        result == (if old(buffer)@.len() < PACKET_BASE_SIZE {
            Err::<(), SerializeError>(SerializeError::BufferTooSmall)
        } else if *old(request_time) == types::zero_time() {
            Err(SerializeError::BadParameter)
        } else {
            Ok(())
        }),
        result is Err ==> {
            &&& *final(request_time) == *old(request_time)
            &&& final(buffer)@ == old(buffer)@
        },
        result is Ok ==> {
            &&& *final(request_time) == randomized(*old(request_time), random_number)
            &&& final(buffer)@ == request_packet(*final(request_time)) + old(buffer)@.skip(
                PACKET_BASE_SIZE as int,
            )
        },
        (result, *final(request_time), final(buffer)@) == serialization(
            *old(request_time),
            random_number,
            old(buffer)@,
        ),
{
    if buffer.len() < PACKET_BASE_SIZE {
        return Err(SerializeError::BufferTooSmall);
    }
    if request_time.is_zero() {
        return Err(SerializeError::BadParameter);
    }
    let ghost before = buffer@;
    let mut at: usize = 0;
    while at < PACKET_BASE_SIZE
        invariant
            at <= PACKET_BASE_SIZE <= before.len(),
            buffer@.len() == before.len(),
            forall|i: int| 0 <= i < at ==> buffer@[i] == 0,
            forall|i: int| at <= i < before.len() ==> buffer@[i] == before[i],
        decreases PACKET_BASE_SIZE - at,
    {
        buffer[at] = 0;
        at = at + 1;
    }
    buffer[LEAP_VERSION_MODE_AT] = REQUEST_LEAP_VERSION_MODE;

    // An OR and not a sum, so it can never carry into the seconds.
    request_time.fractions = request_time.fractions | (random_number >> 16);

    put_word(buffer, TRANSMIT_AT, request_time.seconds);
    put_word(buffer, TRANSMIT_AT + 4, request_time.fractions);
    assert(buffer@ =~= request_packet(*request_time) + before.skip(PACKET_BASE_SIZE as int));
    Ok(())
}

/// Validate a server response and time the clock.
///
/// A response is accepted only if it is from a server, carries no zero
/// timestamp, and echoes `request_time` exactly in its originate field. Those
/// checks are what stops an off-path attacker from forging a reply.
///
/// A server that refuses sends a **Kiss-o'-Death**: stratum 0, with a
/// four-character reason in the reference identifier. That is a valid response,
/// so it is a verdict and no error.
///
/// # Errors
///
/// [`DeserializeError::BufferTooSmall`] under [`PACKET_BASE_SIZE`],
/// [`DeserializeError::BadParameter`] for a zero request timestamp, and
/// [`DeserializeError::InvalidResponse`] for anything that fails validation,
/// in this order.
pub fn deserialize_response(
    request_time: &Timestamp,
    response_rx_time: &Timestamp,
    buffer: &[u8],
) -> (result: Result<Verdict, DeserializeError>)
    ensures
        result == reading(buffer@, *request_time, *response_rx_time),
{
    if buffer.len() < PACKET_BASE_SIZE {
        return Err(DeserializeError::BufferTooSmall);
    }
    if request_time.is_zero() {
        return Err(DeserializeError::BadParameter);
    }
    let leap_version_mode: u8 = buffer[LEAP_VERSION_MODE_AT];

    assert(leap_version_mode & 0x07 == leap_version_mode % 8) by (bit_vector);
    if leap_version_mode & 0x07 != MODE_SERVER {
        return Err(DeserializeError::InvalidResponse);
    }
    let (origin, receive, transmit) = match (
        timestamp_at(buffer, ORIGIN_AT, ORIGIN_AT + 4),
        timestamp_at(buffer, RECEIVE_AT, RECEIVE_AT + 4),
        timestamp_at(buffer, TRANSMIT_AT, TRANSMIT_AT + 4),
    ) {
        (Some(origin), Some(receive), Some(transmit)) => (origin, receive, transmit),
        _ => {
            return Err(DeserializeError::BufferTooSmall);
        },
    };

    // A zero timestamp anywhere is refused. The subtle one is the originate
    // field: a client that clears its stored request time after a reply would
    // otherwise accept a forged response that carries zero there.
    if origin.is_zero() || receive.is_zero() || transmit.is_zero() {
        return Err(DeserializeError::InvalidResponse);
    }

    // The server must echo the timestamp exactly, random bits and all.
    if origin != *request_time {
        return Err(DeserializeError::InvalidResponse);
    }
    if buffer[STRATUM_AT] == KISS_OF_DEATH_STRATUM {
        let code: u32 = match word_at(buffer, REF_ID_AT) {
            Some(code) => code,
            None => {
                return Err(DeserializeError::BufferTooSmall);
            },
        };
        let kind = if code == KOD_DENY || code == KOD_RSTR {
            Rejection::ChangeServer
        } else if code == KOD_RATE {
            Rejection::RetryWithBackoff
        } else {
            Rejection::Other
        };
        return Ok(Verdict::Rejected(Rejected { code, kind }));
    }
    assert(leap_version_mode >> 6 == leap_version_mode / 64) by (bit_vector);
    let leap_second = match leap_version_mode >> 6 {
        0 => LeapSecond::NoLeapSecond,
        1 => LeapSecond::LastMinuteHas61Seconds,
        2 => LeapSecond::LastMinuteHas59Seconds,
        _ => LeapSecond::AlarmServerNotSynchronized,
    };

    // The server's own time is its transmit timestamp; its receive timestamp
    // is only an input to the offset.
    let clock_offset_ms: i64 = calculate_clock_offset(
        request_time,
        &receive,
        &transmit,
        response_rx_time,
    );
    Ok(Verdict::Accepted(Accepted { server_time: transmit, leap_second, clock_offset_ms }))
}

/// How often to ask, for a wanted accuracy.
///
/// A clock that drifts by `clock_freq_tolerance` parts per million loses
/// `desired_accuracy` milliseconds after `accuracy * 1000 / tolerance` seconds.
/// The answer is rounded **down** to a power of two, because a shorter interval
/// is more accurate than asked for and a longer one is not.
///
/// # Errors
///
/// [`PollIntervalError::BadParameter`] if either argument is zero, and
/// [`PollIntervalError::ZeroPollInterval`] when the exact interval is under one
/// second, which this cannot express.
pub fn calculate_poll_interval(
    clock_freq_tolerance: u16,
    desired_accuracy: u16,
) -> (result: Result<u32, PollIntervalError>)
    ensures
        ({
            let exact = exact_poll_interval(clock_freq_tolerance, desired_accuracy);
            if clock_freq_tolerance == 0 || desired_accuracy == 0 {
                result == Err::<u32, PollIntervalError>(PollIntervalError::BadParameter)
            } else if exact == 0 {
                result == Err::<u32, PollIntervalError>(PollIntervalError::ZeroPollInterval)
            } else {
                &&& result is Ok
                &&& is_power_of_two(result->Ok_0 as int)
                &&& result->Ok_0 <= exact < 2 * result->Ok_0
            }
        }),
        is_poll_interval(clock_freq_tolerance, desired_accuracy, result),
{
    if clock_freq_tolerance == 0 || desired_accuracy == 0 {
        return Err(PollIntervalError::BadParameter);
    }
    let exact: u32 = desired_accuracy as u32 * 1000 / clock_freq_tolerance as u32;

    if exact == 0 {
        return Err(PollIntervalError::ZeroPollInterval);
    }
    let mut interval: u32 = 1;
    let ghost mut log2: nat = 0;
    proof {
        power2::lemma2_to64();
    }
    while interval <= exact / 2
        invariant
            1 <= interval <= exact,
            interval == power2::pow2(log2),
        decreases exact - interval,
    {
        proof {
            power2::lemma_pow2_unfold(log2 + 1);
            log2 = log2 + 1;
        }
        interval = interval * 2;
    }
    Ok(interval)
}

/// An SNTP timestamp as UNIX seconds and microseconds.
///
/// Seconds at or above [`TIME_AT_UNIX_EPOCH_SECS`] are era 0 and lose the
/// 70-year offset. Anything below has wrapped into era 1, and counts from
/// [`UNIX_TIME_SECS_AT_SNTP_ERA_1_SMALLEST_TIME`] instead. The two constants
/// sum to exactly 2^32, so the branches meet at the boundary.
#[must_use]
pub fn convert_to_unix_time(sntp_time: &Timestamp) -> (unix_time: (u32, u32))
    ensures
        unix_time.0 == unix_seconds(sntp_time.seconds),
        unix_time.1 == sntp_time.fractions / FRACTION_VALUE_PER_MICROSECOND,
        unix_time.1 < 1_000_000,
        (unix_time.0 as int, unix_time.1 as int) == self::unix_time(*sntp_time),
{
    let seconds: u32 = if sntp_time.seconds >= TIME_AT_UNIX_EPOCH_SECS {
        sntp_time.seconds - TIME_AT_UNIX_EPOCH_SECS
    } else {
        UNIX_TIME_SECS_AT_SNTP_ERA_1_SMALLEST_TIME.wrapping_add(sntp_time.seconds)
    };
    let microseconds: u32 = sntp_time.fractions / FRACTION_VALUE_PER_MICROSECOND;
    (seconds, microseconds)
}

} // verus!

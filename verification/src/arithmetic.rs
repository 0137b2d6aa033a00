//! Millisecond arithmetic on timestamps, across the wrap of the seconds field.
//!
//! A timestamp's seconds field counts from 1900 in 32 bits, so it wraps on
//! 7 February 2036: what lies before is era 0, what lies after is era 1. A
//! client and a server can sit on either side of the wrap, and a plain
//! subtraction is then off by about 136 years. Two clocks are assumed to be
//! within 68 years of each other, so among the three readings of a difference
//! (same era, server one era ahead, client one era ahead) the one that is
//! smallest in absolute value is the right one.

use crate::types::Timestamp;
use vstd::prelude::*;

verus! {

/// How many units of the fractions field make a microsecond: the field has 32
/// bits over one second, so one unit is about 232 picoseconds.
pub const FRACTION_VALUE_PER_MICROSECOND: u32 = 4295;

/// The divisor that turns the fractions field into whole milliseconds.
pub const FRACTION_VALUE_PER_MILLISECOND: u32 = 4_295_000;

/// Half an era in milliseconds.
///
/// At exactly this difference the readings of it cannot be told apart by
/// their size. The tie is resolved by taking the server to be ahead.
pub const CLOCK_OFFSET_MAX_TIME_DIFFERENCE: i64 = 2_147_483_648_000;

/// One whole era in milliseconds, about 136 years.
pub const TOTAL_MILLISECONDS_IN_NTP_ERA: i64 = 4_294_967_296_000;

/// The absolute value of an integer.
pub open spec fn magnitude(value: int) -> int {
    if value < 0 {
        -value
    } else {
        value
    }
}

/// Half of an integer, rounded toward zero.
pub open spec fn half_toward_zero(value: int) -> int {
    if value < 0 {
        -((-value) / 2)
    } else {
        value / 2
    }
}

/// A timestamp in milliseconds since the beginning of its era.
pub open spec fn millis(time: Timestamp) -> int {
    time.seconds * 1000 + time.fractions / FRACTION_VALUE_PER_MILLISECOND
}

/// The reading of a difference between two instants of one era that lies
/// within half an era of zero: the one in `(-half, half]` that agrees with it
/// up to a whole era.
pub open spec fn nearest_reading(difference: int) -> int {
    if difference > CLOCK_OFFSET_MAX_TIME_DIFFERENCE {
        difference - TOTAL_MILLISECONDS_IN_NTP_ERA
    } else if difference <= -CLOCK_OFFSET_MAX_TIME_DIFFERENCE {
        difference + TOTAL_MILLISECONDS_IN_NTP_ERA
    } else {
        difference
    }
}

/// `server - client` in milliseconds, across eras.
pub open spec fn time_difference(server: Timestamp, client: Timestamp) -> int {
    nearest_reading(millis(server) - millis(client))
}

/// The on-wire offset: the mean of the two legs of a round trip.
pub open spec fn clock_offset(
    client_tx: Timestamp,
    server_rx: Timestamp,
    server_tx: Timestamp,
    client_rx: Timestamp,
) -> int {
    half_toward_zero(time_difference(server_rx, client_tx) + time_difference(server_tx, client_rx))
}

/// How many seconds a clock that reads `current` is past `older`, on a seconds
/// field that wraps.
pub open spec fn seconds_between(current: Timestamp, older: Timestamp) -> int {
    (current.seconds - older.seconds) % 0x1_0000_0000
}

/// The difference of two fractions fields in whole milliseconds, rounded
/// toward zero.
pub open spec fn fractions_between(current: Timestamp, older: Timestamp) -> int {
    if current.fractions >= older.fractions {
        (current.fractions - older.fractions) / FRACTION_VALUE_PER_MILLISECOND as int
    } else {
        -((older.fractions - current.fractions) / FRACTION_VALUE_PER_MILLISECOND as int)
    }
}

/// Milliseconds from `older` to `current`, on a 64-bit counter that wraps.
///
/// The seconds wrap with the era. The fractions do not borrow from them: a
/// clock that has gone back by less than a second, in the same second, is
/// credited with almost 2^64 milliseconds.
pub open spec fn elapsed_ms(current: Timestamp, older: Timestamp) -> int {
    (seconds_between(current, older) * 1000 + fractions_between(current, older))
        % 0x1_0000_0000_0000_0000
}

/// Whole milliseconds in a fractions field.
///
/// The largest fraction gives 999 and not 1000: the divisor is 4,295,000 while
/// a second has 4,294,967,296 units, so a little is lost and nothing rounds up
/// into the next second.
#[must_use]
pub fn fractions_to_ms(fractions: u32) -> (ms: u32)
    ensures
        ms == fractions / FRACTION_VALUE_PER_MILLISECOND,
        ms <= 999,
{
    fractions / FRACTION_VALUE_PER_MILLISECOND
}

/// The absolute value, or the largest integer where that does not fit.
#[must_use]
pub fn absolute_of(value: i64) -> (absolute: i64)
    ensures
        absolute == (if value == i64::MIN {
            i64::MAX as int
        } else {
            magnitude(value as int)
        }),
{
    if value >= 0 {
        value
    } else if value == i64::MIN {
        i64::MAX
    } else {
        -value
    }
}

/// A timestamp as signed milliseconds since the beginning of its era.
#[must_use]
pub fn as_millis(t: &Timestamp) -> (ms: i64)
    ensures
        ms == millis(*t),
        0 <= ms < TOTAL_MILLISECONDS_IN_NTP_ERA,
{
    t.seconds as i64 * 1000 + fractions_to_ms(t.fractions) as i64
}

/// `server - client`, in milliseconds, across eras.
///
/// Of the three candidate differences the one that is smallest in absolute
/// value wins. Exactly half an era apart the server is taken to be ahead.
#[must_use]
pub fn safe_time_difference(server: &Timestamp, client: &Timestamp) -> (difference: i64)
    ensures
        difference == time_difference(*server, *client),
        -CLOCK_OFFSET_MAX_TIME_DIFFERENCE < difference <= CLOCK_OFFSET_MAX_TIME_DIFFERENCE,
{
    let server_ms: i64 = as_millis(server);
    let client_ms: i64 = as_millis(client);

    let same_era: i64 = server_ms - client_ms;
    let abs_same_era: i64 = absolute_of(same_era);

    if abs_same_era == CLOCK_OFFSET_MAX_TIME_DIFFERENCE {
        return CLOCK_OFFSET_MAX_TIME_DIFFERENCE;
    }
    let server_era_ahead: i64 = server_ms + TOTAL_MILLISECONDS_IN_NTP_ERA - client_ms;
    let client_era_ahead: i64 = server_ms - (TOTAL_MILLISECONDS_IN_NTP_ERA + client_ms);

    let abs_server_ahead: i64 = absolute_of(server_era_ahead);
    let abs_client_ahead: i64 = absolute_of(client_era_ahead);

    if abs_same_era <= abs_server_ahead && abs_same_era <= abs_client_ahead {
        same_era
    } else if abs_server_ahead < abs_same_era {
        server_era_ahead
    } else {
        client_era_ahead
    }
}

/// The clock offset of a round trip:
///
/// ```text
///                (T2 - T1) + (T3 - T4)
/// clock offset = ---------------------
///                          2
/// ```
///
/// T1 is when the client sent, T2 when the server received, T3 when the server
/// replied and T4 when the client received. The mean of the two legs cancels a
/// symmetric network delay. The division rounds toward zero.
#[must_use]
pub fn calculate_clock_offset(
    client_tx: &Timestamp,
    server_rx: &Timestamp,
    server_tx: &Timestamp,
    client_rx: &Timestamp,
) -> (offset: i64)
    ensures
        offset == clock_offset(*client_tx, *server_rx, *server_tx, *client_rx),
{
    let send: i64 = safe_time_difference(server_rx, client_tx);
    let recv: i64 = safe_time_difference(server_tx, client_rx);
    let sum: i64 = send + recv;
    if sum < 0 {
        -((-sum) / 2)
    } else {
        sum / 2
    }
}

/// Milliseconds from `older` to `current`.
///
/// The seconds handle the wrap of 2036. The fractions are subtracted without a
/// borrow, so a clock that steps back inside one second yields close to 2^64
/// milliseconds, which every deadline has passed.
#[must_use]
pub fn calculate_elapsed_ms(current: &Timestamp, older: &Timestamp) -> (ms: u64)
    ensures
        ms == elapsed_ms(*current, *older),
{
    let seconds: u64 = if current.seconds < older.seconds {
        (u32::MAX - older.seconds) as u64 + 1 + current.seconds as u64
    } else {
        (current.seconds - older.seconds) as u64
    };
    assert(seconds == seconds_between(*current, *older));

    let whole: u64 = seconds * 1000;

    if current.fractions > older.fractions {
        whole + (current.fractions - older.fractions) as u64 / FRACTION_VALUE_PER_MILLISECOND as u64
    } else {
        whole.wrapping_sub(
            (older.fractions - current.fractions) as u64 / FRACTION_VALUE_PER_MILLISECOND as u64,
        )
    }
}

} // verus!

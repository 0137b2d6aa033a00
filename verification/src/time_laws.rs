//! What a result of the time arithmetic must satisfy.
//!
//! Each law pins a result down by the relation it has to its inputs, in plain
//! numbers: 1000 milliseconds to a second, 4,295,000 units of the fractions
//! field to a millisecond, and seconds that wrap at 2^32.

use crate::types::Timestamp;
use crate::{arithmetic, types};
use vstd::prelude::*;

verus! {

/// The zero timestamp, and no other, is zero in both halves.
pub proof fn only_one_timestamp_is_zero(time: Timestamp)
    ensures
        time == types::zero_time() <==> time.seconds == 0 && time.fractions == 0,
{
}

/// An absolute value is the number or its opposite, whichever is not negative.
pub proof fn an_absolute_value_is_one_of_two(value: int)
    ensures
        arithmetic::magnitude(value) >= 0,
        arithmetic::magnitude(value) == value || arithmetic::magnitude(value) == -value,
{
}

/// A timestamp in milliseconds is 1000 for each second, and as many whole
/// milliseconds as its fractions hold: never fewer than none, never more than
/// 999.
pub proof fn milliseconds_count_seconds_and_fractions(time: Timestamp)
    ensures
        ({
            let rest = arithmetic::millis(time) - 1000 * time.seconds;
            &&& 0 <= rest <= 999
            &&& 4_295_000 * rest <= time.fractions < 4_295_000 * (rest + 1)
        }),
{
}

/// A later timestamp of the same era is never fewer milliseconds.
pub proof fn milliseconds_keep_the_order(earlier: Timestamp, later: Timestamp)
    requires
        earlier.seconds < later.seconds || (earlier.seconds == later.seconds && earlier.fractions
            <= later.fractions),
    ensures
        arithmetic::millis(earlier) <= arithmetic::millis(later),
{
}

/// A difference of two timestamps agrees with that of their milliseconds up to
/// one era of 2^32 seconds, and lies within half an era of zero, half an era
/// itself included on the side of a server that is ahead. Only one number does.
pub proof fn a_difference_is_the_near_one(server: Timestamp, client: Timestamp)
    ensures
        ({
            let difference = arithmetic::time_difference(server, client);
            let plain = arithmetic::millis(server) - arithmetic::millis(client);
            &&& -2_147_483_648_000 < difference <= 2_147_483_648_000
            &&& difference == plain || difference == plain + 4_294_967_296_000 || difference
                == plain - 4_294_967_296_000
        }),
{
}

/// A timestamp differs from itself by nothing.
pub proof fn a_timestamp_is_no_time_apart_from_itself(time: Timestamp)
    ensures
        arithmetic::time_difference(time, time) == 0,
{
}

/// A clock that is moved forward by whole seconds, through the wrap of the
/// seconds field or not, gains 1000 milliseconds for each, as long as the
/// difference stays within half an era.
pub proof fn a_difference_grows_with_the_server(
    server: Timestamp,
    client: Timestamp,
    moved: Timestamp,
    seconds: int,
)
    requires
        0 <= seconds,
        moved.fractions == server.fractions,
        moved.seconds == server.seconds + seconds || moved.seconds == server.seconds + seconds
            - 4_294_967_296,
        arithmetic::time_difference(server, client) + 1000 * seconds <= 2_147_483_648_000,
    ensures
        arithmetic::time_difference(moved, client) == arithmetic::time_difference(server, client)
            + 1000 * seconds,
{
    milliseconds_count_seconds_and_fractions(server);
    milliseconds_count_seconds_and_fractions(moved);
    a_difference_is_the_near_one(server, client);
    a_difference_is_the_near_one(moved, client);
}

/// **The mean of the two legs.** Twice the offset is the sum of the two legs of
/// the round trip, or one less in absolute value: an odd millisecond is rounded
/// toward zero. So it is for all four timestamps, whatever the two delays.
pub proof fn an_offset_is_the_mean_of_the_legs(
    client_tx: Timestamp,
    server_rx: Timestamp,
    server_tx: Timestamp,
    client_rx: Timestamp,
)
    ensures
        ({
            let offset = arithmetic::clock_offset(client_tx, server_rx, server_tx, client_rx);
            let legs = arithmetic::time_difference(server_rx, client_tx)
                + arithmetic::time_difference(server_tx, client_rx);
            &&& -1 <= 2 * offset - legs <= 1
            &&& legs >= 0 ==> 0 <= 2 * offset <= legs
            &&& legs <= 0 ==> legs <= 2 * offset <= 0
        }),
{
}

/// The two legs count alike: a round trip seen backwards, with the two of them
/// exchanged, has the same offset.
pub proof fn the_two_legs_count_alike(
    client_tx: Timestamp,
    server_rx: Timestamp,
    server_tx: Timestamp,
    client_rx: Timestamp,
)
    ensures
        arithmetic::clock_offset(client_tx, server_rx, server_tx, client_rx)
            == arithmetic::clock_offset(client_rx, server_tx, server_rx, client_tx),
{
}

/// The offset is half of a number, rounded toward zero.
pub proof fn a_half_is_rounded_toward_zero(value: int)
    ensures
        value >= 0 ==> 0 <= value - 2 * arithmetic::half_toward_zero(value) <= 1,
        value <= 0 ==> -1 <= value - 2 * arithmetic::half_toward_zero(value) <= 0,
{
}

/// **Elapsed time.** The seconds that a clock is past an earlier reading are
/// counted on a field that wraps at 2^32, 1000 milliseconds for each. The
/// fractions add what they have gained in whole milliseconds, or take off what
/// they have lost. Where they have lost a millisecond or more and no second has
/// passed, the count wraps below zero on 64 bits.
pub proof fn elapsed_time_counts_seconds_and_fractions(
    current: Timestamp,
    older: Timestamp,
    seconds: int,
)
    requires
        0 <= seconds < 4_294_967_296,
        seconds == current.seconds - older.seconds || seconds == current.seconds - older.seconds
            + 4_294_967_296,
    ensures
        ({
            let elapsed = arithmetic::elapsed_ms(current, older);
            let gained = elapsed - 1000 * seconds;
            let lost = older.fractions - current.fractions;
            if lost <= 0 {
                4_295_000 * gained <= -lost < 4_295_000 * (gained + 1)
            } else if seconds == 0 && lost >= 4_295_000 {
                4_295_000 * (18_446_744_073_709_551_616 - elapsed) <= lost < 4_295_000 * (
                18_446_744_073_709_551_616 - elapsed + 1)
            } else {
                4_295_000 * -gained <= lost < 4_295_000 * (-gained + 1)
            }
        }),
        0 <= arithmetic::elapsed_ms(current, older) < 18_446_744_073_709_551_616,
{
    assert(arithmetic::seconds_between(current, older) == seconds);
    assert(-999 <= arithmetic::fractions_between(current, older) <= 999);
}

/// No time has elapsed at the same reading, and a whole second later it is
/// exactly 1000 milliseconds, through the wrap too.
pub proof fn a_second_is_a_thousand_milliseconds(older: Timestamp, current: Timestamp)
    requires
        current.fractions == older.fractions,
        current.seconds == older.seconds + 1 || (older.seconds == 4_294_967_295 && current.seconds
            == 0),
    ensures
        arithmetic::elapsed_ms(older, older) == 0,
        arithmetic::elapsed_ms(current, older) == 1000,
{
    elapsed_time_counts_seconds_and_fractions(older, older, 0);
    elapsed_time_counts_seconds_and_fractions(current, older, 1);
}

} // verus!

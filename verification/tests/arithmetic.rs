//! The time arithmetic: the era wrap, the tie at half an era, and rounding.

use rusty_rtos_sntp::arithmetic::{
    absolute_of, as_millis, calculate_clock_offset, calculate_elapsed_ms, fractions_to_ms,
    safe_time_difference, CLOCK_OFFSET_MAX_TIME_DIFFERENCE, TOTAL_MILLISECONDS_IN_NTP_ERA,
};
use rusty_rtos_sntp::{
    convert_to_unix_time, Timestamp, TIME_AT_UNIX_EPOCH_SECS,
    UNIX_TIME_SECS_AT_SNTP_ERA_1_SMALLEST_TIME,
};

/// The two branches of the UNIX conversion meet at the boundary, because the
/// two era constants sum to exactly 2^32.
#[test]
fn the_two_era_constants_are_complementary() {
    assert_eq!(
        u64::from(TIME_AT_UNIX_EPOCH_SECS) + u64::from(UNIX_TIME_SECS_AT_SNTP_ERA_1_SMALLEST_TIME),
        1u64 << 32,
        "the era constants no longer sum to 2^32, so the two branches no longer meet at the boundary"
    );

    // And the boundary second itself, computed both ways.
    let boundary = Timestamp::new(TIME_AT_UNIX_EPOCH_SECS, 0);
    let (era_zero_answer, _) = convert_to_unix_time(&boundary);
    let era_one_answer =
        UNIX_TIME_SECS_AT_SNTP_ERA_1_SMALLEST_TIME.wrapping_add(TIME_AT_UNIX_EPOCH_SECS);
    assert_eq!(era_zero_answer, era_one_answer);
    assert_eq!(era_zero_answer, 0);
}

/// The equality cases of the era comparison are exactly the half-era tie.
#[test]
fn the_era_comparison_can_only_tie_at_half_an_era() {
    let era = TOTAL_MILLISECONDS_IN_NTP_ERA;
    let half = CLOCK_OFFSET_MAX_TIME_DIFFERENCE;

    // A spread of differences, with the tie and its neighbours.
    let mut probes = alloc_probes(era, half);
    probes.sort_unstable();

    for d in probes {
        let same = absolute_of(d);
        let server_ahead = absolute_of(d.saturating_add(era));
        let client_ahead = absolute_of(d.saturating_sub(era));

        if same == server_ahead || same == client_ahead {
            assert_eq!(same, half, "a tie at {d} that is not half an era");
        }
    }
}

/// The tie, its neighbours, the era boundaries, and a spread across the range.
fn alloc_probes(era: i64, half: i64) -> [i64; 17] {
    [
        0,
        1,
        -1,
        half,
        -half,
        half - 1,
        -half + 1,
        half + 1,
        -half - 1,
        era,
        -era,
        era - 1,
        -era + 1,
        1_000,
        -1_000,
        i64::from(i32::MAX),
        -i64::from(i32::MAX),
    ]
}

/// The largest fraction converts to 999 ms, never 1000.
#[test]
fn fractions_never_round_up_into_the_next_second() {
    assert_eq!(fractions_to_ms(u32::MAX), 999);
    assert_eq!(fractions_to_ms(0), 0);
    // Half a second, which an exact divisor would call 500.
    assert_eq!(fractions_to_ms(0x8000_0000), 499);
}

#[test]
fn the_absolute_value_saturates() {
    assert_eq!(absolute_of(-7), 7);
    assert_eq!(absolute_of(7), 7);
    assert_eq!(absolute_of(0), 0);
    assert_eq!(absolute_of(i64::MIN), i64::MAX);
}

#[test]
fn milliseconds_of_a_timestamp() {
    assert_eq!(as_millis(&Timestamp::new(0, 0)), 0);
    assert_eq!(as_millis(&Timestamp::new(1, 0x8000_0000)), 1_499);
    assert_eq!(as_millis(&Timestamp::new(u32::MAX, u32::MAX)), 4_294_967_295_999);
}

#[test]
fn a_difference_is_taken_across_the_era_wrap() {
    let before = Timestamp::new(u32::MAX, 0);
    let after = Timestamp::new(4, 0);
    assert_eq!(safe_time_difference(&after, &before), 5_000);
    assert_eq!(safe_time_difference(&before, &after), -5_000);
    assert_eq!(safe_time_difference(&after, &after), 0);
}

#[test]
fn half_an_era_apart_the_server_is_ahead_from_both_sides() {
    let early = Timestamp::new(0, 0);
    let late = Timestamp::new(0x8000_0000, 0);
    assert_eq!(safe_time_difference(&late, &early), CLOCK_OFFSET_MAX_TIME_DIFFERENCE);
    assert_eq!(safe_time_difference(&early, &late), CLOCK_OFFSET_MAX_TIME_DIFFERENCE);

    // One second off the tie, the nearer reading wins.
    let later = Timestamp::new(0x8000_0001, 0);
    assert_eq!(safe_time_difference(&later, &early), -2_147_483_647_000);
    assert_eq!(safe_time_difference(&early, &later), 2_147_483_647_000);
}

#[test]
fn the_offset_cancels_a_symmetric_delay() {
    // The server is 10 s ahead, each leg takes 3 s, the server takes 1 s.
    let t1 = Timestamp::new(1000, 0);
    let t2 = Timestamp::new(1013, 0);
    let t3 = Timestamp::new(1014, 0);
    let t4 = Timestamp::new(1007, 0);
    assert_eq!(calculate_clock_offset(&t1, &t2, &t3, &t4), 10_000);
}

#[test]
fn the_offset_rounds_toward_zero() {
    let ms = 4_295_000u32;
    let zero = Timestamp::new(10, 0);
    let one = Timestamp::new(10, ms);
    assert_eq!(calculate_clock_offset(&zero, &one, &zero, &zero), 0);
    assert_eq!(calculate_clock_offset(&one, &zero, &zero, &zero), 0);
    let three = Timestamp::new(10, 3 * ms);
    assert_eq!(calculate_clock_offset(&zero, &three, &zero, &zero), 1);
    assert_eq!(calculate_clock_offset(&three, &zero, &zero, &zero), -1);
}

#[test]
fn elapsed_time_crosses_the_era_wrap() {
    let older = Timestamp::new(u32::MAX, 0);
    let current = Timestamp::new(0, 0x8000_0000);
    assert_eq!(calculate_elapsed_ms(&current, &older), 1_499);
    assert_eq!(calculate_elapsed_ms(&Timestamp::new(7, 0), &Timestamp::new(5, 0x8000_0000)), 1_501);
}

/// A clock that steps back inside one second is past every deadline.
#[test]
fn a_step_back_inside_a_second_underflows() {
    let older = Timestamp::new(1000, 0x8000_0000);
    let current = Timestamp::new(1000, 0);
    assert_eq!(calculate_elapsed_ms(&current, &older), 0u64.wrapping_sub(499));
    assert_eq!(calculate_elapsed_ms(&older, &older), 0);
}

#[test]
fn unix_time_on_both_sides_of_the_wrap() {
    assert_eq!(convert_to_unix_time(&Timestamp::new(2_208_988_801, 4_295)), (1, 1));
    assert_eq!(convert_to_unix_time(&Timestamp::new(u32::MAX, u32::MAX)), (2_085_978_495, 999_992));
    assert_eq!(convert_to_unix_time(&Timestamp::new(0, 0)), (2_085_978_496, 0));
    assert_eq!(convert_to_unix_time(&Timestamp::new(2_208_988_799, 0)), (u32::MAX, 0));
}

//! The packet codec on given packets.

use rusty_rtos_sntp::wire::{be_bytes, put_word, timestamp_at, word_at};
use rusty_rtos_sntp::workload::{run, write_ts, Tally, REPS};
use rusty_rtos_sntp::{
    calculate_poll_interval, convert_to_unix_time, deserialize_response, serialize_request,
    Accepted, DeserializeError, LeapSecond, PollIntervalError, Rejected, Rejection, SerializeError,
    Timestamp, Verdict, KISS_OF_DEATH_CODE_LENGTH, PACKET_BASE_SIZE,
};

fn response(first: u8, stratum: u8, code: &[u8; 4], times: [(u32, u32); 3]) -> [u8; 48] {
    let mut packet = [0u8; 48];
    packet[0] = first;
    packet[1] = stratum;
    packet[12..16].copy_from_slice(code);
    for (i, (seconds, fractions)) in times.iter().enumerate() {
        write_ts(&mut packet, 24 + 8 * i, *seconds, *fractions);
    }
    packet
}

const REQUEST: Timestamp = Timestamp { seconds: 1000, fractions: 7 };
const ECHO: [(u32, u32); 3] = [(1000, 7), (1002, 0), (1003, 0)];

fn read(packet: &[u8]) -> Result<Verdict, DeserializeError> {
    deserialize_response(&REQUEST, &Timestamp::new(1001, 0), packet)
}

fn kiss(code: &[u8; 4]) -> Result<Verdict, DeserializeError> {
    read(&response(0x24, 0, code, ECHO))
}

#[test]
fn a_request_is_zero_but_for_its_head_and_its_time() {
    let mut time = Timestamp::new(0x0102_0304, 0x0506_0008);
    let mut buffer = [0xAAu8; PACKET_BASE_SIZE + 4];
    assert_eq!(serialize_request(&mut time, 0x1230_FFFF, &mut buffer), Ok(()));
    assert_eq!(time, Timestamp::new(0x0102_0304, 0x0506_1238));
    let mut expected = [0u8; PACKET_BASE_SIZE + 4];
    expected[0] = 0x23;
    expected[40..48].copy_from_slice(&[1, 2, 3, 4, 5, 6, 0x12, 0x38]);
    expected[48..].copy_from_slice(&[0xAA; 4]);
    assert_eq!(buffer, expected);
}

#[test]
fn the_random_bits_never_carry_into_the_seconds() {
    let mut time = Timestamp::new(5, u32::MAX);
    let mut buffer = [0u8; 48];
    assert_eq!(serialize_request(&mut time, u32::MAX, &mut buffer), Ok(()));
    assert_eq!(time, Timestamp::new(5, u32::MAX));
}

#[test]
fn a_request_needs_room_and_a_time() {
    let mut zero = Timestamp::default();
    let mut small = [0xAAu8; 47];
    // The size is checked first.
    assert_eq!(
        serialize_request(&mut zero, 1, &mut small),
        Err(SerializeError::BufferTooSmall)
    );
    let mut enough = [0xAAu8; 48];
    assert_eq!(
        serialize_request(&mut zero, u32::MAX, &mut enough),
        Err(SerializeError::BadParameter)
    );
    assert!(zero.is_zero());
    assert_eq!(enough, [0xAA; 48]);
}

#[test]
fn a_response_is_timed() {
    assert_eq!(
        read(&response(0x24, 1, &[0; 4], ECHO)),
        Ok(Verdict::Accepted(Accepted {
            server_time: Timestamp::new(1003, 0),
            leap_second: LeapSecond::NoLeapSecond,
            clock_offset_ms: 2_000,
        }))
    );
}

#[test]
fn the_leap_indicator_is_the_two_top_bits() {
    for (first, leap_second) in [
        (0x24, LeapSecond::NoLeapSecond),
        (0x64, LeapSecond::LastMinuteHas61Seconds),
        (0xA4, LeapSecond::LastMinuteHas59Seconds),
        (0xE4, LeapSecond::AlarmServerNotSynchronized),
    ] {
        match read(&response(first, 1, &[0; 4], ECHO)) {
            Ok(Verdict::Accepted(accepted)) => assert_eq!(accepted.leap_second, leap_second),
            other => panic!("refused: {other:?}"),
        }
    }
}

#[test]
fn a_kiss_code_says_what_to_do() {
    for (code, kind) in [
        (b"DENY", Rejection::ChangeServer),
        (b"RSTR", Rejection::ChangeServer),
        (b"RATE", Rejection::RetryWithBackoff),
        (b"INIT", Rejection::Other),
    ] {
        let expected = Rejected { code: u32::from_be_bytes(*code), kind };
        assert_eq!(kiss(code), Ok(Verdict::Rejected(expected)));
        assert_eq!(&expected.code_bytes(), code);
        assert_eq!(expected.code_bytes().len(), KISS_OF_DEATH_CODE_LENGTH);
    }
}

#[test]
fn a_response_must_answer_the_request() {
    let good = response(0x24, 1, &[0; 4], ECHO);
    assert_eq!(read(&good[..47]), Err(DeserializeError::BufferTooSmall));
    assert_eq!(
        deserialize_response(&Timestamp::new(0, 0), &REQUEST, &good),
        Err(DeserializeError::BadParameter)
    );
    // The size is checked first.
    assert_eq!(
        deserialize_response(&Timestamp::new(0, 0), &REQUEST, &good[..47]),
        Err(DeserializeError::BufferTooSmall)
    );
    let invalid: Result<Verdict, DeserializeError> = Err(DeserializeError::InvalidResponse);
    // Not from a server.
    assert_eq!(read(&response(0x23, 1, &[0; 4], ECHO)), invalid);
    // An echo that is off in either half.
    assert_eq!(read(&response(0x24, 1, &[0; 4], [(1000, 8), ECHO[1], ECHO[2]])), invalid);
    assert_eq!(read(&response(0x24, 1, &[0; 4], [(1001, 7), ECHO[1], ECHO[2]])), invalid);
    // A zero timestamp.
    assert_eq!(read(&response(0x24, 1, &[0; 4], [(0, 0), ECHO[1], ECHO[2]])), invalid);
    assert_eq!(read(&response(0x24, 1, &[0; 4], [ECHO[0], (0, 0), ECHO[2]])), invalid);
    assert_eq!(read(&response(0x24, 1, &[0; 4], [ECHO[0], ECHO[1], (0, 0)])), invalid);
    // A refusal is validated like any other response.
    assert_eq!(read(&response(0x24, 0, b"DENY", [(1000, 8), ECHO[1], ECHO[2]])), invalid);
}

#[test]
fn the_fields_that_do_not_matter_do_not_matter() {
    let plain = response(0x24, 1, &[0; 4], ECHO);
    for fill in [0x00, 0xFF, 0x5A, 0xA5] {
        let mut filled = plain;
        for (at, byte) in filled.iter_mut().enumerate() {
            if (2..24).contains(&at) {
                *byte = fill;
            }
        }
        assert_eq!(read(&filled), read(&plain));
    }
}

#[test]
fn an_offset_is_taken_across_the_era_wrap() {
    let request = Timestamp::new(u32::MAX, 0);
    let packet = response(0x24, 1, &[0; 4], [(u32::MAX, 0), (5, 0), (5, 0)]);
    match deserialize_response(&request, &Timestamp::new(u32::MAX, 0), &packet) {
        Ok(Verdict::Accepted(accepted)) => assert_eq!(accepted.clock_offset_ms, 6_000),
        other => panic!("refused: {other:?}"),
    }
    let request = Timestamp::new(5, 0);
    let packet = response(0x24, 1, &[0; 4], [(5, 0), (u32::MAX, 0), (u32::MAX, 0)]);
    match deserialize_response(&request, &Timestamp::new(5, 0), &packet) {
        Ok(Verdict::Accepted(accepted)) => assert_eq!(accepted.clock_offset_ms, -6_000),
        other => panic!("refused: {other:?}"),
    }
}

/// These calls reach every outcome that the codec has, and their offsets have
/// both signs and cross the era wrap.
#[test]
fn the_workload_reaches_every_outcome() {
    let mut zero = Timestamp::new(0, 0);
    let mut time = REQUEST;
    let mut buffer = [0u8; 48];
    // The client is still in era 0, the server 2,000,010 seconds into era 1.
    let late = Timestamp::new(u32::MAX, 0);
    let far = response(0x24, 1, &[0; 4], [(u32::MAX, 0), (2_000_010, 0), (2_000_010, 0)]);
    let behind = response(0xE4, 1, &[0; 4], [(1000, 7), (900, 0), (900, 0)]);
    let verdicts = vec![
        read(&response(0x24, 1, &[0; 4], ECHO)),
        read(&response(0x64, 1, &[0; 4], ECHO)),
        read(&response(0xA4, 1, &[0; 4], ECHO)),
        deserialize_response(&late, &late, &far),
        read(&behind),
        read(&response(0x23, 1, &[0; 4], ECHO)),
        kiss(b"DENY"),
        kiss(b"RATE"),
        kiss(b"STEP"),
    ];
    let mut seen: Vec<&str> = Vec::new();
    let mut leaps: Vec<LeapSecond> = Vec::new();
    let mut offsets: Vec<i64> = Vec::new();
    for verdict in &verdicts {
        seen.push(match verdict {
            Ok(Verdict::Accepted(accepted)) => {
                leaps.push(accepted.leap_second);
                offsets.push(accepted.clock_offset_ms);
                "Success"
            }
            Ok(Verdict::Rejected(rejected)) => match rejected.kind {
                Rejection::ChangeServer => "RejectedChangeServer",
                Rejection::RetryWithBackoff => "RejectedRetryWithBackoff",
                Rejection::Other => "RejectedOtherCode",
            },
            Err(DeserializeError::BadParameter) => "BadParameter",
            Err(DeserializeError::BufferTooSmall) => "BufferTooSmall",
            Err(DeserializeError::InvalidResponse) => "InvalidResponse",
        });
    }
    for result in [
        serialize_request(&mut time, 1, &mut buffer),
        serialize_request(&mut zero, 1, &mut buffer),
        serialize_request(&mut zero, 1, &mut buffer[..47]),
    ] {
        seen.push(match result {
            Ok(()) => "Success",
            Err(SerializeError::BadParameter) => "BadParameter",
            Err(SerializeError::BufferTooSmall) => "BufferTooSmall",
        });
    }
    for result in [
        calculate_poll_interval(1, 1),
        calculate_poll_interval(0, 1),
        calculate_poll_interval(u16::MAX, 1),
    ] {
        seen.push(match result {
            Ok(_) => "Success",
            Err(PollIntervalError::BadParameter) => "BadParameter",
            Err(PollIntervalError::ZeroPollInterval) => "ZeroPollInterval",
        });
    }

    for required in [
        "Success",
        "BadParameter",
        "BufferTooSmall",
        "InvalidResponse",
        "RejectedChangeServer",
        "RejectedRetryWithBackoff",
        "RejectedOtherCode",
        "ZeroPollInterval",
    ] {
        assert!(
            seen.contains(&required),
            "the workload never produces {required}: it reaches only {seen:?}"
        );
    }
    for leap_second in [
        LeapSecond::NoLeapSecond,
        LeapSecond::LastMinuteHas61Seconds,
        LeapSecond::LastMinuteHas59Seconds,
        LeapSecond::AlarmServerNotSynchronized,
    ] {
        assert!(
            leaps.contains(&leap_second),
            "the workload never produces the leap indicator {leap_second:?}"
        );
    }
    assert!(
        offsets.iter().any(|o| *o < 0),
        "no negative clock offset: the client is never ahead of the server"
    );
    assert!(offsets.contains(&2_000_011_000), "the offset across the era wrap is off");
    assert!(
        offsets.iter().any(|o| *o > 1_000_000_000),
        "no clock offset large enough to have crossed an NTP era"
    );
}

#[test]
fn a_poll_interval_is_rounded_down_to_a_power_of_two() {
    // 300 ms at 30 ppm is exactly 10000 seconds.
    assert_eq!(calculate_poll_interval(30, 300), Ok(8_192));
    assert_eq!(calculate_poll_interval(1, u16::MAX), Ok(33_554_432));
    // Exactly a power of two, one below, one second.
    assert_eq!(calculate_poll_interval(125, 128), Ok(1_024));
    assert_eq!(calculate_poll_interval(1_000, 1_023), Ok(512));
    assert_eq!(calculate_poll_interval(1_000, 1), Ok(1));
    assert_eq!(calculate_poll_interval(1_001, 1), Err(PollIntervalError::ZeroPollInterval));
    assert_eq!(calculate_poll_interval(0, 1), Err(PollIntervalError::BadParameter));
    assert_eq!(calculate_poll_interval(1, 0), Err(PollIntervalError::BadParameter));
}

#[test]
fn unix_time_has_microseconds() {
    assert_eq!(convert_to_unix_time(&Timestamp::new(2_208_988_800, 0)), (0, 0));
    assert_eq!(convert_to_unix_time(&Timestamp::new(2_208_988_801, 4_295)), (1, 1));
    assert_eq!(convert_to_unix_time(&Timestamp::new(0, u32::MAX)), (2_085_978_496, 999_992));
}

#[test]
fn words_stand_in_network_byte_order() {
    assert_eq!(be_bytes(0x0102_0304), [1, 2, 3, 4]);
    assert_eq!(word_at(&[9, 1, 2, 3, 4], 1), Some(0x0102_0304));
    assert_eq!(word_at(&[9, 1, 2, 3, 4], 2), None);
    assert_eq!(word_at(&[1, 2, 3], 0), None);
    assert_eq!(word_at(&[1, 2, 3, 4], usize::MAX), None);
    let mut buffer = [0u8; 6];
    put_word(&mut buffer, 1, 0xA1B2_C3D4);
    assert_eq!(buffer, [0, 0xA1, 0xB2, 0xC3, 0xD4, 0]);
    put_word(&mut buffer, 3, 0);
    assert_eq!(buffer, [0, 0xA1, 0xB2, 0xC3, 0xD4, 0]);
    assert_eq!(
        timestamp_at(&[0, 0, 0, 1, 0, 0, 0, 2], 0, 4),
        Some(Timestamp::new(1, 2))
    );
    assert_eq!(timestamp_at(&[0, 0, 0, 1, 0, 0, 0, 2], 0, 5), None);
}

#[test]
fn a_timestamp_is_written_as_far_as_there_is_room() {
    let mut buffer = [9u8; 6];
    write_ts(&mut buffer, 1, 0x0102_0304, 0x0506_0708);
    assert_eq!(buffer, [9, 1, 2, 3, 4, 5]);
    write_ts(&mut buffer, usize::MAX, 0, 0);
    assert_eq!(buffer, [9, 1, 2, 3, 4, 5]);
}

#[test]
fn the_corpus_is_tallied() {
    assert_eq!(run(0), Tally { ok: 0, refused: 0, checksum: 0 });
    assert_eq!(run(1), Tally { ok: 20, refused: 28, checksum: 116_711_753_218 });
    assert_eq!(run(REPS), Tally { ok: 9_596, refused: 9_604, checksum: 46_684_728_103_990 });
}

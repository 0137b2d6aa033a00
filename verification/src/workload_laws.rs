//! What the tally of the corpus must satisfy.

use crate::types::Timestamp;
use crate::workload::Tally;
use crate::{serializer, wire, workload};
use vstd::prelude::*;

verus! {

/// What the corpus holds: six times and eight first bytes.
pub proof fn the_corpus_is_fixed()
    ensures
        workload::seconds_corpus() == seq![
            0u32,
            1u32,
            3_913_056_000u32,
            4_294_967_294u32,
            4_294_967_295u32,
            2_085_978_496u32,
        ],
        workload::lvm_corpus() == seq![
            0x24u8,
            0x1Cu8,
            0x04u8,
            0xE4u8,
            0x00u8,
            0xFFu8,
            0x23u8,
            0x25u8,
        ],
{
}

/// A timestamp is laid over the bytes it meets, and no others.
pub proof fn a_timestamp_is_laid_over_its_bytes(bytes: Seq<u8>, at: int, time: Timestamp, i: int)
    requires
        0 <= at,
        0 <= i < bytes.len(),
    ensures
        ({
            let part = wire::word_to_bytes(time.seconds) + wire::word_to_bytes(time.fractions);
            let laid = workload::overlaid(bytes, at, workload::stamp_bytes(time));
            &&& laid.len() == bytes.len()
            &&& laid[i] == (if at <= i < at + 8 {
                part[i - at]
            } else {
                bytes[i]
            })
        }),
{
}

/// The reply of a case echoes its request, and carries times that are not zero:
/// one and two seconds later, on a field that wraps.
proof fn a_reply_echoes_its_request(request: Timestamp, seconds: u32, lvm: u8, stratum: u8)
    ensures
        ({
            let reply = workload::reply(request, seconds, lvm, stratum);
            &&& reply.len() == 48
            &&& reply[0] == lvm
            &&& reply[1] == stratum
            &&& wire::stamp(reply, 24) == request
            &&& wire::stamp(reply, 32).fractions == 0x4000_0000
            &&& wire::stamp(reply, 40).fractions == 0x8000_0000
        }),
{
    let reply = workload::reply(request, seconds, lvm, stratum);
    let received = Timestamp { seconds: workload::later(seconds, 1), fractions: 0x4000_0000 };
    let sent = Timestamp { seconds: workload::later(seconds, 2), fractions: 0x8000_0000 };
    stamp_bytes_read_back(request);
    stamp_bytes_read_back(received);
    stamp_bytes_read_back(sent);
    assert(reply.subrange(24, 32) =~= workload::stamp_bytes(request).subrange(0, 8));
    assert(reply.subrange(32, 40) =~= workload::stamp_bytes(received).subrange(0, 8));
    assert(reply.subrange(40, 48) =~= workload::stamp_bytes(sent).subrange(0, 8));
    wire::same_bytes_same_stamp(reply, 24, workload::stamp_bytes(request), 0);
    wire::same_bytes_same_stamp(reply, 32, workload::stamp_bytes(received), 0);
    wire::same_bytes_same_stamp(reply, 40, workload::stamp_bytes(sent), 0);
}

proof fn stamp_bytes_read_back(time: Timestamp)
    ensures
        wire::stamp(workload::stamp_bytes(time), 0) == time,
{
    let bytes = workload::stamp_bytes(time);
    let seconds = wire::word_to_bytes(time.seconds);
    let fractions = wire::word_to_bytes(time.fractions);
    wire::word_round_trips(time.seconds);
    wire::word_round_trips(time.fractions);
    assert(bytes.subrange(0, 4) =~= seconds.subrange(0, 4));
    assert(bytes.subrange(4, 8) =~= fractions.subrange(0, 4));
    wire::same_bytes_same_word(bytes, 0, seconds, 0);
    wire::same_bytes_same_word(bytes, 4, fractions, 0);
}

/// A reply is read exactly where its first byte has mode 4, a server, and where
/// there was a request: only the very first case asks at the time zero.
pub proof fn a_case_is_read_where_a_server_answers(rep: u32, seconds: u32, lvm: u8, stratum: u8)
    ensures
        workload::is_read(rep, seconds, lvm, stratum) <==> lvm % 8 == 4 && !(rep == 0 && seconds
            == 0),
        workload::request_time(rep, seconds).seconds == seconds,
{
    let time = workload::request_time(rep, seconds);
    let reply = workload::reply(time, seconds, lvm, stratum);
    a_case_asks_but_once_at_zero(rep, seconds);
    a_reply_echoes_its_request(time, seconds, lvm, stratum);
    an_echo_is_read(reply, time, workload::arrival_time(seconds));
    assert(workload::is_read(rep, seconds, lvm, stratum) == (serializer::reading(
        reply,
        time,
        workload::arrival_time(seconds),
    ) is Ok)) by {
        reveal(workload::is_read);
    }
}

proof fn an_echo_is_read(packet: Seq<u8>, request: Timestamp, received_at: Timestamp)
    requires
        packet.len() == 48,
        wire::stamp(packet, 24) == request,
        wire::stamp(packet, 32).fractions != 0,
        wire::stamp(packet, 40).fractions != 0,
    ensures
        serializer::reading(packet, request, received_at) is Ok <==> packet[0] % 8 == 4 && !(
        request.seconds == 0 && request.fractions == 0),
{
}

/// Seven units a round come back to zero only after 2^32 rounds.
proof fn a_case_asks_but_once_at_zero(rep: u32, seconds: u32)
    ensures
        ({
            let asking = workload::asking_time(rep, seconds);
            let time = workload::request_time(rep, seconds);
            &&& asking.seconds == 0 && asking.fractions == 0 <==> rep == 0 && seconds == 0
            &&& time.seconds == 0 && time.fractions == 0 <==> rep == 0 && seconds == 0
            &&& time.seconds == seconds
        }),
{
    crate::laws::randomizing_keeps_the_time(
        workload::asking_time(rep, seconds),
        rep.wrapping_add(1),
    );
    assert(rep.wrapping_mul(7) == 0 <==> rep == 0) by {
        assert((rep * 7) % 0x1_0000_0000 == 0 <==> rep == 0);
    }
}

/// **The tally.** Each round has 48 cases, of which 24 are read; in the very
/// first round it is four fewer, because a request cannot be made at the time
/// zero.
pub proof fn the_tally_counts_every_case(reps: u32)
    ensures
        ({
            let tally = workload::tally_before(reps as int, 0, 0);
            &&& tally.ok == (if reps == 0 {
                0
            } else {
                24 * reps - 4
            })
            &&& tally.refused == (if reps == 0 {
                0
            } else {
                24 * reps + 4
            })
        }),
    decreases reps,
{
    if reps > 0 {
        let rep = (reps - 1) as u32;
        the_tally_counts_every_case(rep);
        the_tally_of_a_round(rep, 6);
    }
}

/// How many of the first bytes up to the one that is named are a server's.
spec fn servers_among(l: int) -> int {
    if l < 4 {
        l
    } else {
        4
    }
}

proof fn the_tally_of_a_time(rep: u32, s: int, l: int)
    requires
        0 <= s < 6,
        0 <= l <= 8,
        workload::tally_before(rep as int, s, 0).ok < 0x1000_0000_0000_0000,
        workload::tally_before(rep as int, s, 0).refused < 0x1000_0000_0000_0000,
    ensures
        ({
            let first = workload::tally_before(rep as int, s, 0);
            let tally = workload::tally_before(rep as int, s, l);
            let read = if rep == 0 && s == 0 {
                0
            } else {
                servers_among(l)
            };
            &&& tally.ok == first.ok + read
            &&& tally.refused == first.refused + l - read
        }),
    decreases l,
{
    if l > 0 {
        the_tally_of_a_time(rep, s, l - 1);
        let seconds = workload::seconds_corpus()[s];
        assert(seconds == 0 <==> s == 0);
        a_case_is_read_where_a_server_answers(
            rep,
            seconds,
            workload::lvm_corpus()[l - 1],
            s as u8,
        );
        assert(workload::lvm_corpus()[l - 1] % 8 == 4 <==> l <= 4);
    }
}

proof fn the_tally_of_a_round(rep: u32, s: int)
    requires
        0 <= s <= 6,
        workload::tally_before(rep as int, 0, 0).ok <= 24 * rep,
        workload::tally_before(rep as int, 0, 0).refused <= 24 * rep + 4,
    ensures
        ({
            let first = workload::tally_before(rep as int, 0, 0);
            let tally = workload::tally_before(rep as int, s, 0);
            let missed = if rep == 0 && s > 0 {
                4int
            } else {
                0
            };
            &&& tally.ok == first.ok + 4 * s - missed
            &&& tally.refused == first.refused + 4 * s + missed
        }),
    decreases s,
{
    if s > 0 {
        the_tally_of_a_round(rep, s - 1);
        the_tally_of_a_time(rep, s - 1, 8);
    }
}

/// **The checksum.** A case adds the two halves of its request's time, where
/// there was a request, and its place in the round, counted from one, where its
/// reply was read.
pub proof fn a_case_adds_its_request_and_its_place(
    tally: Tally,
    rep: u32,
    seconds_index: int,
    lvm_index: int,
)
    requires
        0 <= seconds_index < 6,
        0 <= lvm_index < 8,
    ensures
        ({
            let seconds = workload::seconds_corpus()[seconds_index];
            let lvm = workload::lvm_corpus()[lvm_index];
            let time = workload::request_time(rep, seconds);
            let asked = if rep == 0 && seconds == 0 {
                0
            } else {
                time.seconds + time.fractions
            };
            let place = if lvm % 8 == 4 && !(rep == 0 && seconds == 0) {
                8 * seconds_index + lvm_index + 1
            } else {
                0
            };
            workload::tallied(tally, rep, seconds_index, lvm_index).checksum == (tally.checksum
                + asked + place) % 0x1_0000_0000_0000_0000
        }),
{
    let seconds = workload::seconds_corpus()[seconds_index];
    a_case_is_read_where_a_server_answers(
        rep,
        seconds,
        workload::lvm_corpus()[lvm_index],
        seconds_index as u8,
    );
    a_case_asks_but_once_at_zero(rep, seconds);
}

/// The request of a case asks at a time whose fractions are seven units for
/// each round, with the random bits of the number of the round.
pub proof fn a_case_asks_at_its_time(rep: u32, seconds: u32)
    ensures
        workload::request_time(rep, seconds) == (if rep == 0 && seconds == 0 {
            Timestamp { seconds: 0, fractions: 0 }
        } else {
            serializer::randomized(
                Timestamp { seconds, fractions: ((rep * 7) % 0x1_0000_0000) as u32 },
                ((rep + 1) % 0x1_0000_0000) as u32,
            )
        }),
{
    assert(rep.wrapping_mul(7) == 0 <==> rep == 0) by {
        assert((rep * 7) % 0x1_0000_0000 == 0 <==> rep == 0);
    }
}

/// The cases are tallied one by one in the order of the corpus, from nothing.
pub proof fn the_corpus_is_walked_in_order(rep: int, seconds_index: int, lvm_index: int)
    requires
        0 <= rep <= u32::MAX,
        0 <= seconds_index < 6,
        0 <= lvm_index < 8,
    ensures
        workload::tally_before(0, 0, 0) == (Tally { ok: 0, refused: 0, checksum: 0 }),
        workload::tally_before(rep, seconds_index, lvm_index + 1) == workload::tallied(
            workload::tally_before(rep, seconds_index, lvm_index),
            rep as u32,
            seconds_index,
            lvm_index,
        ),
        workload::tally_before(rep, seconds_index + 1, 0) == workload::tally_before(
            rep,
            seconds_index,
            8,
        ),
        workload::tally_before(rep + 1, 0, 0) == workload::tally_before(rep, 6, 0),
{
}

} // verus!

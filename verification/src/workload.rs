//! A fixed corpus of exchanges for measuring the codec.
//!
//! Each case serialises a request, makes a reply to it and walks the reply
//! through the deserialiser: well-formed replies, Kiss-o'-Deaths, wrong modes,
//! zero timestamps, and times either side of the 2036 era wrap. The tally is a
//! deterministic count, not a clock reading.

use crate::serializer::{deserialize_response, serialize_request};
use crate::types::Timestamp;
use crate::wire::{be_bytes, ORIGIN_AT, RECEIVE_AT, TRANSMIT_AT};
use crate::{serializer, types, wire};
use vstd::prelude::*;

verus! {

/// How often a measurement goes through the corpus.
pub const REPS: u32 = 400;

/// How many times of day the corpus has.
pub const SECONDS_COUNT: usize = 6;

/// How many first bytes of a reply the corpus has.
pub const LVM_COUNT: usize = 8;

/// Seconds either side of the era wrap, and ordinary times.
pub open spec fn seconds_corpus() -> Seq<u32> {
    seq![0, 1, 3_913_056_000, 4_294_967_294, 4_294_967_295, 2_085_978_496]
}

/// Leap indicator, version and mode bytes, legal and not.
pub open spec fn lvm_corpus() -> Seq<u8> {
    seq![0x24, 0x1C, 0x04, 0xE4, 0x00, 0xFF, 0x23, 0x25]
}

/// What walking the corpus comes to. The counters wrap.
#[derive(Debug, Clone, Copy, PartialEq, Eq, Structural)]
pub struct Tally {
    /// Replies that the deserialiser could read, refusals included.
    pub ok: u64,
    /// Replies that it could not.
    pub refused: u64,
    /// A sum over the requests made and the cases read.
    pub checksum: u64,
}

// ---- what a case is ------------------------------------------------------

/// The time at which a case asks.
pub open spec fn asking_time(rep: u32, seconds: u32) -> Timestamp {
    Timestamp { seconds, fractions: rep.wrapping_mul(7) }
}

/// The timestamp that the request of a case carries. At zero there is none.
pub open spec fn request_time(rep: u32, seconds: u32) -> Timestamp {
    let time = asking_time(rep, seconds);
    if time == types::zero_time() {
        time
    } else {
        serializer::randomized(time, rep.wrapping_add(1))
    }
}

/// `seconds` and a bit, on a counter that wraps and skips zero.
pub open spec fn later(seconds: u32, by: u32) -> u32 {
    if seconds.wrapping_add(by) == 0 {
        1
    } else {
        seconds.wrapping_add(by)
    }
}

/// The eight bytes of a timestamp.
pub open spec fn stamp_bytes(time: Timestamp) -> Seq<u8> {
    wire::word_to_bytes(time.seconds) + wire::word_to_bytes(time.fractions)
}

/// `bytes` with `part` written from `at` on, as far as there is room.
pub open spec fn overlaid(bytes: Seq<u8>, at: int, part: Seq<u8>) -> Seq<u8> {
    Seq::new(
        bytes.len(),
        |i: int|
            if at <= i < at + part.len() {
                part[i - at]
            } else {
                bytes[i]
            },
    )
}

/// The reply of a case: it echoes the request, and the server's two times are
/// one and two seconds later.
pub open spec fn reply(request_time: Timestamp, seconds: u32, lvm: u8, stratum: u8) -> Seq<u8> {
    seq![lvm, stratum] + Seq::new(22, |i: int| 0u8) + stamp_bytes(request_time) + stamp_bytes(
        Timestamp { seconds: later(seconds, 1), fractions: 0x4000_0000 },
    ) + stamp_bytes(Timestamp { seconds: later(seconds, 2), fractions: 0x8000_0000 })
}

/// The time at which the reply of a case arrives.
pub open spec fn arrival_time(seconds: u32) -> Timestamp {
    Timestamp { seconds: seconds.wrapping_add(1), fractions: 0 }
}

/// Can the deserialiser read the reply of a case?
#[verifier::opaque]
pub open spec fn is_read(rep: u32, seconds: u32, lvm: u8, stratum: u8) -> bool {
    let time = request_time(rep, seconds);
    serializer::reading(reply(time, seconds, lvm, stratum), time, arrival_time(seconds)) is Ok
}

/// The checksum with the request of one more case.
pub open spec fn asked(checksum: u64, rep: u32, seconds: u32) -> u64 {
    let time = request_time(rep, seconds);
    if asking_time(rep, seconds) == types::zero_time() {
        checksum
    } else {
        checksum.wrapping_add(time.seconds as u64).wrapping_add(time.fractions as u64)
    }
}

/// A tally with one more case. The stratum of its reply is the index of its
/// time, so that the first time gives a Kiss-o'-Death.
pub open spec fn tallied(tally: Tally, rep: u32, seconds_index: int, lvm_index: int) -> Tally {
    let seconds = seconds_corpus()[seconds_index];
    let checksum = asked(tally.checksum, rep, seconds);
    if is_read(rep, seconds, lvm_corpus()[lvm_index], seconds_index as u8) {
        Tally {
            ok: tally.ok.wrapping_add(1),
            refused: tally.refused,
            checksum: checksum.wrapping_add(
                (seconds_index * LVM_COUNT + lvm_index) as u64,
            ).wrapping_add(1),
        }
    } else {
        Tally { ok: tally.ok, refused: tally.refused.wrapping_add(1), checksum }
    }
}

/// The tally of all cases up to the one that is named, in corpus order.
pub open spec fn tally_before(rep: int, seconds_index: int, lvm_index: int) -> Tally
    decreases rep, seconds_index, lvm_index,
{
    if lvm_index > 0 {
        tallied(
            tally_before(rep, seconds_index, lvm_index - 1),
            rep as u32,
            seconds_index,
            lvm_index - 1,
        )
    } else if seconds_index > 0 {
        tally_before(rep, seconds_index - 1, LVM_COUNT as int)
    } else if rep > 0 {
        tally_before(rep - 1, SECONDS_COUNT as int, 0)
    } else {
        Tally { ok: 0, refused: 0, checksum: 0 }
    }
}

// ---- walking it ----------------------------------------------------------

/// Seconds either side of the era wrap, and ordinary times.
#[must_use]
pub fn corpus_seconds() -> (corpus: [u32; 6])
    ensures
        corpus@ == seconds_corpus(),
{
    let corpus: [u32; 6] = [
        0,
        1,
        // An ordinary time in era 0.
        3_913_056_000,
        // The last moments of era 0.
        4_294_967_294,
        4_294_967_295,
        2_085_978_496,
    ];
    assert(corpus@ =~= seconds_corpus());
    corpus
}

/// Leap indicator, version and mode bytes, legal and not.
#[must_use]
pub fn corpus_lvm() -> (corpus: [u8; 8])
    ensures
        corpus@ == lvm_corpus(),
{
    let corpus: [u8; 8] = [0x24, 0x1C, 0x04, 0xE4, 0x00, 0xFF, 0x23, 0x25];
    assert(corpus@ =~= lvm_corpus());
    corpus
}

/// Write a timestamp at `at`, as far as there is room.
pub fn write_ts(buf: &mut [u8], at: usize, seconds: u32, fractions: u32)
    ensures
        final(buf)@ == overlaid(
            old(buf)@,
            at as int,
            stamp_bytes(Timestamp { seconds, fractions }),
        ),
{
    let ghost before = buf@;
    let ghost part = stamp_bytes(Timestamp { seconds, fractions });
    let high: [u8; 4] = be_bytes(seconds);
    let low: [u8; 4] = be_bytes(fractions);
    let mut i: usize = 0;
    while i < 8
        invariant
            i <= 8,
            before == old(buf)@,
            high@ == wire::word_to_bytes(seconds),
            low@ == wire::word_to_bytes(fractions),
            part == high@ + low@,
            buf@ == overlaid(before, at as int, part.take(i as int)),
        decreases 8 - i,
    {
        if at < buf.len() && i < buf.len() - at {
            buf[at + i] = if i < 4 {
                high[i]
            } else {
                low[i - 4]
            };
        }
        i = i + 1;
        assert(buf@ =~= overlaid(before, at as int, part.take(i as int)));
    }
    assert(part.take(8) =~= part);
}

/// Three timestamps and two bytes make a reply.
proof fn reply_in_parts(
    origin: Seq<u8>,
    received: Seq<u8>,
    sent: Seq<u8>,
    lvm: u8,
    stratum: u8,
    packet: Seq<u8>,
)
    requires
        origin.len() == 8,
        received.len() == 8,
        sent.len() == 8,
        packet == overlaid(
            overlaid(overlaid(Seq::new(48, |i: int| 0u8), 24, origin), 32, received),
            40,
            sent,
        ).update(0, lvm).update(1, stratum),
    ensures
        packet == seq![lvm, stratum] + Seq::new(22, |i: int| 0u8) + origin + received + sent,
{
    assert(packet =~= seq![lvm, stratum] + Seq::new(22, |i: int| 0u8) + origin + received + sent);
}

/// The reply of a case, as the server would send it.
fn make_reply(request_time: &Timestamp, seconds: u32, lvm: u8, stratum: u8) -> (packet: [u8; 48])
    ensures
        packet@ == reply(*request_time, seconds, lvm, stratum),
{
    let mut packet: [u8; 48] = [0; 48];
    assert(packet@ =~= Seq::new(48, |i: int| 0u8));
    let received: u32 = seconds.wrapping_add(1);
    let received: u32 = if received == 0 {
        1
    } else {
        received
    };
    let sent: u32 = seconds.wrapping_add(2);
    let sent: u32 = if sent == 0 {
        1
    } else {
        sent
    };
    write_ts(&mut packet, ORIGIN_AT, request_time.seconds, request_time.fractions);
    write_ts(&mut packet, RECEIVE_AT, received, 0x4000_0000);
    write_ts(&mut packet, TRANSMIT_AT, sent, 0x8000_0000);
    packet[0] = lvm;
    packet[1] = stratum;
    proof {
        reply_in_parts(
            stamp_bytes(*request_time),
            stamp_bytes(Timestamp { seconds: received, fractions: 0x4000_0000 }),
            stamp_bytes(Timestamp { seconds: sent, fractions: 0x8000_0000 }),
            lvm,
            stratum,
            packet@,
        );
    }
    packet
}

/// Add one case to a tally.
fn add_case(
    tally: Tally,
    rep: u32,
    seconds: u32,
    seconds_index: usize,
    lvm: u8,
    lvm_index: usize,
) -> (result: Tally)
    requires
        seconds_index < SECONDS_COUNT,
        lvm_index < LVM_COUNT,
        seconds == seconds_corpus()[seconds_index as int],
        lvm == lvm_corpus()[lvm_index as int],
    ensures
        result == tallied(tally, rep, seconds_index as int, lvm_index as int),
{
    let mut packet: [u8; 48] = [0; 48];
    let mut checksum: u64 = tally.checksum;
    let mut time: Timestamp = Timestamp::new(seconds, rep.wrapping_mul(7));
    if serialize_request(&mut time, rep.wrapping_add(1), &mut packet).is_ok() {
        checksum = checksum.wrapping_add(time.seconds as u64).wrapping_add(time.fractions as u64);
    }
    assert(time == request_time(rep, seconds));
    assert(checksum == asked(tally.checksum, rep, seconds));
    let answer: [u8; 48] = make_reply(&time, seconds, lvm, seconds_index as u8);
    let arrived: Timestamp = Timestamp::new(seconds.wrapping_add(1), 0);
    proof {
        reveal(is_read);
    }
    let position: u64 = (seconds_index * LVM_COUNT + lvm_index) as u64;
    match deserialize_response(&time, &arrived, &answer) {
        Ok(_) => Tally {
            ok: tally.ok.wrapping_add(1),
            refused: tally.refused,
            checksum: checksum.wrapping_add(position).wrapping_add(1),
        },
        Err(_) => Tally { ok: tally.ok, refused: tally.refused.wrapping_add(1), checksum },
    }
}

/// Walk the corpus `reps` times.
#[must_use]
pub fn run(reps: u32) -> (tally: Tally)
    ensures
        tally == tally_before(reps as int, 0, 0),
{
    let seconds = corpus_seconds();
    let lvm = corpus_lvm();
    let mut tally: Tally = Tally { ok: 0, refused: 0, checksum: 0 };
    let mut rep: u32 = 0;
    while rep < reps
        invariant
            rep <= reps,
            seconds@ == seconds_corpus(),
            lvm@ == lvm_corpus(),
            tally == tally_before(rep as int, 0, 0),
        decreases reps - rep,
    {
        let mut s: usize = 0;
        while s < SECONDS_COUNT
            invariant
                s <= SECONDS_COUNT,
                seconds@ == seconds_corpus(),
                lvm@ == lvm_corpus(),
                tally == tally_before(rep as int, s as int, 0),
            decreases SECONDS_COUNT - s,
        {
            let mut l: usize = 0;
            while l < LVM_COUNT
                invariant
                    s < SECONDS_COUNT,
                    l <= LVM_COUNT,
                    seconds@ == seconds_corpus(),
                    lvm@ == lvm_corpus(),
                    tally == tally_before(rep as int, s as int, l as int),
                decreases LVM_COUNT - l,
            {
                tally = add_case(tally, rep, seconds[s], s, lvm[l], l);
                l = l + 1;
            }
            s = s + 1;
        }
        rep = rep + 1;
    }
    tally
}

} // verus!

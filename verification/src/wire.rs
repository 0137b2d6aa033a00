//! The packet's layout, and 32-bit words in network byte order.

use crate::types::Timestamp;
use vstd::prelude::*;

verus! {

/// The size of a packet without authentication data.
pub const PACKET_BASE_SIZE: usize = 48;

/// Leap indicator, version and mode share the first byte.
pub const LEAP_VERSION_MODE_AT: usize = 0;
/// Where the stratum stands.
pub const STRATUM_AT: usize = 1;
/// Where the reference identifier stands; in a Kiss-o'-Death, the kiss code.
pub const REF_ID_AT: usize = 12;
/// Where the originate timestamp stands.
pub const ORIGIN_AT: usize = 24;
/// Where the server's receive timestamp stands.
pub const RECEIVE_AT: usize = 32;
/// Where the transmit timestamp stands.
pub const TRANSMIT_AT: usize = 40;

/// The four bytes of `value`, most significant first.
pub open spec fn word_to_bytes(value: u32) -> Seq<u8> {
    seq![
        (value / 0x100_0000) as u8,
        (value / 0x1_0000 % 0x100) as u8,
        (value / 0x100 % 0x100) as u8,
        (value % 0x100) as u8,
    ]
}

/// The big-endian word that starts at `at`.
pub open spec fn word(bytes: Seq<u8>, at: int) -> u32 {
    (bytes[at] * 0x100_0000 + bytes[at + 1] * 0x1_0000 + bytes[at + 2] * 0x100 + bytes[at + 3])
        as u32
}

/// The timestamp whose seconds start at `at`, with its fractions right behind.
pub open spec fn stamp(bytes: Seq<u8>, at: int) -> Timestamp {
    Timestamp { seconds: word(bytes, at), fractions: word(bytes, at + 4) }
}

/// `bytes` with the bytes from `at` on replaced by those of `part`.
pub open spec fn splice(bytes: Seq<u8>, at: int, part: Seq<u8>) -> Seq<u8> {
    bytes.take(at) + part + bytes.skip(at + part.len())
}

/// The base-256 digits of a word built from four bytes are those bytes.
proof fn digits(a: u8, b: u8, c: u8, d: u8)
    ensures
        ({
            let w = (a * 0x100_0000 + b * 0x1_0000 + c * 0x100 + d) as u32;
            &&& w / 0x100_0000 == a
            &&& w / 0x1_0000 % 0x100 == b
            &&& w / 0x100 % 0x100 == c
            &&& w % 0x100 == d
        }),
{
    let w = (a * 0x100_0000 + b * 0x1_0000 + c * 0x100 + d) as u32;
    assert(w / 0x100 == a * 0x1_0000 + b * 0x100 + c);
    assert(w / 0x1_0000 == a * 0x100 + b);
}

/// A word survives being written out and read back.
pub proof fn word_round_trips(value: u32)
    ensures
        word(word_to_bytes(value), 0) == value,
{
}

/// Four bytes survive being read as a word and written out again.
pub proof fn bytes_round_trip(bytes: Seq<u8>, at: int)
    requires
        0 <= at,
        at + 4 <= bytes.len(),
    ensures
        word_to_bytes(word(bytes, at)) == bytes.subrange(at, at + 4),
{
    let w: u32 = word(bytes, at);
    digits(bytes[at], bytes[at + 1], bytes[at + 2], bytes[at + 3]);
    assert(word_to_bytes(w) =~= bytes.subrange(at, at + 4));
}

/// The same four bytes are the same word, wherever they stand.
pub proof fn same_bytes_same_word(bytes: Seq<u8>, at: int, other: Seq<u8>, other_at: int)
    requires
        0 <= at,
        at + 4 <= bytes.len(),
        0 <= other_at,
        other_at + 4 <= other.len(),
        bytes.subrange(at, at + 4) == other.subrange(other_at, other_at + 4),
    ensures
        word(bytes, at) == word(other, other_at),
{
    assert(forall|i: int|
        0 <= i < 4 ==> bytes.subrange(at, at + 4)[i] == #[trigger] bytes[at + i]);
    assert(forall|i: int|
        0 <= i < 4 ==> other.subrange(other_at, other_at + 4)[i] == #[trigger] other[other_at + i]);
    assert(bytes[at + 0] == other[other_at + 0]);
}

/// The same eight bytes are the same timestamp, wherever they stand.
pub proof fn same_bytes_same_stamp(bytes: Seq<u8>, at: int, other: Seq<u8>, other_at: int)
    requires
        0 <= at,
        at + 8 <= bytes.len(),
        0 <= other_at,
        other_at + 8 <= other.len(),
        bytes.subrange(at, at + 8) == other.subrange(other_at, other_at + 8),
    ensures
        stamp(bytes, at) == stamp(other, other_at),
{
    let eight = bytes.subrange(at, at + 8);
    assert(bytes.subrange(at, at + 4) =~= eight.subrange(0, 4));
    assert(other.subrange(other_at, other_at + 4) =~= eight.subrange(0, 4));
    assert(bytes.subrange(at + 4, at + 8) =~= eight.subrange(4, 8));
    assert(other.subrange(other_at + 4, other_at + 8) =~= eight.subrange(4, 8));
    same_bytes_same_word(bytes, at, other, other_at);
    same_bytes_same_word(bytes, at + 4, other, other_at + 4);
}

/// The bytes of `value`, most significant first.
#[must_use]
pub fn be_bytes(value: u32) -> (bytes: [u8; 4])
    ensures
        bytes@ == word_to_bytes(value),
{
    let bytes: [u8; 4] = [
        (value / 0x100_0000) as u8,
        (value / 0x1_0000 % 0x100) as u8,
        (value / 0x100 % 0x100) as u8,
        (value % 0x100) as u8,
    ];
    assert(bytes@ =~= word_to_bytes(value));
    bytes
}

/// The big-endian word at `offset`, or `None` where it would run past the end.
#[must_use]
pub fn word_at(buf: &[u8], offset: usize) -> (value: Option<u32>)
    ensures
        value == (if offset + 4 <= buf@.len() {
            Some(word(buf@, offset as int))
        } else {
            None
        }),
{
    if buf.len() < 4 || offset > buf.len() - 4 {
        return None;
    }
    Some(
        buf[offset] as u32 * 0x100_0000 + buf[offset + 1] as u32 * 0x1_0000 + buf[offset + 2] as u32
            * 0x100 + buf[offset + 3] as u32,
    )
}

/// Write `value` big-endian at `offset`; where it would run past the end,
/// nothing is written.
pub fn put_word(buf: &mut [u8], offset: usize, value: u32)
    ensures
        final(buf)@ == (if offset + 4 <= old(buf)@.len() {
            splice(old(buf)@, offset as int, word_to_bytes(value))
        } else {
            old(buf)@
        }),
{
    if buf.len() < 4 || offset > buf.len() - 4 {
        return;
    }
    let bytes: [u8; 4] = be_bytes(value);
    buf[offset] = bytes[0];
    buf[offset + 1] = bytes[1];
    buf[offset + 2] = bytes[2];
    buf[offset + 3] = bytes[3];
    assert(buf@ =~= splice(old(buf)@, offset as int, word_to_bytes(value)));
}

/// Read a timestamp whose two halves stand at two offsets, or `None` where
/// either half would run past the end.
#[must_use]
pub fn timestamp_at(buf: &[u8], seconds_at: usize, fractions_at: usize) -> (time: Option<Timestamp>)
    ensures
        time == (if seconds_at + 4 <= buf@.len() && fractions_at + 4 <= buf@.len() {
            Some(
                Timestamp {
                    seconds: word(buf@, seconds_at as int),
                    fractions: word(buf@, fractions_at as int),
                },
            )
        } else {
            None
        }),
{
    match (word_at(buf, seconds_at), word_at(buf, fractions_at)) {
        (Some(seconds), Some(fractions)) => Some(Timestamp { seconds, fractions }),
        _ => None,
    }
}

} // verus!

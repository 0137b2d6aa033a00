//! The types that cross the surface of the library.
//!
//! Each entry point has an error type of its own that holds only what that
//! entry point can answer, so no caller has to match on an impossible arm.

use crate::wire;
use vstd::prelude::*;

verus! {

/// An SNTP timestamp: seconds and fractions since 1 January 1900 UTC.
///
/// The fractions field divides one second into 2^32 parts, about 232
/// picoseconds each. The seconds field has 32 bits, so it wraps on 7 February
/// 2036: see [`crate::arithmetic::safe_time_difference`].
#[derive(Debug, Clone, Copy, PartialEq, Eq, Structural)]
pub struct Timestamp {
    /// Seconds since the SNTP epoch.
    pub seconds: u32,
    /// Fractions of a second, at 2^-32 resolution.
    pub fractions: u32,
}

/// The timestamp that SNTP treats as "no time at all".
pub open spec fn zero_time() -> Timestamp {
    Timestamp { seconds: 0, fractions: 0 }
}

impl Timestamp {
    /// A timestamp from its two halves.
    #[must_use]
    pub fn new(seconds: u32, fractions: u32) -> (time: Self)
        ensures
            time == (Timestamp { seconds, fractions }),
    {
        Timestamp { seconds, fractions }
    }

    /// Is this the zero timestamp?
    ///
    /// SNTP treats zero as invalid rather than as a time, and the library
    /// refuses it in both directions: a client that clears its stored request
    /// time after a reply would otherwise accept a forged response whose
    /// originate field is zero.
    #[must_use]
    pub fn is_zero(&self) -> (zero: bool)
        ensures
            zero <==> *self == zero_time(),
    {
        self.seconds == 0 && self.fractions == 0
    }
}

impl Default for Timestamp {
    /// The zero timestamp.
    fn default() -> (time: Self)
        ensures
            time == zero_time(),
    {
        Timestamp { seconds: 0, fractions: 0 }
    }
}

/// What the server says about the last minute of the month.
#[derive(Debug, Clone, Copy, PartialEq, Eq, Structural)]
pub enum LeapSecond {
    /// No adjustment is coming.
    NoLeapSecond,
    /// A second will be inserted before midnight on the last day of the month.
    LastMinuteHas61Seconds,
    /// A second will be deleted from that minute.
    LastMinuteHas59Seconds,
    /// An alarm: the server itself is not synchronised to an upstream clock.
    ///
    /// Its time should not be trusted, although the response is otherwise
    /// perfectly well formed.
    AlarmServerNotSynchronized,
}

/// Why a server refused to give the time.
#[derive(Debug, Clone, Copy, PartialEq, Eq, Structural)]
pub enum Rejection {
    /// `DENY` or `RSTR`: do not come back. Use a different server.
    ChangeServer,
    /// `RATE`: the requests come too often. Back off, then retry.
    RetryWithBackoff,
    /// A code outside the three that the protocol names. The four ASCII
    /// characters are in [`Rejected::code`]; what they mean is the server's
    /// business.
    Other,
}

/// A Kiss-o'-Death: the server answered, and the answer was no.
#[derive(Debug, Clone, Copy, PartialEq, Eq, Structural)]
pub struct Rejected {
    /// The four ASCII characters, big-endian, as the packet carried them.
    pub code: u32,
    /// What the client should do about it.
    pub kind: Rejection,
}

impl Rejected {
    /// The kiss code as the four ASCII bytes a human would read.
    #[must_use]
    pub fn code_bytes(&self) -> (bytes: [u8; 4])
        ensures
            bytes@ == wire::word_to_bytes(self.code),
    {
        wire::be_bytes(self.code)
    }
}

/// A server response that carried a usable time.
#[derive(Debug, Clone, Copy, PartialEq, Eq, Structural)]
pub struct Accepted {
    /// The server's own time: the packet's **transmit** timestamp.
    pub server_time: Timestamp,
    /// Whether a leap second is coming, and whether to trust this at all.
    pub leap_second: LeapSecond,
    /// How far the local clock is behind the server, in milliseconds.
    ///
    /// Positive means the server is ahead. Computed from all four timestamps
    /// of the round trip, so a symmetric network delay cancels.
    pub clock_offset_ms: i64,
}

/// What a well-formed response turned out to say.
///
/// A Kiss-o'-Death is a **valid** response that refuses, so it is a verdict
/// and not an error. Only a malformed or unauthentic packet is an error.
#[derive(Debug, Clone, Copy, PartialEq, Eq, Structural)]
pub enum Verdict {
    /// The server gave the time.
    Accepted(Accepted),
    /// The server refused, politely and in the protocol.
    Rejected(Rejected),
}

/// Why a request could not be serialized.
#[derive(Debug, Clone, Copy, PartialEq, Eq, Structural)]
pub enum SerializeError {
    /// The request timestamp was zero, which SNTP does not allow.
    BadParameter,
    /// The buffer was smaller than [`crate::PACKET_BASE_SIZE`].
    BufferTooSmall,
}

/// Why a response could not be read.
#[derive(Debug, Clone, Copy, PartialEq, Eq, Structural)]
pub enum DeserializeError {
    /// The request timestamp passed in was zero.
    BadParameter,
    /// The buffer was smaller than [`crate::PACKET_BASE_SIZE`].
    BufferTooSmall,
    /// The packet failed validation: not from a server, a zero timestamp, or
    /// an originate field that does not echo the request.
    InvalidResponse,
}

/// Why a poll interval could not be calculated.
#[derive(Debug, Clone, Copy, PartialEq, Eq, Structural)]
pub enum PollIntervalError {
    /// The clock tolerance or the desired accuracy was zero.
    BadParameter,
    /// The interval needed is under one second, which this cannot express.
    ZeroPollInterval,
}

} // verus!

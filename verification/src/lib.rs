//! An SNTPv4 client: the packet codec, the clock arithmetic and the polling
//! state machine over a UDP transport that the caller supplies.
//!
//! - [`types`]: timestamps, verdicts and the error of each entry point.
//! - [`wire`]: 32-bit words in network byte order, and the packet's layout.
//! - [`arithmetic`]: millisecond arithmetic that stays right when the seconds
//!   field wraps on 7 February 2036.
//! - [`serializer`]: requests out, responses in, poll intervals, UNIX time.
//! - [`host`]: what the client needs from the system it runs on.
//! - [`protocol`]: the mathematical model of the client, as a transition system
//!   over the answers of its surroundings.
//! - [`client`]: the client itself, which follows that model call for call.
//! - [`laws`]: what holds of the codec and the arithmetic as a whole, proved.
//! - [`time_laws`] and [`codec_laws`]: what every result of theirs must satisfy.
//! - [`client_laws`]: what holds of the client over whole calls, proved.
//! - [`send_laws`] and [`receive_laws`]: what each callback of a call is handed,
//!   and what each answer leads to.
//! - [`model_laws`]: what the parts of the model must satisfy.
//! - [`workload`]: a fixed corpus of exchanges and its tally; [`workload_laws`]:
//!   what the tally must satisfy.
//! - [`prelude`]: the names a firmware wants in scope.
//!
//! All arithmetic is on integers, nothing is allocated, and no input panics.

pub mod arithmetic;
pub mod client;
pub mod client_laws;
pub mod codec_laws;
pub mod host;
pub mod laws;
pub mod model_laws;
pub mod prelude;
pub mod protocol;
pub mod receive_laws;
pub mod send_laws;
pub mod serializer;
pub mod time_laws;
pub mod types;
pub mod wire;
pub mod workload;
pub mod workload_laws;

pub use arithmetic::FRACTION_VALUE_PER_MICROSECOND;
pub use client::{Client, InitError, ReceiveError, Reception, SendError};
pub use host::{AuthError, Authenticator, NetworkError, NoAuth, ServerInfo, SntpHost};
pub use serializer::{
    calculate_poll_interval, convert_to_unix_time, deserialize_response, serialize_request,
    KISS_OF_DEATH_CODE_LENGTH, TIME_AT_UNIX_EPOCH_SECS, UNIX_TIME_SECS_AT_SNTP_ERA_1_SMALLEST_TIME,
};
pub use types::{
    Accepted, DeserializeError, LeapSecond, PollIntervalError, Rejected, Rejection, SerializeError,
    Timestamp, Verdict,
};
pub use wire::PACKET_BASE_SIZE;

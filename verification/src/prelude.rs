//! The names a firmware wants in scope.

pub use crate::client::{Client, InitError, ReceiveError, Reception, SendError};
pub use crate::host::{AuthError, Authenticator, NetworkError, NoAuth, ServerInfo, SntpHost};
pub use crate::serializer::{
    calculate_poll_interval, convert_to_unix_time, deserialize_response, serialize_request,
};
pub use crate::types::{Accepted, LeapSecond, Rejected, Rejection, Timestamp, Verdict};
pub use crate::wire::PACKET_BASE_SIZE;

//! The mathematical model of the client.
//!
//! The client's behaviour is not only what it answers but which callbacks it
//! makes, in which order, with which arguments. So the model is a transition
//! system over [`Event`]s, one event for each callback together with its
//! answer: a call of the client is in some phase, each phase allows one
//! callback with fixed arguments, and the answer decides the next phase and
//! the next state of the client. A call has run its course when it reaches the
//! phase `Done`.
//!
//! [`happens`] ties a sequence of events to the surroundings that answered
//! them, and [`send_course`] and [`receive_course`] say what the client makes
//! of them.

use crate::client::{InitError, ReceiveError, Reception, SendError};
use crate::host::{AuthError, Authenticator, NetworkError, SntpHost};
use crate::types::{Accepted, LeapSecond, Timestamp, Verdict};
use crate::wire::PACKET_BASE_SIZE;
use crate::{arithmetic, serializer, types};
use vstd::prelude::*;

verus! {

/// After this many rounds in a row in which the transport moved nothing and no
/// deadline was met, a retry loop gives up as if its block time had passed.
///
/// A clock that makes progress meets a deadline long before: at one round in
/// each nanosecond, this many take more than five hundred years.
pub const MAX_IDLE_ROUNDS: u64 = 18_446_744_073_709_551_615;

/// A time server, as the model sees it.
pub struct Server {
    /// The name to resolve.
    pub name: Seq<char>,
    /// The UDP port.
    pub port: u16,
}

/// One callback of the client, with the answer it got.
#[allow(inconsistent_fields)]
pub enum Event {
    /// A name was resolved to `address`, or could not be.
    Resolve { server: Server, address: Option<u32> },
    /// The clock read `time`.
    ReadClock { time: Timestamp },
    /// The clock was handed a correction.
    AdjustClock { server: Server, server_time: Timestamp, offset_ms: i64, leap_second: LeapSecond },
    /// The transport was handed `packet`.
    Send { address: u32, port: u16, packet: Seq<u8>, answer: Result<usize, NetworkError> },
    /// The transport was handed a buffer that held `before`, and left `after`.
    Receive {
        address: u32,
        port: u16,
        before: Seq<u8>,
        after: Seq<u8>,
        answer: Result<usize, NetworkError>,
    },
    /// The authenticator was handed a buffer that held `before`, and left
    /// `after`.
    GenerateAuth {
        server: Server,
        before: Seq<u8>,
        after: Seq<u8>,
        answer: Result<u16, AuthError>,
    },
    /// The authenticator was handed a response to check.
    ValidateAuth { server: Server, packet: Seq<u8>, answer: Result<(), AuthError> },
}

impl Event {
    /// Is this a callback of the authenticator, rather than of the host?
    pub open spec fn is_authentication(self) -> bool {
        self is GenerateAuth || self is ValidateAuth
    }
}

// ---- the surroundings ----------------------------------------------------

/// The surroundings of a client go from one state to the next by one event.
pub open spec fn responds<H: SntpHost, A: Authenticator>(
    host: H,
    auth: A,
    event: Event,
    next_host: H,
    next_auth: A,
) -> bool {
    if event.is_authentication() {
        next_host == host && auth.auth_step(event, &next_auth)
    } else {
        next_auth == auth && host.host_step(event, &next_host)
    }
}

/// The surroundings go from one state to another by these events, in this
/// order, and by no others.
pub open spec fn happens<H: SntpHost, A: Authenticator>(
    host: H,
    auth: A,
    events: Seq<Event>,
    last_host: H,
    last_auth: A,
) -> bool
    decreases events.len(),
{
    if events.len() == 0 {
        last_host == host && last_auth == auth
    } else {
        exists|h: H, a: A|
            happens(host, auth, events.drop_last(), h, a) && #[trigger] responds(
                h,
                a,
                events.last(),
                last_host,
                last_auth,
            )
    }
}

/// One more event prolongs what has happened.
pub proof fn happens_next<H: SntpHost, A: Authenticator>(
    host: H,
    auth: A,
    events: Seq<Event>,
    h: H,
    a: A,
    event: Event,
    last_host: H,
    last_auth: A,
)
    requires
        happens(host, auth, events, h, a),
        responds(h, a, event, last_host, last_auth),
    ensures
        happens(host, auth, events.push(event), last_host, last_auth),
{
    assert(events.push(event).drop_last() =~= events);
    assert(responds(h, a, events.push(event).last(), last_host, last_auth));
}

/// What happens in two stretches happens in one.
pub proof fn happens_in_turn<H: SntpHost, A: Authenticator>(
    host: H,
    auth: A,
    first: Seq<Event>,
    h: H,
    a: A,
    second: Seq<Event>,
    last_host: H,
    last_auth: A,
)
    requires
        happens(host, auth, first, h, a),
        happens(h, a, second, last_host, last_auth),
    ensures
        happens(host, auth, first + second, last_host, last_auth),
    decreases second.len(),
{
    if second.len() == 0 {
        assert(first + second =~= first);
    } else {
        let (h1, a1) = choose|h1: H, a1: A|
            happens(h, a, second.drop_last(), h1, a1) && #[trigger] responds(
                h1,
                a1,
                second.last(),
                last_host,
                last_auth,
            );
        happens_in_turn(host, auth, first, h, a, second.drop_last(), h1, a1);
        assert((first + second).drop_last() =~= first + second.drop_last());
        assert(responds(h1, a1, (first + second).last(), last_host, last_auth));
    }
}

// ---- the client ----------------------------------------------------------

/// The state of a client.
#[verifier::ext_equal]
pub struct ClientState {
    /// The servers to choose from.
    pub servers: Seq<Server>,
    /// The network buffer.
    pub buffer: Seq<u8>,
    /// The index of the server in use.
    pub current: int,
    /// The address that the server in use was last resolved to.
    pub address: u32,
    /// The timestamp that a response has to echo; zero if none is awaited.
    pub request_time: Timestamp,
    /// The size of the packets being exchanged.
    pub packet_size: int,
    /// How long a response may take.
    pub response_timeout_ms: u32,
    /// Whether authentication is configured.
    pub authenticated: bool,
}

impl ClientState {
    /// There is a server in use, and the packets fit in the buffer.
    pub open spec fn wf(self) -> bool {
        &&& 0 <= self.current < self.servers.len()
        &&& PACKET_BASE_SIZE <= self.packet_size <= self.buffer.len()
        &&& self.packet_size <= u16::MAX
        &&& !self.authenticated ==> self.packet_size == PACKET_BASE_SIZE
    }

    /// A client as it is built.
    pub open spec fn initial(
        servers: Seq<Server>,
        buffer: Seq<u8>,
        response_timeout_ms: u32,
        authenticated: bool,
    ) -> Self {
        ClientState {
            servers,
            buffer,
            current: 0,
            address: 0,
            request_time: types::zero_time(),
            packet_size: PACKET_BASE_SIZE as int,
            response_timeout_ms,
            authenticated,
        }
    }

    /// What building a client comes to.
    pub open spec fn built(
        servers: Seq<Server>,
        buffer: Seq<u8>,
        response_timeout_ms: u32,
        authenticated: bool,
    ) -> Result<Self, InitError> {
        if servers.len() == 0 {
            Err(InitError::NoServers)
        } else if buffer.len() < PACKET_BASE_SIZE {
            Err(InitError::BufferTooSmall)
        } else {
            Ok(Self::initial(servers, buffer, response_timeout_ms, authenticated))
        }
    }

    /// The server in use.
    pub open spec fn server(self) -> Server {
        self.servers[self.current]
    }

    /// The part of the buffer that is exchanged.
    pub open spec fn packet(self) -> Seq<u8> {
        self.buffer.take(self.packet_size)
    }

    /// The next server is in use; behind the last comes the first.
    pub open spec fn rotated(self) -> Self {
        ClientState {
            current: if self.current + 1 < self.servers.len() {
                self.current + 1
            } else {
                0
            },
            ..self
        }
    }

    /// The server in use has an address.
    pub open spec fn resolved(self, address: u32) -> Self {
        ClientState { address, ..self }
    }

    /// A request is prepared when the clock reads `now`. A clock that reads
    /// zero makes no request, and is remembered all the same.
    pub open spec fn stamped(self, now: Timestamp, random_number: u32) -> Self {
        if now == types::zero_time() {
            ClientState { request_time: now, ..self }
        } else {
            let time = serializer::randomized(now, random_number);
            ClientState {
                request_time: time,
                buffer: serializer::request_packet(time) + self.buffer.skip(
                    PACKET_BASE_SIZE as int,
                ),
                ..self
            }
        }
    }

    /// Does an authentication code of this size fit behind the packet?
    pub open spec fn has_room_for(self, code_size: u16) -> bool {
        PACKET_BASE_SIZE + code_size <= self.buffer.len()
    }

    /// Packets carry an authentication code of this size. The size of a packet
    /// is a 16-bit quantity and saturates.
    pub open spec fn coded(self, code_size: u16) -> Self {
        let size = PACKET_BASE_SIZE + code_size;
        ClientState {
            packet_size: if size <= u16::MAX {
                size
            } else {
                u16::MAX as int
            },
            ..self
        }
    }

    /// A read has left `after` where the packet stood.
    pub open spec fn filled(self, after: Seq<u8>) -> Self {
        ClientState { buffer: after + self.buffer.skip(self.packet_size), ..self }
    }

    /// No response is awaited.
    pub open spec fn settled(self) -> Self {
        ClientState { request_time: types::zero_time(), ..self }
    }

    /// The server has refused. A refusal that nobody vouched for may be forged,
    /// and forgetting the request on account of it would make the genuine
    /// response fail its originate check.
    pub open spec fn refused(self) -> Self {
        if self.authenticated {
            self.rotated().settled()
        } else {
            self.rotated()
        }
    }

    /// Has the response timeout expired?
    pub open spec fn overdue(self, now: Timestamp) -> bool {
        arithmetic::elapsed_ms(now, self.request_time) >= self.response_timeout_ms
    }
}

/// Has the block time of a call that started at `started` passed?
pub open spec fn blocked_long_enough(
    now: Timestamp,
    started: Timestamp,
    block_time_ms: u32,
) -> bool {
    arithmetic::elapsed_ms(now, started) >= block_time_ms
}

// ---- sending -------------------------------------------------------------

/// How far a call that sends a request has come.
pub enum SendPhase {
    /// The server's name is to be resolved.
    Resolving { random_number: u32 },
    /// The clock is to be read for the request's timestamp.
    Stamping { random_number: u32 },
    /// The authentication code is to be generated.
    Authenticating,
    /// The clock is to be read for the retry window.
    Opening,
    /// The packet is to be handed to the transport, which has moved nothing in
    /// `idle` earlier rounds.
    Sending { started: Timestamp, idle: int },
    /// The transport has moved nothing, and the clock is to be read.
    Waiting { started: Timestamp, idle: int },
    /// The call has returned.
    Done { result: Result<(), SendError> },
}

/// Where a call and its client stand.
pub type SendStatus = (SendPhase, ClientState);

/// What comes after an attempt to send a packet of `size` bytes.
pub open spec fn after_attempt(
    answer: Result<usize, NetworkError>,
    size: int,
) -> Option<Result<(), SendError>> {
    match answer {
        Err(_) => Some(Err(SendError::Network)),
        Ok(sent) => if sent == 0 {
            None
        } else if sent == size {
            Some(Ok(()))
        } else {
            Some(Err(SendError::Network))
        },
    }
}

/// What one event makes of a call that sends a request; `None` for an event
/// that has no place there.
pub open spec fn send_step(block_time_ms: u32, status: SendStatus, event: Event) -> Option<
    SendStatus,
> {
    let (phase, client) = status;
    match (phase, event) {
        (
            SendPhase::Resolving { random_number },
            Event::Resolve { server, address },
        ) => if server == client.server() {
            match address {
                None => Some((SendPhase::Done { result: Err(SendError::Dns) }, client)),
                Some(address) => Some(
                    (SendPhase::Stamping { random_number }, client.resolved(address)),
                ),
            }
        } else {
            None
        },
        (SendPhase::Stamping { random_number }, Event::ReadClock { time }) => Some(
            (
                if time == types::zero_time() {
                    SendPhase::Done { result: Err(SendError::Network) }
                } else if client.authenticated {
                    SendPhase::Authenticating
                } else {
                    SendPhase::Opening
                },
                client.stamped(time, random_number),
            ),
        ),
        (
            SendPhase::Authenticating,
            Event::GenerateAuth { server, before, after, answer },
        ) => if server == client.server() && before == client.buffer && after.len()
            == before.len() {
            let left = ClientState { buffer: after, ..client };
            match answer {
                Ok(code_size) => if left.has_room_for(code_size) {
                    Some((SendPhase::Opening, left.coded(code_size)))
                } else {
                    Some((SendPhase::Done { result: Err(SendError::Auth) }, left))
                },
                Err(_) => Some((SendPhase::Done { result: Err(SendError::Auth) }, left)),
            }
        } else {
            None
        },
        (SendPhase::Opening, Event::ReadClock { time }) => Some(
            (SendPhase::Sending { started: time, idle: 0 }, client),
        ),
        (
            SendPhase::Sending { started, idle },
            Event::Send { address, port, packet, answer },
        ) => if address == client.address && port == client.server().port && packet
            == client.packet() {
            match after_attempt(answer, client.packet_size) {
                Some(result) => Some((SendPhase::Done { result }, client)),
                None => Some((SendPhase::Waiting { started, idle }, client)),
            }
        } else {
            None
        },
        (SendPhase::Waiting { started, idle }, Event::ReadClock { time }) => Some(
            (
                if blocked_long_enough(time, started, block_time_ms) || idle + 1
                    >= MAX_IDLE_ROUNDS {
                    SendPhase::Done { result: Err(SendError::SendTimeout) }
                } else {
                    SendPhase::Sending { started, idle: idle + 1 }
                },
                client,
            ),
        ),
        _ => None,
    }
}

/// Where a sequence of events takes a call that sends a request; `None` if
/// they are not the events of such a call.
pub open spec fn send_course(
    block_time_ms: u32,
    start: SendStatus,
    events: Seq<Event>,
) -> Option<SendStatus>
    decreases events.len(),
{
    if events.len() == 0 {
        Some(start)
    } else {
        match send_course(block_time_ms, start, events.drop_last()) {
            Some(status) => send_step(block_time_ms, status, events.last()),
            None => None,
        }
    }
}

/// One more event takes a call one step further.
pub proof fn send_course_next(
    block_time_ms: u32,
    start: SendStatus,
    events: Seq<Event>,
    status: SendStatus,
    event: Event,
)
    requires
        send_course(block_time_ms, start, events) == Some(status),
    ensures
        send_course(block_time_ms, start, events.push(event)) == send_step(
            block_time_ms,
            status,
            event,
        ),
{
    assert(events.push(event).drop_last() =~= events);
}

/// One more answer of the surroundings takes a call that sends a request one
/// step further.
pub proof fn send_goes_on<H: SntpHost, A: Authenticator>(
    host: H,
    auth: A,
    block_time_ms: u32,
    start: SendStatus,
    events: Seq<Event>,
    h: H,
    a: A,
    status: SendStatus,
    event: Event,
    last_host: H,
    last_auth: A,
)
    requires
        happens(host, auth, events, h, a),
        send_course(block_time_ms, start, events) == Some(status),
        responds(h, a, event, last_host, last_auth),
    ensures
        happens(host, auth, events.push(event), last_host, last_auth),
        send_course(block_time_ms, start, events.push(event)) == send_step(
            block_time_ms,
            status,
            event,
        ),
{
    happens_next(host, auth, events, h, a, event, last_host, last_auth);
    send_course_next(block_time_ms, start, events, status, event);
}

/// Events in two stretches take a call as far as in one.
pub proof fn send_course_in_turn(
    block_time_ms: u32,
    start: SendStatus,
    first: Seq<Event>,
    status: SendStatus,
    second: Seq<Event>,
)
    requires
        send_course(block_time_ms, start, first) == Some(status),
    ensures
        send_course(block_time_ms, start, first + second) == send_course(
            block_time_ms,
            status,
            second,
        ),
    decreases second.len(),
{
    if second.len() == 0 {
        assert(first + second =~= first);
    } else {
        send_course_in_turn(block_time_ms, start, first, status, second.drop_last());
        assert((first + second).drop_last() =~= first + second.drop_last());
    }
}

// ---- receiving -----------------------------------------------------------

/// How far a call that receives a response has come.
pub enum ReceivePhase {
    /// The clock is to be read for the block time.
    Opening,
    /// The transport is to be read, which has had nothing in `idle` earlier
    /// rounds.
    Reading { started: Timestamp, idle: int },
    /// Nothing was waiting, and the clock is to be read.
    Waiting { started: Timestamp, idle: int },
    /// A datagram has arrived, and the clock is to be read.
    Timing,
    /// The authenticator is to check the response.
    Authenticating { received_at: Timestamp },
    /// The clock is to be adjusted.
    Adjusting { accepted: Accepted },
    /// The call has returned.
    Done { result: Result<Reception, ReceiveError> },
}

/// Where a call and its client stand.
pub type ReceiveStatus = (ReceivePhase, ClientState);

/// What comes after a round in which nothing was waiting, by the deadlines
/// alone. The response timeout is looked at first.
pub open spec fn after_silence(
    client: ClientState,
    now: Timestamp,
    started: Timestamp,
    block_time_ms: u32,
) -> Option<Reception> {
    if client.overdue(now) {
        Some(Reception::TimedOut)
    } else if blocked_long_enough(now, started, block_time_ms) {
        Some(Reception::NothingYet)
    } else {
        None
    }
}

/// What the client makes of the response in its buffer.
pub open spec fn judged(client: ClientState, received_at: Timestamp) -> ReceiveStatus {
    match serializer::reading(client.packet(), client.request_time, received_at) {
        Err(_) => (ReceivePhase::Done { result: Err(ReceiveError::InvalidResponse) }, client),
        Ok(Verdict::Rejected(_)) => (
            ReceivePhase::Done { result: Ok(Reception::Rejected) },
            client.refused(),
        ),
        Ok(Verdict::Accepted(accepted)) => (ReceivePhase::Adjusting { accepted }, client),
    }
}

/// Where a call stands once a response has arrived.
pub open spec fn arrived(client: ClientState, received_at: Timestamp) -> ReceiveStatus {
    if client.authenticated {
        (ReceivePhase::Authenticating { received_at }, client)
    } else {
        judged(client, received_at)
    }
}

/// What one event makes of a call that receives a response; `None` for an
/// event that has no place there.
pub open spec fn receive_step(block_time_ms: u32, status: ReceiveStatus, event: Event) -> Option<
    ReceiveStatus,
> {
    let (phase, client) = status;
    match (phase, event) {
        (ReceivePhase::Opening, Event::ReadClock { time }) => Some(
            (ReceivePhase::Reading { started: time, idle: 0 }, client),
        ),
        (
            ReceivePhase::Reading { started, idle },
            Event::Receive { address, port, before, after, answer },
        ) => if address == client.address && port == client.server().port && before
            == client.packet() && after.len() == before.len() {
            Some(
                (
                    match answer {
                        Ok(read) => if read == client.packet_size {
                            ReceivePhase::Timing
                        } else if read == 0 {
                            ReceivePhase::Waiting { started, idle }
                        } else {
                            ReceivePhase::Done { result: Err(ReceiveError::Network) }
                        },
                        Err(_) => ReceivePhase::Done { result: Err(ReceiveError::Network) },
                    },
                    client.filled(after),
                ),
            )
        } else {
            None
        },
        (ReceivePhase::Waiting { started, idle }, Event::ReadClock { time }) => Some(
            match after_silence(client, time, started, block_time_ms) {
                Some(Reception::TimedOut) => (
                    ReceivePhase::Done { result: Ok(Reception::TimedOut) },
                    client.rotated(),
                ),
                Some(reception) => (ReceivePhase::Done { result: Ok(reception) }, client),
                None => if idle + 1 >= MAX_IDLE_ROUNDS {
                    (ReceivePhase::Done { result: Ok(Reception::NothingYet) }, client)
                } else {
                    (ReceivePhase::Reading { started, idle: idle + 1 }, client)
                },
            },
        ),
        (ReceivePhase::Timing, Event::ReadClock { time }) => Some(
            arrived(client, time),
        ),
        (
            ReceivePhase::Authenticating { received_at },
            Event::ValidateAuth { server, packet, answer },
        ) => if server == client.server() && packet == client.packet() {
            Some(
                match answer {
                    Ok(()) => judged(client, received_at),
                    Err(AuthError::Failed) => (
                        ReceivePhase::Done { result: Err(ReceiveError::Auth) },
                        client,
                    ),
                    Err(AuthError::ServerNotAuthenticated) => (
                        ReceivePhase::Done { result: Err(ReceiveError::ServerNotAuthenticated) },
                        client,
                    ),
                },
            )
        } else {
            None
        },
        (
            ReceivePhase::Adjusting { accepted },
            Event::AdjustClock { server, server_time, offset_ms, leap_second },
        ) => if server == client.server() && server_time == accepted.server_time && offset_ms
            == accepted.clock_offset_ms && leap_second == accepted.leap_second {
            Some((ReceivePhase::Done { result: Ok(Reception::Synchronised) }, client.settled()))
        } else {
            None
        },
        _ => None,
    }
}

/// Where a sequence of events takes a call that receives a response; `None` if
/// they are not the events of such a call.
pub open spec fn receive_course(
    block_time_ms: u32,
    start: ReceiveStatus,
    events: Seq<Event>,
) -> Option<ReceiveStatus>
    decreases events.len(),
{
    if events.len() == 0 {
        Some(start)
    } else {
        match receive_course(block_time_ms, start, events.drop_last()) {
            Some(status) => receive_step(block_time_ms, status, events.last()),
            None => None,
        }
    }
}

/// One more event takes a call one step further.
pub proof fn receive_course_next(
    block_time_ms: u32,
    start: ReceiveStatus,
    events: Seq<Event>,
    status: ReceiveStatus,
    event: Event,
)
    requires
        receive_course(block_time_ms, start, events) == Some(status),
    ensures
        receive_course(block_time_ms, start, events.push(event)) == receive_step(
            block_time_ms,
            status,
            event,
        ),
{
    assert(events.push(event).drop_last() =~= events);
}

/// One more answer of the surroundings takes a call that receives a response
/// one step further.
pub proof fn receive_goes_on<H: SntpHost, A: Authenticator>(
    host: H,
    auth: A,
    block_time_ms: u32,
    start: ReceiveStatus,
    events: Seq<Event>,
    h: H,
    a: A,
    status: ReceiveStatus,
    event: Event,
    last_host: H,
    last_auth: A,
)
    requires
        happens(host, auth, events, h, a),
        receive_course(block_time_ms, start, events) == Some(status),
        responds(h, a, event, last_host, last_auth),
    ensures
        happens(host, auth, events.push(event), last_host, last_auth),
        receive_course(block_time_ms, start, events.push(event)) == receive_step(
            block_time_ms,
            status,
            event,
        ),
{
    happens_next(host, auth, events, h, a, event, last_host, last_auth);
    receive_course_next(block_time_ms, start, events, status, event);
}

/// Events in two stretches take a call as far as in one.
pub proof fn receive_course_in_turn(
    block_time_ms: u32,
    start: ReceiveStatus,
    first: Seq<Event>,
    status: ReceiveStatus,
    second: Seq<Event>,
)
    requires
        receive_course(block_time_ms, start, first) == Some(status),
    ensures
        receive_course(block_time_ms, start, first + second) == receive_course(
            block_time_ms,
            status,
            second,
        ),
    decreases second.len(),
{
    if second.len() == 0 {
        assert(first + second =~= first);
    } else {
        receive_course_in_turn(block_time_ms, start, first, status, second.drop_last());
        assert((first + second).drop_last() =~= first + second.drop_last());
    }
}

} // verus!

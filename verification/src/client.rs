//! The polling client: one server at a time, rotating on refusal.
//!
//! The client is a state machine over callbacks: resolve a name, read the
//! clock, adjust the clock, send a datagram, receive one, and two more where
//! authentication is configured. What each of its calls does is stated against
//! the transition system of [`crate::protocol`], callback for callback.

use crate::arithmetic::calculate_elapsed_ms;
use crate::host::{AuthError, Authenticator, NetworkError, NoAuth, ServerInfo, SntpHost};
use crate::protocol;
use crate::protocol::{ClientState, Event, ReceivePhase, SendPhase, Server, MAX_IDLE_ROUNDS};
use crate::serializer::{deserialize_response, serialize_request};
use crate::types::{Timestamp, Verdict};
use crate::wire::PACKET_BASE_SIZE;
use crate::{host, serializer, types};
use vstd::prelude::*;

verus! {

/// Why a client could not be built.
#[derive(Debug, Clone, Copy, PartialEq, Eq, Structural)]
pub enum InitError {
    /// The server list was empty.
    NoServers,
    /// The network buffer was smaller than [`crate::PACKET_BASE_SIZE`].
    BufferTooSmall,
}

/// Why a time request could not be sent.
#[derive(Debug, Clone, Copy, PartialEq, Eq, Structural)]
pub enum SendError {
    /// The server's name could not be resolved.
    Dns,
    /// The transport failed, or reported a partial send, which UDP cannot do;
    /// or the clock read zero, which no request can carry.
    Network,
    /// Nothing could be sent within the block time.
    SendTimeout,
    /// The authentication interface refused, or returned a code too large for
    /// the space left in the buffer.
    Auth,
}

/// What happened while waiting for a response.
///
/// None of these is an error: each is the protocol working as designed. A
/// caller loops on [`Reception::NothingYet`] and sends a fresh request after
/// any other.
#[derive(Debug, Clone, Copy, PartialEq, Eq, Structural)]
pub enum Reception {
    /// A server answered with time and the clock was adjusted.
    Synchronised,
    /// Nothing arrived within the block time. The response timeout has not
    /// expired, so calling again is the right move.
    NothingYet,
    /// The server sent a Kiss-o'-Death. **The client has already rotated** to
    /// the next configured server.
    Rejected,
    /// The response timeout expired. **The client has already rotated.**
    TimedOut,
}

/// Why a response could not be used.
#[derive(Debug, Clone, Copy, PartialEq, Eq, Structural)]
pub enum ReceiveError {
    /// The transport failed, or reported a partial read, which UDP cannot do.
    Network,
    /// The packet failed validation: not from a server, a zero timestamp, or an
    /// originate field that does not echo the request.
    InvalidResponse,
    /// The authentication mechanism itself failed.
    Auth,
    /// The server failed authentication.
    ServerNotAuthenticated,
}

/// What an attempt to send `size` bytes came to: `None` if the transport moved
/// nothing and a retry is reasonable. UDP has no partial datagram, so any other
/// count than all of them is a failure.
#[must_use]
pub fn attempt_outcome(answer: Result<usize, NetworkError>, size: usize) -> (outcome: Option<
    Result<(), SendError>,
>)
    ensures
        outcome == protocol::after_attempt(answer, size as int),
{
    match answer {
        Err(_) => Some(Err(SendError::Network)),
        Ok(sent) => if sent == 0 {
            None
        } else if sent != size {
            Some(Err(SendError::Network))
        } else {
            Some(Ok(()))
        },
    }
}

/// A long-running SNTP client: one server at a time, rotating on refusal.
///
/// Built once with [`Client::new`], then driven by alternating
/// [`send_time_request`](Client::send_time_request) and
/// [`receive_time_response`](Client::receive_time_response). Both take the host
/// as an argument rather than owning it, so the same host can serve several
/// clients and a test can drive one with a script.
#[derive(Debug)]
pub struct Client<'a, A: Authenticator = NoAuth> {
    servers: &'a [ServerInfo<'a>],
    buffer: &'a mut [u8],
    current_server: usize,
    current_server_addr: u32,
    last_request_time: Timestamp,
    packet_size: u16,
    response_timeout_ms: u32,
    auth: A,
}

impl<'a, A: Authenticator> View for Client<'a, A> {
    type V = ClientState;

    closed spec fn view(&self) -> ClientState {
        ClientState {
            servers: server_list(self.servers@),
            buffer: self.buffer@,
            current: self.current_server as int,
            address: self.current_server_addr,
            request_time: self.last_request_time,
            packet_size: self.packet_size as int,
            response_timeout_ms: self.response_timeout_ms,
            authenticated: A::CONFIGURED,
        }
    }
}

/// A server list, as the model sees it.
pub open spec fn server_list(servers: Seq<ServerInfo<'_>>) -> Seq<Server> {
    Seq::new(servers.len(), |i: int| servers[i]@)
}

impl<'a> Client<'a, NoAuth> {
    /// A client with no authentication, which is the usual case.
    ///
    /// # Errors
    ///
    /// [`InitError::NoServers`] for an empty list, and
    /// [`InitError::BufferTooSmall`] for a buffer under [`PACKET_BASE_SIZE`].
    pub fn new(
        servers: &'a [ServerInfo<'a>],
        buffer: &'a mut [u8],
        response_timeout_ms: u32,
    ) -> (result: Result<Self, InitError>)
        ensures
            if servers@.len() == 0 {
                &&& result == Err::<Self, InitError>(InitError::NoServers)
                &&& final(buffer)@ == old(buffer)@
            } else if old(buffer)@.len() < PACKET_BASE_SIZE {
                &&& result == Err::<Self, InitError>(InitError::BufferTooSmall)
                &&& final(buffer)@ == old(buffer)@
            } else {
                &&& result is Ok
                &&& result->Ok_0.wf()
                &&& result->Ok_0@ == ClientState::initial(
                    server_list(servers@),
                    old(buffer)@,
                    response_timeout_ms,
                    false,
                )
                &&& result->Ok_0.authenticator() == NoAuth
                &&& final(result->Ok_0.lent_buffer())@ == final(buffer)@
            },
            ClientState::built(
                server_list(servers@),
                old(buffer)@,
                response_timeout_ms,
                false,
            ) == (match result {
                Ok(client) => Ok(client@),
                Err(error) => Err(error),
            }),
    {
        proof {
            host::no_auth_is_not_configured();
        }
        Self::with_authenticator(servers, buffer, response_timeout_ms, NoAuth)
    }
}

impl<'a, A: Authenticator> Client<'a, A> {
    /// The server in use is on the list, the packets fit in the buffer, and
    /// authentication is configured exactly where the authenticator is a real
    /// one.
    ///
    /// Every client is built so and stays so.
    pub open spec fn wf(&self) -> bool {
        self@.wf() && self@.authenticated == A::CONFIGURED
    }

    /// The authenticator of this client.
    pub closed spec fn authenticator(&self) -> A {
        self.auth
    }

    /// The buffer that was lent to this client for as long as it lives.
    pub closed spec fn lent_buffer(&self) -> &'a mut [u8] {
        self.buffer
    }

    /// A client that authenticates its requests and its servers.
    ///
    /// # Errors
    ///
    /// As [`Client::new`].
    pub fn with_authenticator(
        servers: &'a [ServerInfo<'a>],
        buffer: &'a mut [u8],
        response_timeout_ms: u32,
        auth: A,
    ) -> (result: Result<Self, InitError>)
        ensures
            if servers@.len() == 0 {
                &&& result == Err::<Self, InitError>(InitError::NoServers)
                &&& final(buffer)@ == old(buffer)@
            } else if old(buffer)@.len() < PACKET_BASE_SIZE {
                &&& result == Err::<Self, InitError>(InitError::BufferTooSmall)
                &&& final(buffer)@ == old(buffer)@
            } else {
                &&& result is Ok
                &&& result->Ok_0.wf()
                &&& result->Ok_0@ == ClientState::initial(
                    server_list(servers@),
                    old(buffer)@,
                    response_timeout_ms,
                    A::CONFIGURED,
                )
                &&& result->Ok_0.authenticator() == auth
                &&& final(result->Ok_0.lent_buffer())@ == final(buffer)@
            },
            ClientState::built(
                server_list(servers@),
                old(buffer)@,
                response_timeout_ms,
                A::CONFIGURED,
            ) == (match result {
                Ok(client) => Ok(client@),
                Err(error) => Err(error),
            }),
    {
        if servers.len() == 0 {
            return Err(InitError::NoServers);
        }
        if buffer.len() < PACKET_BASE_SIZE {
            return Err(InitError::BufferTooSmall);
        }
        Ok(
            Client {
                servers,
                buffer,
                current_server: 0,
                current_server_addr: 0,
                last_request_time: Timestamp::new(0, 0),
                packet_size: PACKET_BASE_SIZE as u16,
                response_timeout_ms,
                auth,
            },
        )
    }

    /// The server the next request will go to.
    #[must_use]
    pub fn current_server(&self) -> (server: &ServerInfo<'a>)
        requires
            self.wf(),
        ensures
            server@ == self@.server(),
    {
        &self.servers[self.current_server]
    }

    /// The index of the server in use, which changes as the client rotates.
    #[must_use]
    pub fn current_server_index(&self) -> (index: usize)
        ensures
            index == self@.current,
    {
        self.current_server
    }

    /// The timestamp of the last request, which a server must echo back.
    ///
    /// Zero means there is no request outstanding:
    /// [`receive_time_response`](Client::receive_time_response) clears it after
    /// a response it could use, so a replay of the same request cannot be
    /// serviced twice.
    #[must_use]
    pub fn last_request_time(&self) -> (time: Timestamp)
        ensures
            time == self@.request_time,
    {
        self.last_request_time
    }

    /// The size of the packets being exchanged: 48, plus any authentication
    /// data the last request carried.
    #[must_use]
    pub fn packet_size(&self) -> (size: u16)
        ensures
            size == self@.packet_size,
    {
        self.packet_size
    }

    /// The resolved address of the server in use.
    #[must_use]
    pub fn current_server_address(&self) -> (address: u32)
        ensures
            address == self@.address,
    {
        self.current_server_addr
    }

    /// Move on to the next server.
    ///
    /// Wraps around rather than running out: a device with no time at all is
    /// worse than a device that asks a server which refused it an hour ago.
    pub fn rotate_server(&mut self)
        requires
            old(self).wf(),
        ensures
            final(self).wf(),
            final(self)@ == old(self)@.rotated(),
            final(self).authenticator() == old(self).authenticator(),
            final(final(self).lent_buffer())@ == final(old(self).lent_buffer())@,
    {
        let count: usize = self.servers.len();
        self.current_server = if self.current_server == count - 1 {
            0
        } else {
            self.current_server + 1
        };
    }

    /// Prepare a request for the reading `now` of the clock: its timestamp is
    /// randomized and remembered, and its packet stands in the buffer.
    ///
    /// # Errors
    ///
    /// [`SendError::Network`] for a clock that reads zero, which no request can
    /// carry.
    pub fn stamp_request(&mut self, now: Timestamp, random_number: u32) -> (result: Result<
        (),
        SendError,
    >)
        requires
            old(self).wf(),
        ensures
            final(self).wf(),
            final(self)@ == old(self)@.stamped(now, random_number),
            result == (if now == types::zero_time() {
                Err::<(), SendError>(SendError::Network)
            } else {
                Ok(())
            }),
            final(self).authenticator() == old(self).authenticator(),
            final(final(self).lent_buffer())@ == final(old(self).lent_buffer())@,
    {
        self.last_request_time = now;
        match serialize_request(&mut self.last_request_time, random_number, self.buffer) {
            Ok(()) => Ok(()),
            Err(_) => Err(SendError::Network),
        }
    }

    /// Take note of what generating the authentication code came to. The code
    /// must fit in what is left behind the 48-byte packet.
    ///
    /// The size of the packets changes only on success: a failed generation
    /// leaves that of the previous request in place.
    ///
    /// # Errors
    ///
    /// [`SendError::Auth`] if there is no code, or no room for it.
    pub fn admit_auth_code(&mut self, generated: Result<u16, AuthError>) -> (result: Result<
        (),
        SendError,
    >)
        requires
            old(self).wf(),
            old(self)@.authenticated,
        ensures
            final(self).wf(),
            match generated {
                Ok(code_size) if old(self)@.has_room_for(code_size) => {
                    &&& result == Ok::<(), SendError>(())
                    &&& final(self)@ == old(self)@.coded(code_size)
                },
                _ => {
                    &&& result == Err::<(), SendError>(SendError::Auth)
                    &&& final(self)@ == old(self)@
                },
            },
            final(self).authenticator() == old(self).authenticator(),
            final(final(self).lent_buffer())@ == final(old(self).lent_buffer())@,
    {
        let code_size: u16 = match generated {
            Ok(code_size) => code_size,
            Err(_) => {
                return Err(SendError::Auth);
            },
        };
        if code_size as usize > self.buffer.len() - PACKET_BASE_SIZE {
            return Err(SendError::Auth);
        }
        self.packet_size = (PACKET_BASE_SIZE as u16).saturating_add(code_size);
        Ok(())
    }

    /// Send a time request: resolve, stamp, authenticate, send.
    ///
    /// The top 16 bits of `random_number` go into the low bits of the request's
    /// fractions, so that a response cannot be predicted and replayed.
    /// `block_time_ms` bounds the retrying of a transport that keeps reporting
    /// that it sent nothing.
    ///
    /// # Errors
    ///
    /// See [`SendError`].
    pub fn send_time_request<H: SntpHost>(
        &mut self,
        host: &mut H,
        random_number: u32,
        block_time_ms: u32,
    ) -> (result: Result<(), SendError>)
        requires
            old(self).wf(),
        ensures
            final(self).wf(),
            exists|events: Seq<Event>|
                {
                    &&& #[trigger] protocol::happens(
                        *old(host),
                        old(self).authenticator(),
                        events,
                        *final(host),
                        final(self).authenticator(),
                    )
                    &&& protocol::send_course(
                        block_time_ms,
                        (SendPhase::Resolving { random_number }, old(self)@),
                        events,
                    ) == Some((SendPhase::Done { result }, final(self)@))
                },
            final(final(self).lent_buffer())@ == final(old(self).lent_buffer())@,
    {
        let ghost h0 = *host;
        let ghost a0 = self.authenticator();
        let ghost c0 = self@;
        let ghost start = (SendPhase::Resolving { random_number }, c0);
        let ghost mut events: Seq<Event> = Seq::empty();
        let server: ServerInfo<'a> = self.servers[self.current_server];

        // Resolved on every request and never cached: a pool spreads its load
        // by rotating its names.
        let resolved: Option<u32> = host.resolve_dns(&server);
        proof {
            let event = Event::Resolve { server: server@, address: resolved };
            protocol::send_goes_on(
                h0,
                a0,
                block_time_ms,
                start,
                events,
                h0,
                a0,
                start,
                event,
                *host,
                self.authenticator(),
            );
            events = events.push(event);
        }
        let address: u32 = match resolved {
            Some(address) => address,
            None => {
                return Err(SendError::Dns);
            },
        };
        self.current_server_addr = address;

        let ghost h1 = *host;
        let ghost c1 = self@;
        let now: Timestamp = host.now();
        let stamped = self.stamp_request(now, random_number);
        proof {
            assert(c1 =~= c0.resolved(address));
            let event = Event::ReadClock { time: now };
            protocol::send_goes_on(
                h0,
                a0,
                block_time_ms,
                start,
                events,
                h1,
                a0,
                (SendPhase::Stamping { random_number }, c1),
                event,
                *host,
                self.authenticator(),
            );
            events = events.push(event);
        }
        if stamped.is_err() {
            return Err(SendError::Network);
        }
        if A::CONFIGURED {
            let ghost c2 = self@;
            let generated: Result<u16, AuthError> = self.auth.generate_client_auth(
                &server,
                self.buffer,
            );
            let ghost c3 = self@;
            let admitted = self.admit_auth_code(generated);
            proof {
                let event = Event::GenerateAuth {
                    server: server@,
                    before: c2.buffer,
                    after: c3.buffer,
                    answer: generated,
                };
                assert(c3 =~= ClientState { buffer: c3.buffer, ..c2 });
                protocol::send_goes_on(
                    h0,
                    a0,
                    block_time_ms,
                    start,
                    events,
                    *host,
                    a0,
                    (SendPhase::Authenticating, c2),
                    event,
                    *host,
                    self.authenticator(),
                );
                events = events.push(event);
            }
            if admitted.is_err() {
                return Err(SendError::Auth);
            }
        }
        let ghost h2 = *host;
        let ghost a2 = self.authenticator();
        let ghost c4 = self@;
        let result = self.send_packet(host, address, server.port, block_time_ms);
        proof {
            let rest = choose|rest: Seq<Event>|
                {
                    &&& #[trigger] protocol::happens(h2, a2, rest, *host, self.authenticator())
                    &&& protocol::send_course(block_time_ms, (SendPhase::Opening, c4), rest)
                        == Some((SendPhase::Done { result }, self@))
                };
            protocol::happens_in_turn(h0, a0, events, h2, a2, rest, *host, self.authenticator());
            protocol::send_course_in_turn(
                block_time_ms,
                start,
                events,
                (SendPhase::Opening, c4),
                rest,
            );
        }
        result
    }

    /// Send the packet, retrying a transport that moves nothing.
    fn send_packet<H: SntpHost>(
        &mut self,
        host: &mut H,
        address: u32,
        port: u16,
        block_time_ms: u32,
    ) -> (result: Result<(), SendError>)
        requires
            old(self).wf(),
            address == old(self)@.address,
            port == old(self)@.server().port,
        ensures
            final(self).wf(),
            exists|events: Seq<Event>|
                {
                    &&& #[trigger] protocol::happens(
                        *old(host),
                        old(self).authenticator(),
                        events,
                        *final(host),
                        final(self).authenticator(),
                    )
                    &&& protocol::send_course(
                        block_time_ms,
                        (SendPhase::Opening, old(self)@),
                        events,
                    ) == Some((SendPhase::Done { result }, final(self)@))
                },
            final(final(self).lent_buffer())@ == final(old(self).lent_buffer())@,
    {
        let ghost h0 = *host;
        let ghost a0 = self.authenticator();
        let ghost c0 = self@;
        let ghost start = (SendPhase::Opening, c0);
        let ghost mut events: Seq<Event> = Seq::empty();
        let size: usize = self.packet_size as usize;

        // The retry window opens here, before the first attempt.
        let started: Timestamp = host.now();
        proof {
            let event = Event::ReadClock { time: started };
            protocol::send_goes_on(
                h0,
                a0,
                block_time_ms,
                start,
                events,
                h0,
                a0,
                start,
                event,
                *host,
                self.authenticator(),
            );
            events = events.push(event);
        }
        let mut idle: u64 = 0;
        loop
            invariant
                h0 == *old(host),
                a0 == old(self).authenticator(),
                c0 == old(self)@,
                *self == *old(self),
                self.wf(),
                self@ == c0,
                self.authenticator() == a0,
                size == c0.packet_size,
                address == c0.address,
                port == c0.server().port,
                idle < MAX_IDLE_ROUNDS,
                start == (SendPhase::Opening, c0),
                protocol::happens(h0, a0, events, *host, a0),
                protocol::send_course(block_time_ms, start, events) == Some(
                    (SendPhase::Sending { started, idle: idle as int }, c0),
                ),
            decreases MAX_IDLE_ROUNDS - idle,
        {
            let ghost h1 = *host;
            let packet: &[u8] = &self.buffer[0..size];
            let answer: Result<usize, NetworkError> = host.send_to(address, port, packet);
            proof {
                let event = Event::Send { address, port, packet: packet@, answer };
                assert(packet@ =~= c0.packet());
                protocol::send_goes_on(
                    h0,
                    a0,
                    block_time_ms,
                    start,
                    events,
                    h1,
                    a0,
                    (SendPhase::Sending { started, idle: idle as int }, c0),
                    event,
                    *host,
                    self.authenticator(),
                );
                events = events.push(event);
            }
            match attempt_outcome(answer, size) {
                Some(result) => {
                    return result;
                },
                None => {},
            }
            let ghost h2 = *host;
            let now: Timestamp = host.now();
            proof {
                let event = Event::ReadClock { time: now };
                protocol::send_goes_on(
                    h0,
                    a0,
                    block_time_ms,
                    start,
                    events,
                    h2,
                    a0,
                    (SendPhase::Waiting { started, idle: idle as int }, c0),
                    event,
                    *host,
                    self.authenticator(),
                );
                events = events.push(event);
            }
            if calculate_elapsed_ms(&now, &started) >= block_time_ms as u64 {
                return Err(SendError::SendTimeout);
            }
            if idle == MAX_IDLE_ROUNDS - 1 {
                return Err(SendError::SendTimeout);
            }
            idle = idle + 1;
        }
    }

    /// Decide what a round in which nothing was waiting means, when the clock
    /// reads `now`: `None` if neither deadline has passed and reading again is
    /// the right move. The response timeout is looked at first, and rotates the
    /// server.
    pub fn judge_silence(
        &mut self,
        now: Timestamp,
        started: Timestamp,
        block_time_ms: u32,
    ) -> (outcome: Option<Reception>)
        requires
            old(self).wf(),
        ensures
            final(self).wf(),
            outcome == protocol::after_silence(old(self)@, now, started, block_time_ms),
            final(self)@ == (if outcome == Some(Reception::TimedOut) {
                old(self)@.rotated()
            } else {
                old(self)@
            }),
            final(self).authenticator() == old(self).authenticator(),
            final(final(self).lent_buffer())@ == final(old(self).lent_buffer())@,
    {
        let since_request: u64 = calculate_elapsed_ms(&now, &self.last_request_time);
        let in_this_call: u64 = calculate_elapsed_ms(&now, &started);

        if since_request >= self.response_timeout_ms as u64 {
            self.rotate_server();
            return Some(Reception::TimedOut);
        }
        if in_this_call >= block_time_ms as u64 {
            return Some(Reception::NothingYet);
        }
        None
    }

    /// Decide what the response in the buffer means, when it arrived at
    /// `received_at`. A refusal rotates the server; it makes the client forget
    /// its request only where authentication is configured.
    ///
    /// An accepted verdict changes nothing: the request stays outstanding, and
    /// the same datagram would be accepted again. It is
    /// [`receive_time_response`](Client::receive_time_response) that hands the
    /// time to the clock and then settles the request.
    ///
    /// # Errors
    ///
    /// [`ReceiveError::InvalidResponse`] if the packet does not answer the
    /// request.
    pub fn judge_reply(&mut self, received_at: Timestamp) -> (result: Result<Verdict, ReceiveError>)
        requires
            old(self).wf(),
        ensures
            final(self).wf(),
            match serializer::reading(old(self)@.packet(), old(self)@.request_time, received_at) {
                Ok(verdict) => result == Ok::<Verdict, ReceiveError>(verdict),
                Err(_) => result == Err::<Verdict, ReceiveError>(ReceiveError::InvalidResponse),
            },
            final(self)@ == (if result matches Ok(Verdict::Rejected(_)) {
                old(self)@.refused()
            } else {
                old(self)@
            }),
            final(self).authenticator() == old(self).authenticator(),
            final(final(self).lent_buffer())@ == final(old(self).lent_buffer())@,
    {
        let packet: &[u8] = &self.buffer[0..self.packet_size as usize];
        assert(packet@ =~= self@.packet());
        match deserialize_response(&self.last_request_time, &received_at, packet) {
            Err(_) => Err(ReceiveError::InvalidResponse),
            Ok(Verdict::Rejected(rejected)) => {
                self.rotate_server();
                if A::CONFIGURED {
                    self.last_request_time = Timestamp::new(0, 0);
                }
                Ok(Verdict::Rejected(rejected))
            },
            Ok(Verdict::Accepted(accepted)) => Ok(Verdict::Accepted(accepted)),
        }
    }

    /// Wait for a response: read, validate, and adjust the clock.
    ///
    /// Retries the read until either the block time expires (giving
    /// [`Reception::NothingYet`]) or the response timeout does (giving
    /// [`Reception::TimedOut`], after rotating the server).
    ///
    /// # The block time is only as good as the clock
    ///
    /// Both deadlines are measured with [`SntpHost::now`], so a clock that does
    /// not make progress past one of them keeps this call busy for
    /// [`MAX_IDLE_ROUNDS`] rounds, which is for ever. A stopped clock is the
    /// obvious case; an oscillating one is the realistic one, because a host
    /// that steps the clock back on a negative offset can produce readings that
    /// alternate rather than advance. If your clock can misbehave, give the
    /// caller an escape of its own: a task watchdog, or a clock that refuses to
    /// go backwards.
    ///
    /// # The replay-protection asymmetry
    ///
    /// After a response the client can use, it clears its stored request
    /// timestamp, so the response to a replayed request cannot be serviced.
    /// After a **Kiss-o'-Death** it clears it only when authentication is
    /// configured: without authentication anyone can forge a rejection, and
    /// clearing on a forged one would make the real response fail its originate
    /// check. That would turn a spoofed packet into a denial of service.
    ///
    /// # Errors
    ///
    /// See [`ReceiveError`].
    pub fn receive_time_response<H: SntpHost>(
        &mut self,
        host: &mut H,
        block_time_ms: u32,
    ) -> (result: Result<Reception, ReceiveError>)
        requires
            old(self).wf(),
        ensures
            final(self).wf(),
            exists|events: Seq<Event>|
                {
                    &&& #[trigger] protocol::happens(
                        *old(host),
                        old(self).authenticator(),
                        events,
                        *final(host),
                        final(self).authenticator(),
                    )
                    &&& protocol::receive_course(
                        block_time_ms,
                        (ReceivePhase::Opening, old(self)@),
                        events,
                    ) == Some((ReceivePhase::Done { result }, final(self)@))
                },
            final(final(self).lent_buffer())@ == final(old(self).lent_buffer())@,
    {
        let ghost h0 = *host;
        let ghost a0 = self.authenticator();
        let ghost c0 = self@;
        let ghost start = (ReceivePhase::Opening, c0);
        let ghost mut events: Seq<Event> = Seq::empty();
        let server: ServerInfo<'a> = self.servers[self.current_server];
        let size: usize = self.packet_size as usize;
        let address: u32 = self.current_server_addr;

        // The base of the block time, taken before the first read.
        let started: Timestamp = host.now();
        proof {
            let event = Event::ReadClock { time: started };
            protocol::receive_goes_on(
                h0,
                a0,
                block_time_ms,
                start,
                events,
                h0,
                a0,
                start,
                event,
                *host,
                a0,
            );
            events = events.push(event);
        }
        let mut idle: u64 = 0;
        loop
            invariant
                h0 == *old(host),
                a0 == old(self).authenticator(),
                c0 == old(self)@,
                self.wf(),
                self.authenticator() == a0,
                final(self.lent_buffer())@ == final(old(self).lent_buffer())@,
                server@ == self@.server(),
                size == self@.packet_size,
                address == self@.address,
                idle < MAX_IDLE_ROUNDS,
                start == (ReceivePhase::Opening, c0),
                protocol::happens(h0, a0, events, *host, a0),
                protocol::receive_course(block_time_ms, start, events) == Some(
                    (ReceivePhase::Reading { started, idle: idle as int }, self@),
                ),
            decreases MAX_IDLE_ROUNDS - idle,
        {
            let ghost h1 = *host;
            let ghost c1 = self@;
            let (packet, _rest) = self.buffer.split_at_mut(size);
            let ghost before = packet@;
            let read: Result<usize, NetworkError> = host.recv_from(address, server.port, packet);
            let ghost after = packet@;
            let ghost c2 = self@;
            proof {
                assert(before =~= c1.packet());
                assert(after =~= c2.packet());
                let event = Event::Receive {
                    address,
                    port: server.port,
                    before: c1.packet(),
                    after: c2.packet(),
                    answer: read,
                };
                assert(c2 =~= c1.filled(c2.packet()));
                protocol::receive_goes_on(
                    h0,
                    a0,
                    block_time_ms,
                    start,
                    events,
                    h1,
                    a0,
                    (ReceivePhase::Reading { started, idle: idle as int }, c1),
                    event,
                    *host,
                    self.authenticator(),
                );
                events = events.push(event);
            }
            let read: usize = match read {
                Ok(read) => read,
                Err(_) => {
                    return Err(ReceiveError::Network);
                },
            };
            let ghost h2 = *host;
            if read == size {
                let received_at: Timestamp = host.now();
                proof {
                    let event = Event::ReadClock { time: received_at };
                    protocol::receive_goes_on(
                        h0,
                        a0,
                        block_time_ms,
                        start,
                        events,
                        h2,
                        a0,
                        (ReceivePhase::Timing, c2),
                        event,
                        *host,
                        a0,
                    );
                    events = events.push(event);
                }
                let ghost h3 = *host;
                let result = self.process_response(
                    host,
                    &server,
                    received_at,
                    Ghost(block_time_ms),
                );
                proof {
                    let rest = choose|rest: Seq<Event>|
                        {
                            &&& #[trigger] protocol::happens(
                                h3,
                                a0,
                                rest,
                                *host,
                                self.authenticator(),
                            )
                            &&& protocol::receive_course(
                                block_time_ms,
                                protocol::arrived(c2, received_at),
                                rest,
                            ) == Some((ReceivePhase::Done { result }, self@))
                        };
                    protocol::happens_in_turn(
                        h0,
                        a0,
                        events,
                        h3,
                        a0,
                        rest,
                        *host,
                        self.authenticator(),
                    );
                    protocol::receive_course_in_turn(
                        block_time_ms,
                        start,
                        events,
                        protocol::arrived(c2, received_at),
                        rest,
                    );
                }
                return result;
            }
            if read != 0 {
                // A partial read, which UDP cannot produce honestly.
                return Err(ReceiveError::Network);
            }
            let now: Timestamp = host.now();
            let outcome: Option<Reception> = self.judge_silence(now, started, block_time_ms);
            proof {
                let event = Event::ReadClock { time: now };
                protocol::receive_goes_on(
                    h0,
                    a0,
                    block_time_ms,
                    start,
                    events,
                    h2,
                    a0,
                    (ReceivePhase::Waiting { started, idle: idle as int }, c2),
                    event,
                    *host,
                    a0,
                );
                events = events.push(event);
            }
            match outcome {
                Some(reception) => {
                    return Ok(reception);
                },
                None => {},
            }
            if idle == MAX_IDLE_ROUNDS - 1 {
                return Ok(Reception::NothingYet);
            }
            idle = idle + 1;
        }
    }

    /// Authenticate the response in the buffer, judge it, and hand a usable
    /// time to the clock.
    fn process_response<H: SntpHost>(
        &mut self,
        host: &mut H,
        server: &ServerInfo<'a>,
        received_at: Timestamp,
        Ghost(block_time_ms): Ghost<u32>,
    ) -> (result: Result<Reception, ReceiveError>)
        requires
            old(self).wf(),
            server@ == old(self)@.server(),
        ensures
            final(self).wf(),
            exists|events: Seq<Event>|
                {
                    &&& #[trigger] protocol::happens(
                        *old(host),
                        old(self).authenticator(),
                        events,
                        *final(host),
                        final(self).authenticator(),
                    )
                    &&& protocol::receive_course(
                        block_time_ms,
                        protocol::arrived(old(self)@, received_at),
                        events,
                    ) == Some((ReceivePhase::Done { result }, final(self)@))
                },
            final(final(self).lent_buffer())@ == final(old(self).lent_buffer())@,
    {
        let ghost h0 = *host;
        let ghost a0 = self.authenticator();
        let ghost c0 = self@;
        let ghost start = protocol::arrived(c0, received_at);
        let ghost mut events: Seq<Event> = Seq::empty();

        if A::CONFIGURED {
            let packet: &[u8] = &self.buffer[0..self.packet_size as usize];
            assert(packet@ =~= c0.packet());
            let checked: Result<(), AuthError> = self.auth.validate_server_auth(server, packet);
            proof {
                let event = Event::ValidateAuth {
                    server: server@,
                    packet: c0.packet(),
                    answer: checked,
                };
                protocol::receive_goes_on(
                    h0,
                    a0,
                    block_time_ms,
                    start,
                    events,
                    h0,
                    a0,
                    start,
                    event,
                    *host,
                    self.authenticator(),
                );
                events = events.push(event);
                assert(self@ =~= c0);
            }
            match checked {
                Ok(()) => {},
                Err(AuthError::Failed) => {
                    return Err(ReceiveError::Auth);
                },
                Err(AuthError::ServerNotAuthenticated) => {
                    return Err(ReceiveError::ServerNotAuthenticated);
                },
            }
        }
        let ghost a1 = self.authenticator();
        assert(protocol::happens(h0, a0, events, *host, a1));
        match self.judge_reply(received_at) {
            Err(error) => Err(error),
            Ok(Verdict::Rejected(_)) => Ok(Reception::Rejected),
            Ok(Verdict::Accepted(accepted)) => {
                host.adjust_clock(
                    server,
                    accepted.server_time,
                    accepted.clock_offset_ms,
                    accepted.leap_second,
                );

                // A request that has been answered must not be answerable
                // again: the server keeps no state, so the response to a
                // replayed request would be accepted here a second time.
                self.last_request_time = Timestamp::new(0, 0);
                proof {
                    let event = Event::AdjustClock {
                        server: server@,
                        server_time: accepted.server_time,
                        offset_ms: accepted.clock_offset_ms,
                        leap_second: accepted.leap_second,
                    };
                    assert(self@ =~= c0.settled());
                    protocol::receive_goes_on(
                        h0,
                        a0,
                        block_time_ms,
                        start,
                        events,
                        h0,
                        a1,
                        (ReceivePhase::Adjusting { accepted }, c0),
                        event,
                        *host,
                        self.authenticator(),
                    );
                    events = events.push(event);
                }
                Ok(Reception::Synchronised)
            },
        }
    }
}

} // verus!

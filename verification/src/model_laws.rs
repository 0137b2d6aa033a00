//! What the parts of the client's model must satisfy.
//!
//! The client's calls are stated over these parts; each law says in plain
//! numbers and fields what one of them comes to.

use crate::client::{InitError, ReceiveError, Reception, SendError};
use crate::host::{AuthError, Authenticator, NetworkError, NoAuth, ServerInfo, SntpHost};
use crate::protocol::{ClientState, Event, ReceivePhase};
use crate::types::{Timestamp, Verdict};
use crate::{arithmetic, client, protocol, serializer};
use vstd::prelude::*;

verus! {

// ---- the surroundings ----------------------------------------------------

/// Without a callback nothing happens: the surroundings are as they were.
pub proof fn without_a_callback_nothing_happens<H: SntpHost, A: Authenticator>(
    host: H,
    auth: A,
    last_host: H,
    last_auth: A,
)
    ensures
        protocol::happens(host, auth, Seq::<Event>::empty(), last_host, last_auth) <==> last_host
            == host && last_auth == auth,
{
}

/// One callback is answered by the one it was made to, which may then be in
/// another state; the other is as it was. Generating a code and checking a
/// response are the authenticator's, all else is the host's.
pub proof fn one_callback_is_answered_by_its_own<H: SntpHost, A: Authenticator>(
    host: H,
    auth: A,
    event: Event,
    last_host: H,
    last_auth: A,
)
    ensures
        protocol::happens(host, auth, seq![event], last_host, last_auth) <==> (if event
            is GenerateAuth || event is ValidateAuth {
            last_host == host && auth.auth_step(event, &last_auth)
        } else {
            last_auth == auth && host.host_step(event, &last_host)
        }),
{
    let events = seq![event];
    assert(events.drop_last() =~= Seq::<Event>::empty());
    if protocol::happens(host, auth, events, last_host, last_auth) {
        let (h, a) = choose|h: H, a: A|
            protocol::happens(host, auth, events.drop_last(), h, a)
                && #[trigger] protocol::responds(h, a, events.last(), last_host, last_auth);
        assert(h == host && a == auth);
    } else {
        assert(protocol::happens(host, auth, events.drop_last(), host, auth));
        assert(!protocol::responds(host, auth, events.last(), last_host, last_auth));
    }
}

/// What happens in two stretches is what happens in one, by way of the state in
/// between.
pub proof fn callbacks_happen_in_turn<H: SntpHost, A: Authenticator>(
    host: H,
    auth: A,
    first: Seq<Event>,
    second: Seq<Event>,
    last_host: H,
    last_auth: A,
)
    ensures
        protocol::happens(host, auth, first + second, last_host, last_auth) <==> exists|h: H, a: A|
            #[trigger] protocol::happens(host, auth, first, h, a) && protocol::happens(
                h,
                a,
                second,
                last_host,
                last_auth,
            ),
    decreases second.len(),
{
    if exists|h: H, a: A| #[trigger]
        protocol::happens(host, auth, first, h, a) && protocol::happens(
            h,
            a,
            second,
            last_host,
            last_auth,
        ) {
        let (h, a) = choose|h: H, a: A| #[trigger]
            protocol::happens(host, auth, first, h, a) && protocol::happens(
                h,
                a,
                second,
                last_host,
                last_auth,
            );
        protocol::happens_in_turn(host, auth, first, h, a, second, last_host, last_auth);
    }
    if protocol::happens(host, auth, first + second, last_host, last_auth) {
        if second.len() == 0 {
            assert(first + second =~= first);
            assert(protocol::happens(last_host, last_auth, second, last_host, last_auth));
        } else {
            let events = first + second;
            assert(events.drop_last() =~= first + second.drop_last());
            let (h1, a1) = choose|h1: H, a1: A|
                protocol::happens(host, auth, events.drop_last(), h1, a1)
                    && #[trigger] protocol::responds(h1, a1, events.last(), last_host, last_auth);
            callbacks_happen_in_turn(host, auth, first, second.drop_last(), h1, a1);
            let (h, a) = choose|h: H, a: A| #[trigger]
                protocol::happens(host, auth, first, h, a) && protocol::happens(
                    h,
                    a,
                    second.drop_last(),
                    h1,
                    a1,
                );
            protocol::happens_next(
                h,
                a,
                second.drop_last(),
                h1,
                a1,
                second.last(),
                last_host,
                last_auth,
            );
            assert(second.drop_last().push(second.last()) =~= second);
            assert(protocol::happens(host, auth, first, h, a));
        }
    }
}

/// No authentication adds no bytes, leaves the buffer alone and objects to no
/// response.
pub proof fn no_authentication_does_nothing(event: Event, next: NoAuth)
    requires
        NoAuth.auth_step(event, &next),
    ensures
        event is GenerateAuth ==> event->GenerateAuth_after == event->GenerateAuth_before
            && event->GenerateAuth_answer == Ok::<u16, AuthError>(0),
        event is ValidateAuth ==> event->ValidateAuth_answer is Ok,
        !NoAuth::CONFIGURED,
{
    crate::host::no_auth_is_not_configured();
}

// ---- building a client ---------------------------------------------------

/// The model's list of servers is the caller's: as long, in the same order,
/// with the same names and ports.
pub proof fn a_server_list_is_kept(servers: Seq<ServerInfo<'_>>, i: int)
    requires
        0 <= i < servers.len(),
    ensures
        client::server_list(servers).len() == servers.len(),
        client::server_list(servers)[i].name == servers[i].name@,
        client::server_list(servers)[i].port == servers[i].port,
{
}

/// **Building a client.** It is refused for want of a server first, then for a
/// buffer under 48 bytes, and for nothing else. A client that is built uses the
/// first server, has no address and no request, exchanges 48 bytes, and has the
/// servers, the buffer and the timeout it was given.
pub proof fn a_client_needs_a_server_and_a_buffer(
    servers: Seq<protocol::Server>,
    buffer: Seq<u8>,
    response_timeout_ms: u32,
    authenticated: bool,
)
    ensures
        ({
            let built = ClientState::built(servers, buffer, response_timeout_ms, authenticated);
            if servers.len() == 0 {
                built == Err::<ClientState, InitError>(InitError::NoServers)
            } else if buffer.len() < 48 {
                built == Err::<ClientState, InitError>(InitError::BufferTooSmall)
            } else {
                built == Ok::<ClientState, InitError>(
                    ClientState {
                        servers,
                        buffer,
                        current: 0,
                        address: 0,
                        request_time: Timestamp { seconds: 0, fractions: 0 },
                        packet_size: 48,
                        response_timeout_ms,
                        authenticated,
                    },
                ) && built->Ok_0.wf()
            }
        }),
{
}

/// A client is well formed where its server is on the list, its packets are 48
/// bytes or more, fit in the buffer and in 16 bits, and are larger than 48 bytes
/// only where authentication is configured.
pub proof fn a_client_is_well_formed_where_things_fit(client: ClientState)
    ensures
        client.wf() <==> {
            &&& 0 <= client.current < client.servers.len()
            &&& 48 <= client.packet_size <= client.buffer.len()
            &&& client.packet_size <= 65_535
            &&& client.authenticated || client.packet_size == 48
        },
{
}

// ---- the decisions -------------------------------------------------------

/// The server in use is the one at the current index, and the packet is as much
/// of the front of the buffer as is exchanged.
pub proof fn a_client_points_into_its_lists(client: ClientState)
    requires
        client.wf(),
    ensures
        client.server() == client.servers[client.current],
        client.packet() == client.buffer.subrange(0, client.packet_size),
{
    assert(client.packet() =~= client.buffer.subrange(0, client.packet_size));
}

/// The next server is one further on the list, behind the last the first, and
/// nothing else changes.
pub proof fn rotation_goes_one_further(client: ClientState)
    requires
        client.wf(),
    ensures
        ({
            let next = client.rotated();
            &&& next == (ClientState { current: next.current, ..client })
            &&& 0 <= next.current < client.servers.len()
            &&& next.current == client.current + 1 || (next.current == 0 && client.current + 1
                == client.servers.len())
        }),
{
}

/// **Stamping.** At a reading of zero no packet is written, and the request is
/// zero. At any other reading the request is the reading with its random bits,
/// its packet stands in the first 48 bytes, and nothing else changes.
pub proof fn stamping_writes_the_request(client: ClientState, now: Timestamp, random_number: u32)
    requires
        client.wf(),
    ensures
        ({
            let stamped = client.stamped(now, random_number);
            let request = serializer::randomized(now, random_number);
            if now.seconds == 0 && now.fractions == 0 {
                stamped == (ClientState { request_time: now, ..client })
            } else {
                &&& stamped == (ClientState {
                    request_time: request,
                    buffer: stamped.buffer,
                    ..client
                })
                &&& stamped.buffer.len() == client.buffer.len()
                &&& stamped.buffer.subrange(0, 48) == serializer::request_packet(request)
                &&& stamped.buffer.subrange(48, client.buffer.len() as int)
                    == client.buffer.subrange(48, client.buffer.len() as int)
            }
        }),
{
    let stamped = client.stamped(now, random_number);
    let request = serializer::randomized(now, random_number);
    if !(now.seconds == 0 && now.fractions == 0) {
        crate::codec_laws::a_request_is_a_client_packet(request);
        assert(stamped.buffer.subrange(0, 48) =~= serializer::request_packet(request));
        assert(stamped.buffer.subrange(48, client.buffer.len() as int) =~= client.buffer.subrange(
            48,
            client.buffer.len() as int,
        ));
    }
}

/// **Room for a code.** A code fits exactly where it leaves the buffer room for
/// the 48 bytes in front of it, and then the packets grow by it, up to 65,535
/// bytes.
pub proof fn a_code_fits_behind_the_packet(client: ClientState, code_size: u16)
    ensures
        client.has_room_for(code_size) <==> code_size <= client.buffer.len() - 48,
        client.coded(code_size) == (ClientState {
            packet_size: client.coded(code_size).packet_size,
            ..client
        }),
        client.coded(code_size).packet_size == 48 + code_size || (client.coded(
            code_size,
        ).packet_size == 65_535 && 48 + code_size > 65_535),
{
}

/// **An attempt to send.** Only a transport that took exactly the packet has
/// sent it, only one that took nothing is worth another attempt, and everything
/// else is a network error.
pub proof fn an_attempt_is_all_or_nothing(answer: Result<usize, NetworkError>, size: int)
    requires
        size > 0,
    ensures
        protocol::after_attempt(answer, size) is None <==> answer is Ok && answer->Ok_0 == 0,
        protocol::after_attempt(answer, size) == Some(Ok::<(), SendError>(())) <==> answer is Ok
            && answer->Ok_0 == size,
        answer is Err || (answer->Ok_0 != 0 && answer->Ok_0 != size) ==> protocol::after_attempt(
            answer,
            size,
        ) == Some(Err::<(), SendError>(SendError::Network)),
{
}

/// **Silence.** A response has timed out exactly where the milliseconds from the
/// request to the reading are at least the timeout, for every timeout and
/// whatever the block time. Where it has not, nothing has come yet exactly where
/// the milliseconds from the start of the call are at least the block time. In
/// all other cases it is worth reading again.
pub proof fn silence_is_measured_from_the_request(
    client: ClientState,
    now: Timestamp,
    started: Timestamp,
    block_time_ms: u32,
)
    ensures
        ({
            let outcome = protocol::after_silence(client, now, started, block_time_ms);
            let late = arithmetic::elapsed_ms(now, client.request_time)
                >= client.response_timeout_ms;
            let blocked = arithmetic::elapsed_ms(now, started) >= block_time_ms;
            &&& outcome == Some(Reception::TimedOut) <==> late
            &&& outcome == Some(Reception::NothingYet) <==> !late && blocked
            &&& outcome is None <==> !late && !blocked
        }),
        client.overdue(now) <==> arithmetic::elapsed_ms(now, client.request_time)
            >= client.response_timeout_ms,
        protocol::blocked_long_enough(now, started, block_time_ms) <==> arithmetic::elapsed_ms(
            now,
            started,
        ) >= block_time_ms,
{
}

/// What a client forgets: after a usable response its request, after a refusal
/// its server, and its request as well exactly where authentication is
/// configured.
pub proof fn a_client_forgets_no_more_than_it_must(client: ClientState)
    requires
        client.wf(),
    ensures
        client.settled() == (ClientState {
            request_time: Timestamp { seconds: 0, fractions: 0 },
            ..client
        }),
        client.refused() == (ClientState {
            current: client.rotated().current,
            request_time: if client.authenticated {
                Timestamp { seconds: 0, fractions: 0 }
            } else {
                client.request_time
            },
            ..client
        }),
{
}

/// **A response in the buffer** is judged by what the codec reads in it: not at
/// all, as a refusal, or as a time for the clock.
pub proof fn a_response_is_judged_by_its_reading(client: ClientState, received_at: Timestamp)
    requires
        client.wf(),
    ensures
        ({
            let (phase, next) = protocol::judged(client, received_at);
            match serializer::reading(
                client.buffer.subrange(0, client.packet_size),
                client.request_time,
                received_at,
            ) {
                Err(_) => phase == (ReceivePhase::Done {
                    result: Err(ReceiveError::InvalidResponse),
                }) && next == client,
                Ok(Verdict::Rejected(_)) => phase == (ReceivePhase::Done {
                    result: Ok(Reception::Rejected),
                }) && next == client.refused(),
                Ok(Verdict::Accepted(accepted)) => phase == (ReceivePhase::Adjusting { accepted })
                    && next == client,
            }
        }),
        client.authenticated ==> protocol::arrived(client, received_at) == (
            ReceivePhase::Authenticating { received_at },
            client,
        ),
        !client.authenticated ==> protocol::arrived(client, received_at) == protocol::judged(
            client,
            received_at,
        ),
{
    a_client_points_into_its_lists(client);
}

/// What a read leaves stands in front of what the buffer held behind the packet.
pub proof fn a_read_fills_the_front(client: ClientState, left: Seq<u8>)
    requires
        client.wf(),
        left.len() == client.packet_size,
    ensures
        client.filled(left) == (ClientState { buffer: client.filled(left).buffer, ..client }),
        client.filled(left).buffer.len() == client.buffer.len(),
        client.filled(left).buffer.subrange(0, client.packet_size) == left,
        client.filled(left).buffer.subrange(client.packet_size, client.buffer.len() as int)
            == client.buffer.subrange(client.packet_size, client.buffer.len() as int),
{
    let filled = client.filled(left).buffer;
    assert(filled.subrange(0, client.packet_size) =~= left);
    assert(filled.subrange(client.packet_size, client.buffer.len() as int)
        =~= client.buffer.subrange(client.packet_size, client.buffer.len() as int));
}

} // verus!

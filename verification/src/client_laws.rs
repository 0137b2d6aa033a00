//! What holds of the client, over whole calls and from one call to the next.
//!
//! Each law speaks of every course a call can take, that is of every host and
//! every authenticator. `Done` stands for a call that has returned.

use crate::client::{ReceiveError, Reception, SendError};
use crate::host::NetworkError;
use crate::protocol::{ClientState, Event, ReceivePhase, ReceiveStatus, SendPhase, SendStatus};
use crate::serializer::MODE_SERVER;
use crate::types::{Accepted, Timestamp, Verdict};
use crate::wire::{ORIGIN_AT, PACKET_BASE_SIZE, RECEIVE_AT, STRATUM_AT, TRANSMIT_AT};
use crate::{laws, protocol, serializer, types, wire};
use vstd::prelude::*;

verus! {

// ---- rotation ------------------------------------------------------------

/// A client after a number of rotations.
pub open spec fn rotated_times(client: ClientState, times: nat) -> ClientState
    decreases times,
{
    if times == 0 {
        client
    } else {
        rotated_times(client, (times - 1) as nat).rotated()
    }
}

/// Rotation walks the list in order and wraps; nothing else changes. After as
/// many rotations as there are servers the client is back where it began.
pub proof fn rotation_walks_the_list_and_wraps(client: ClientState, times: nat)
    requires
        client.wf(),
    ensures
        rotated_times(client, times) == (ClientState {
            current: (client.current + times) % (client.servers.len() as int),
            ..client
        }),
        rotated_times(client, client.servers.len()) == client,
{
    let count = client.servers.len() as int;
    rotation_counts(client, times);
    rotation_counts(client, client.servers.len());
    vstd::arithmetic::div_mod::lemma_mod_add_multiples_vanish(client.current, count);
    vstd::arithmetic::div_mod::lemma_small_mod(client.current as nat, count as nat);
    assert(client.current + count == count + client.current);
}

/// Rotation leaves no server out: each is in use after fewer rotations than
/// there are servers.
pub proof fn every_server_has_its_turn(client: ClientState, index: int)
    requires
        client.wf(),
        0 <= index < client.servers.len(),
    ensures
        exists|times: nat|
            times < client.servers.len() && (#[trigger] rotated_times(client, times)).server()
                == client.servers[index],
{
    let count = client.servers.len() as int;
    let times: nat = if index >= client.current {
        (index - client.current) as nat
    } else {
        (index - client.current + count) as nat
    };
    rotation_counts(client, times);
    vstd::arithmetic::div_mod::lemma_small_mod(index as nat, count as nat);
    vstd::arithmetic::div_mod::lemma_mod_add_multiples_vanish(index, count);
    assert(rotated_times(client, times).server() == client.servers[index]);
}

proof fn rotation_counts(client: ClientState, times: nat)
    requires
        client.wf(),
    ensures
        rotated_times(client, times) == (ClientState {
            current: (client.current + times) % (client.servers.len() as int),
            ..client
        }),
    decreases times,
{
    let count = client.servers.len() as int;
    if times == 0 {
        vstd::arithmetic::div_mod::lemma_small_mod(client.current as nat, count as nat);
    } else {
        rotation_counts(client, (times - 1) as nat);
        let reached = client.current + times - 1;
        vstd::arithmetic::div_mod::lemma_fundamental_div_mod(reached, count);
        if reached % count + 1 < count {
            vstd::arithmetic::div_mod::lemma_fundamental_div_mod_converse(
                reached + 1,
                count,
                reached / count,
                reached % count + 1,
            );
        } else {
            assert(count * (reached / count) + count == count * (reached / count + 1))
                by (nonlinear_arith);
            vstd::arithmetic::div_mod::lemma_fundamental_div_mod_converse(
                reached + 1,
                count,
                reached / count + 1,
                0,
            );
        }
    }
}

// ---- the parts of a course -----------------------------------------------

/// Whatever begins the events of a call that sends a request takes that call
/// somewhere.
proof fn send_prefix(block_time_ms: u32, start: SendStatus, events: Seq<Event>, n: int)
    requires
        send_goes_through(block_time_ms, start, events),
        0 <= n <= events.len(),
    ensures
        send_goes_through(block_time_ms, start, events.take(n)),
    decreases events.len(),
{
    if n == events.len() {
        assert(events.take(n) =~= events);
    } else {
        send_prefix(block_time_ms, start, events.drop_last(), n);
        assert(events.drop_last().take(n) =~= events.take(n));
    }
}

spec fn send_goes_through(block_time_ms: u32, start: SendStatus, events: Seq<Event>) -> bool {
    protocol::send_course(block_time_ms, start, events) is Some
}

/// The step that the event at `n` makes.
proof fn send_step_at(block_time_ms: u32, start: SendStatus, events: Seq<Event>, n: int)
    requires
        send_goes_through(block_time_ms, start, events),
        0 <= n < events.len(),
    ensures
        send_goes_through(block_time_ms, start, events.take(n)),
        protocol::send_course(block_time_ms, start, events.take(n + 1)) == protocol::send_step(
            block_time_ms,
            protocol::send_course(block_time_ms, start, events.take(n))->0,
            events[n],
        ),
        send_goes_through(block_time_ms, start, events.take(n + 1)),
{
    send_prefix(block_time_ms, start, events, n);
    send_prefix(block_time_ms, start, events, n + 1);
    assert(events.take(n + 1).drop_last() =~= events.take(n));
}

spec fn receive_goes_through(block_time_ms: u32, start: ReceiveStatus, events: Seq<Event>) -> bool {
    protocol::receive_course(block_time_ms, start, events) is Some
}

proof fn receive_prefix(block_time_ms: u32, start: ReceiveStatus, events: Seq<Event>, n: int)
    requires
        receive_goes_through(block_time_ms, start, events),
        0 <= n <= events.len(),
    ensures
        receive_goes_through(block_time_ms, start, events.take(n)),
    decreases events.len(),
{
    if n == events.len() {
        assert(events.take(n) =~= events);
    } else {
        receive_prefix(block_time_ms, start, events.drop_last(), n);
        assert(events.drop_last().take(n) =~= events.take(n));
    }
}

/// The step that the event at `n` makes.
proof fn receive_step_at(block_time_ms: u32, start: ReceiveStatus, events: Seq<Event>, n: int)
    requires
        receive_goes_through(block_time_ms, start, events),
        0 <= n < events.len(),
    ensures
        receive_goes_through(block_time_ms, start, events.take(n)),
        protocol::receive_course(block_time_ms, start, events.take(n + 1))
            == protocol::receive_step(
            block_time_ms,
            protocol::receive_course(block_time_ms, start, events.take(n))->0,
            events[n],
        ),
        receive_goes_through(block_time_ms, start, events.take(n + 1)),
{
    receive_prefix(block_time_ms, start, events, n);
    receive_prefix(block_time_ms, start, events, n + 1);
    assert(events.take(n + 1).drop_last() =~= events.take(n));
}

// ---- sending -------------------------------------------------------------

/// What holds of a call that sends a request, however far it has come.
spec fn sending_so_far(first: ClientState, status: SendStatus) -> bool {
    let (phase, client) = status;
    &&& client.wf()
    &&& client.servers == first.servers
    &&& client.current == first.current
    &&& client.response_timeout_ms == first.response_timeout_ms
    &&& client.authenticated == first.authenticated
    &&& client.buffer.len() == first.buffer.len()
    &&& match phase {
        SendPhase::Resolving { .. } => client == first,
        SendPhase::Stamping { .. } => client == first.resolved(client.address),
        SendPhase::Authenticating => {
            &&& client.authenticated
            &&& client.packet_size == first.packet_size
            &&& client.request_time != types::zero_time()
        },
        SendPhase::Opening | SendPhase::Sending { .. } | SendPhase::Waiting { .. } => {
            &&& client.request_time != types::zero_time()
            &&& !client.authenticated ==> carries_request(client)
        },
        SendPhase::Done { result } => match result {
            Ok(()) => {
                &&& client.request_time != types::zero_time()
                &&& !client.authenticated ==> carries_request(client)
            },
            Err(SendError::Dns) => client == first,
            Err(SendError::Auth) => {
                &&& client.authenticated
                &&& client.packet_size == first.packet_size
                &&& client.request_time != types::zero_time()
            },
            Err(SendError::SendTimeout) => {
                &&& client.request_time != types::zero_time()
                &&& !client.authenticated ==> carries_request(client)
            },
            Err(SendError::Network) => !client.authenticated ==> client.packet_size
                == first.packet_size,
        },
    }
}

/// The packet in the buffer is that of the request the client remembers.
pub open spec fn carries_request(client: ClientState) -> bool {
    client.packet() == serializer::request_packet(client.request_time)
}

proof fn sending_goes_on(block_time_ms: u32, first: ClientState, status: SendStatus, event: Event)
    requires
        first.wf(),
        sending_so_far(first, status),
        protocol::send_step(block_time_ms, status, event) is Some,
    ensures
        sending_so_far(first, protocol::send_step(block_time_ms, status, event)->0),
{
    let (phase, client) = status;
    match (phase, event) {
        (SendPhase::Stamping { random_number }, Event::ReadClock { time }) => {
            laws::randomizing_keeps_the_time(time, random_number);
            let stamped = client.stamped(time, random_number);
            if time != types::zero_time() {
                laws::a_request_carries_its_time(stamped.request_time);
                assert(stamped.buffer.len() == client.buffer.len());
                if !client.authenticated {
                    assert(stamped.packet() =~= serializer::request_packet(stamped.request_time));
                }
            }
        },
        _ => {},
    }
}

proof fn sending_holds_throughout(
    block_time_ms: u32,
    random_number: u32,
    first: ClientState,
    events: Seq<Event>,
)
    requires
        first.wf(),
        send_goes_through(block_time_ms, (SendPhase::Resolving { random_number }, first), events),
    ensures
        sending_so_far(
            first,
            protocol::send_course(
                block_time_ms,
                (SendPhase::Resolving { random_number }, first),
                events,
            )->0,
        ),
    decreases events.len(),
{
    let start = (SendPhase::Resolving { random_number }, first);
    if events.len() > 0 {
        sending_holds_throughout(block_time_ms, random_number, first, events.drop_last());
        sending_goes_on(
            block_time_ms,
            first,
            protocol::send_course(block_time_ms, start, events.drop_last())->0,
            events.last(),
        );
    }
}

/// What a call that sends a request leaves behind.
///
/// It never rotates and never loses its servers, its timeout or the length of
/// its buffer, and it stays well formed. If the name cannot be resolved nothing
/// has changed at all. If authentication fails the packet size is that of the
/// previous request. Without authentication the packet size never changes.
/// Once the packet was handed to the transport and taken, a request is
/// outstanding; without authentication the packet is the one that carries it.
pub proof fn what_sending_leaves_behind(
    block_time_ms: u32,
    random_number: u32,
    before: ClientState,
    events: Seq<Event>,
    result: Result<(), SendError>,
    after: ClientState,
)
    requires
        before.wf(),
        protocol::send_course(
            block_time_ms,
            (SendPhase::Resolving { random_number }, before),
            events,
        ) == Some((SendPhase::Done { result }, after)),
    ensures
        after.wf(),
        after.servers == before.servers,
        after.current == before.current,
        after.response_timeout_ms == before.response_timeout_ms,
        after.authenticated == before.authenticated,
        after.buffer.len() == before.buffer.len(),
        result == Err::<(), SendError>(SendError::Dns) ==> after == before,
        result == Err::<(), SendError>(SendError::Auth) ==> before.authenticated
            && after.packet_size == before.packet_size,
        !before.authenticated ==> after.packet_size == PACKET_BASE_SIZE,
        result is Ok ==> after.request_time != types::zero_time(),
        result is Ok && !before.authenticated ==> carries_request(after),
{
    sending_holds_throughout(block_time_ms, random_number, before, events);
}

/// Every call that sends a request begins by resolving the name of the server
/// in use: no address is ever reused from an earlier request. The call fails for
/// want of an address exactly where the resolver has none; everywhere else the
/// address that it answered is the one that the client goes on with.
pub proof fn every_request_resolves_its_server(
    block_time_ms: u32,
    random_number: u32,
    before: ClientState,
    events: Seq<Event>,
    result: Result<(), SendError>,
    after: ClientState,
)
    requires
        protocol::send_course(
            block_time_ms,
            (SendPhase::Resolving { random_number }, before),
            events,
        ) == Some((SendPhase::Done { result }, after)),
    ensures
        events.len() > 0,
        events[0] is Resolve,
        events[0]->Resolve_server == before.server(),
        events[0]->Resolve_address is None <==> result == Err::<(), SendError>(SendError::Dns),
        result != Err::<(), SendError>(SendError::Dns) ==> events[0]->Resolve_address == Some(
            after.address,
        ),
{
    let start = (SendPhase::Resolving { random_number }, before);
    assert(events.len() > 0);
    send_step_at(block_time_ms, start, events, 0);
    assert(events.take(0) =~= Seq::<Event>::empty());
    let second = protocol::send_course(block_time_ms, start, events.take(1))->0;
    if second.0 is Done {
        nothing_follows_a_return(block_time_ms, start, events, 1);
        assert(events.take(1) =~= events);
    } else {
        an_address_is_kept(block_time_ms, start, events, 1);
    }
}

/// Once a call that sends a request has returned it makes no further callback.
proof fn nothing_follows_a_return(
    block_time_ms: u32,
    start: SendStatus,
    events: Seq<Event>,
    n: int,
)
    requires
        send_goes_through(block_time_ms, start, events),
        0 <= n <= events.len(),
        (protocol::send_course(block_time_ms, start, events.take(n))->0).0 is Done,
    ensures
        n == events.len(),
{
    if n < events.len() {
        send_step_at(block_time_ms, start, events, n);
    }
}

/// Past the resolution of its name, a call does not fail for want of it, and
/// keeps the address.
proof fn an_address_is_kept(block_time_ms: u32, start: SendStatus, events: Seq<Event>, n: int)
    requires
        send_goes_through(block_time_ms, start, events),
        0 <= n <= events.len(),
        ({
            let phase = (protocol::send_course(block_time_ms, start, events.take(n))->0).0;
            !(phase is Resolving) && phase != (SendPhase::Done { result: Err(SendError::Dns) })
        }),
    ensures
        ({
            let (phase, client) = protocol::send_course(block_time_ms, start, events)->0;
            &&& !(phase is Resolving) && phase != (SendPhase::Done { result: Err(SendError::Dns) })
            &&& client.address == (protocol::send_course(
                block_time_ms,
                start,
                events.take(n),
            )->0).1.address
        }),
    decreases events.len() - n,
{
    if n == events.len() {
        assert(events.take(n) =~= events);
    } else {
        send_step_at(block_time_ms, start, events, n);
        an_address_is_kept(block_time_ms, start, events, n + 1);
    }
}

/// A request counts as sent only when the transport has taken the whole packet:
/// the last callback handed it the packet, for the address that the first one
/// resolved and the port of the server in use, and it answered with the full
/// size.
pub proof fn a_request_is_sent_whole(
    block_time_ms: u32,
    random_number: u32,
    before: ClientState,
    events: Seq<Event>,
    after: ClientState,
)
    requires
        before.wf(),
        protocol::send_course(
            block_time_ms,
            (SendPhase::Resolving { random_number }, before),
            events,
        ) == Some((SendPhase::Done { result: Ok(()) }, after)),
    ensures
        events.len() > 0,
        events.last() matches Event::Send { address, port, packet, answer } && address
            == after.address && port == after.server().port && packet == after.packet()
            && answer is Ok && answer->Ok_0 == after.packet_size,
        events[0] is Resolve,
        events[0]->Resolve_server == after.server(),
        events[0]->Resolve_address == Some(after.address),
{
    let start = (SendPhase::Resolving { random_number }, before);
    every_request_resolves_its_server(block_time_ms, random_number, before, events, Ok(()), after);
    what_sending_leaves_behind(block_time_ms, random_number, before, events, Ok(()), after);
    send_prefix(block_time_ms, start, events, events.len() - 1);
    assert(events.take(events.len() - 1) =~= events.drop_last());
}

/// The retry window of a call that sends a packet: it opens with a clock
/// reading of its own, then attempts and clock readings alternate, and as long
/// as the call is still trying, no reading has met the block time. So the first
/// reading that meets it is the last.
pub proof fn no_attempt_past_the_block_time(
    block_time_ms: u32,
    before: ClientState,
    events: Seq<Event>,
    started: Timestamp,
    idle: int,
    client: ClientState,
)
    requires
        protocol::send_course(block_time_ms, (SendPhase::Opening, before), events) == Some(
            (SendPhase::Sending { started, idle }, client),
        ),
    ensures
        idle >= 0,
        client == before,
        events.len() == 2 * idle + 1,
        events[0] == (Event::ReadClock { time: started }),
        forall|k: int|
            1 <= k <= idle ==> {
                &&& (#[trigger] events[2 * k]) is ReadClock
                &&& !protocol::blocked_long_enough(
                    events[2 * k]->ReadClock_time,
                    started,
                    block_time_ms,
                )
            },
    decreases events.len(),
{
    let start = (SendPhase::Opening, before);
    assert(events.len() > 0);
    let one = events.drop_last();
    let status = protocol::send_course(block_time_ms, start, one)->0;
    if status.0 is Waiting {
        let two = one.drop_last();
        assert(one.len() > 0);
        no_attempt_past_the_block_time(block_time_ms, before, two, started, idle - 1, client);
        assert forall|k: int| 1 <= k <= idle implies {
            &&& (#[trigger] events[2 * k]) is ReadClock
            &&& !protocol::blocked_long_enough(
                events[2 * k]->ReadClock_time,
                started,
                block_time_ms,
            )
        } by {
            if k < idle {
                assert(two[2 * k] == events[2 * k]);
            }
        }
        assert(two[0] == events[0]);
    } else {
        assert(status.0 is Opening);
        opening_comes_first(block_time_ms, before, one);
    }
}

proof fn opening_comes_first(block_time_ms: u32, before: ClientState, events: Seq<Event>)
    requires
        send_goes_through(block_time_ms, (SendPhase::Opening, before), events),
        (protocol::send_course(block_time_ms, (SendPhase::Opening, before), events)->0).0
            is Opening,
    ensures
        events.len() == 0,
{
    if events.len() > 0 {
        let status = protocol::send_course(
            block_time_ms,
            (SendPhase::Opening, before),
            events.drop_last(),
        )->0;
        never_back_to_authentication(block_time_ms, before, events.drop_last());
    }
}

proof fn never_back_to_authentication(block_time_ms: u32, before: ClientState, events: Seq<Event>)
    requires
        send_goes_through(block_time_ms, (SendPhase::Opening, before), events),
    ensures
        ({
            let phase = (protocol::send_course(
                block_time_ms,
                (SendPhase::Opening, before),
                events,
            )->0).0;
            !(phase is Resolving) && !(phase is Stamping) && !(phase is Authenticating)
        }),
    decreases events.len(),
{
    if events.len() > 0 {
        never_back_to_authentication(block_time_ms, before, events.drop_last());
    }
}

// ---- receiving -----------------------------------------------------------

/// What holds of a call that receives a response, however far it has come.
spec fn receiving_so_far(first: ClientState, status: ReceiveStatus) -> bool {
    let (phase, client) = status;
    let same = ClientState { buffer: client.buffer, ..first };
    &&& client.wf()
    &&& client.buffer.len() == first.buffer.len()
    &&& client.buffer.skip(first.packet_size) == first.buffer.skip(first.packet_size)
    &&& match phase {
        ReceivePhase::Authenticating { .. } => client == same && client.authenticated,
        ReceivePhase::Adjusting { .. } => client == same && client.request_time
            != types::zero_time(),
        ReceivePhase::Done { result } => match result {
            Ok(Reception::Synchronised) => client == same.settled() && first.request_time
                != types::zero_time(),
            Ok(Reception::Rejected) => client == same.refused() && first.request_time
                != types::zero_time(),
            Ok(Reception::TimedOut) => client == same.rotated(),
            _ => client == same,
        },
        _ => client == same,
    }
}

proof fn receiving_goes_on(
    block_time_ms: u32,
    first: ClientState,
    status: ReceiveStatus,
    event: Event,
)
    requires
        first.wf(),
        receiving_so_far(first, status),
        protocol::receive_step(block_time_ms, status, event) is Some,
    ensures
        receiving_so_far(first, protocol::receive_step(block_time_ms, status, event)->0),
{
    let (phase, client) = status;
    match (phase, event) {
        (
            ReceivePhase::Reading { started, idle },
            Event::Receive { address, port, before, after, answer },
        ) => {
            let filled = client.filled(after);
            assert(filled.buffer.skip(first.packet_size) =~= client.buffer.skip(first.packet_size));
        },
        _ => {},
    }
}

proof fn receiving_holds_throughout(block_time_ms: u32, first: ClientState, events: Seq<Event>)
    requires
        first.wf(),
        receive_goes_through(block_time_ms, (ReceivePhase::Opening, first), events),
    ensures
        receiving_so_far(
            first,
            protocol::receive_course(block_time_ms, (ReceivePhase::Opening, first), events)->0,
        ),
    decreases events.len(),
{
    if events.len() > 0 {
        receiving_holds_throughout(block_time_ms, first, events.drop_last());
        receiving_goes_on(
            block_time_ms,
            first,
            protocol::receive_course(
                block_time_ms,
                (ReceivePhase::Opening, first),
                events.drop_last(),
            )->0,
            events.last(),
        );
    }
}

/// What a call that receives a response leaves behind.
///
/// But for the packet in its buffer the client is as it was, with three
/// exceptions. After a usable response it forgets its request. After a refusal
/// it has moved on to the next server, and forgets its request only where
/// authentication is configured. After a response timeout it has moved on to
/// the next server.
pub proof fn what_receiving_leaves_behind(
    block_time_ms: u32,
    before: ClientState,
    events: Seq<Event>,
    result: Result<Reception, ReceiveError>,
    after: ClientState,
)
    requires
        before.wf(),
        protocol::receive_course(block_time_ms, (ReceivePhase::Opening, before), events) == Some(
            (ReceivePhase::Done { result }, after),
        ),
    ensures
        after.wf(),
        after.buffer.len() == before.buffer.len(),
        after.buffer.skip(before.packet_size) == before.buffer.skip(before.packet_size),
        ({
            let same = ClientState { buffer: after.buffer, ..before };
            after == (match result {
                Ok(Reception::Synchronised) => same.settled(),
                Ok(Reception::Rejected) => same.refused(),
                Ok(Reception::TimedOut) => same.rotated(),
                _ => same,
            })
        }),
{
    receiving_holds_throughout(block_time_ms, before, events);
}

/// The replay-protection asymmetry. A refusal makes the client forget its
/// request exactly where authentication is configured. Where it is not, the
/// refusal may be forged, and every response is read after it as before it: a
/// spoofed Kiss-o'-Death does not lock the genuine response out.
pub proof fn a_refusal_clears_the_request_only_when_authenticated(
    block_time_ms: u32,
    before: ClientState,
    events: Seq<Event>,
    after: ClientState,
    response: Seq<u8>,
    received_at: Timestamp,
)
    requires
        before.wf(),
        protocol::receive_course(block_time_ms, (ReceivePhase::Opening, before), events) == Some(
            (ReceivePhase::Done { result: Ok(Reception::Rejected) }, after),
        ),
    ensures
        after.request_time == types::zero_time() <==> before.authenticated,
        !before.authenticated ==> serializer::reading(response, after.request_time, received_at)
            == serializer::reading(response, before.request_time, received_at),
        after.current == before.rotated().current,
{
    receiving_holds_throughout(block_time_ms, before, events);
}

/// A client that has no request outstanding neither accepts nor is refused by
/// any datagram, and the clock is left alone.
pub proof fn without_a_request_nothing_is_believed(
    block_time_ms: u32,
    before: ClientState,
    events: Seq<Event>,
    result: Result<Reception, ReceiveError>,
    after: ClientState,
)
    requires
        before.wf(),
        before.request_time == types::zero_time(),
        protocol::receive_course(block_time_ms, (ReceivePhase::Opening, before), events) == Some(
            (ReceivePhase::Done { result }, after),
        ),
    ensures
        result != Ok::<Reception, ReceiveError>(Reception::Synchronised),
        result != Ok::<Reception, ReceiveError>(Reception::Rejected),
        forall|i: int| 0 <= i < events.len() ==> !((#[trigger] events[i]) is AdjustClock),
{
    receiving_holds_throughout(block_time_ms, before, events);
    the_clock_is_adjusted_once(block_time_ms, before, events, result, after);
}

/// **A request is answered once.** After a usable response, and until the next
/// request, no datagram is serviced: the response to a replayed request is not
/// handed to the clock, nor does it count as a refusal.
pub proof fn a_request_is_answered_once(
    first_block_ms: u32,
    before: ClientState,
    first_events: Seq<Event>,
    answered: ClientState,
    second_block_ms: u32,
    second_events: Seq<Event>,
    result: Result<Reception, ReceiveError>,
    after: ClientState,
)
    requires
        before.wf(),
        protocol::receive_course(first_block_ms, (ReceivePhase::Opening, before), first_events)
            == Some((ReceivePhase::Done { result: Ok(Reception::Synchronised) }, answered)),
        protocol::receive_course(second_block_ms, (ReceivePhase::Opening, answered), second_events)
            == Some((ReceivePhase::Done { result }, after)),
    ensures
        result != Ok::<Reception, ReceiveError>(Reception::Synchronised),
        result != Ok::<Reception, ReceiveError>(Reception::Rejected),
        forall|i: int|
            0 <= i < second_events.len() ==> !((#[trigger] second_events[i]) is AdjustClock),
{
    receiving_holds_throughout(first_block_ms, before, first_events);
    without_a_request_nothing_is_believed(
        second_block_ms,
        answered,
        second_events,
        result,
        after,
    );
}

/// The clock is adjusted exactly when the call answers that it is synchronised,
/// once, as the last callback.
pub proof fn the_clock_is_adjusted_once(
    block_time_ms: u32,
    before: ClientState,
    events: Seq<Event>,
    result: Result<Reception, ReceiveError>,
    after: ClientState,
)
    requires
        protocol::receive_course(block_time_ms, (ReceivePhase::Opening, before), events) == Some(
            (ReceivePhase::Done { result }, after),
        ),
    ensures
        events.len() > 0,
        forall|i: int|
            0 <= i < events.len() - 1 ==> !((#[trigger] events[i]) is AdjustClock),
        events.last() is AdjustClock <==> result == Ok::<Reception, ReceiveError>(
            Reception::Synchronised,
        ),
{
    let start = (ReceivePhase::Opening, before);
    assert forall|i: int| 0 <= i < events.len() - 1 implies !((#[trigger] events[i])
        is AdjustClock) by {
        receive_step_at(block_time_ms, start, events, i);
        receive_step_at(block_time_ms, start, events, i + 1);
    }
    receive_step_at(block_time_ms, start, events, events.len() - 1);
    assert(events.take(events.len() as int) =~= events);
}

/// Where a call that receives a response stands before its event `n`.
#[verifier::opaque]
spec fn receive_status(
    block_time_ms: u32,
    before: ClientState,
    events: Seq<Event>,
    n: int,
) -> ReceiveStatus {
    protocol::receive_course(block_time_ms, (ReceivePhase::Opening, before), events.take(n))->0
}

/// These are all the events of a call that receives a response.
#[verifier::opaque]
spec fn receives_to_the_end(
    block_time_ms: u32,
    before: ClientState,
    events: Seq<Event>,
    result: Result<Reception, ReceiveError>,
) -> bool {
    &&& before.wf()
    &&& receive_goes_through(block_time_ms, (ReceivePhase::Opening, before), events)
    &&& receive_status(block_time_ms, before, events, events.len() as int).0
        == (ReceivePhase::Done { result })
}

proof fn a_return_is_the_end(
    block_time_ms: u32,
    before: ClientState,
    events: Seq<Event>,
    result: Result<Reception, ReceiveError>,
    after: ClientState,
)
    requires
        before.wf(),
        protocol::receive_course(block_time_ms, (ReceivePhase::Opening, before), events) == Some(
            (ReceivePhase::Done { result }, after),
        ),
    ensures
        receives_to_the_end(block_time_ms, before, events, result),
{
    reveal(receive_status);
    reveal(receives_to_the_end);
    assert(events.take(events.len() as int) =~= events);
}

proof fn receive_status_next(
    block_time_ms: u32,
    before: ClientState,
    events: Seq<Event>,
    result: Result<Reception, ReceiveError>,
    n: int,
)
    requires
        receives_to_the_end(block_time_ms, before, events, result),
        0 <= n <= events.len(),
    ensures
        receive_status(block_time_ms, before, events, n).0 is Done ==> n == events.len(),
        n == events.len() ==> receive_status(block_time_ms, before, events, n).0 == (
        ReceivePhase::Done { result }),
        n == 0 ==> receive_status(block_time_ms, before, events, n).0 is Opening,
        n < events.len() ==> Some(receive_status(block_time_ms, before, events, n + 1))
            == protocol::receive_step(
            block_time_ms,
            receive_status(block_time_ms, before, events, n),
            events[n],
        ),
        receiving_so_far(before, receive_status(block_time_ms, before, events, n)),
        before.wf(),
{
    reveal(receive_status);
    reveal(receives_to_the_end);
    let start = (ReceivePhase::Opening, before);
    receive_prefix(block_time_ms, start, events, n);
    receiving_holds_throughout(block_time_ms, before, events.take(n));
    if n < events.len() {
        receive_step_at(block_time_ms, start, events, n);
    }
}

/// The datagram stands in the buffer, and its arrival is to be timed.
proof fn a_datagram_arrives(
    block_time_ms: u32,
    before: ClientState,
    events: Seq<Event>,
    result: Result<Reception, ReceiveError>,
    n: int,
)
    requires
        receives_to_the_end(block_time_ms, before, events, result),
        0 <= n < events.len(),
        delivers(before, events[n]),
    ensures
        events[n]->Receive_after.len() == before.packet_size,
        receive_status(block_time_ms, before, events, n + 1) == (
            ReceivePhase::Timing,
            before.filled(events[n]->Receive_after),
        ),
        before.filled(events[n]->Receive_after).packet() == events[n]->Receive_after,
{
    receive_status_next(block_time_ms, before, events, result, n);
    let client = receive_status(block_time_ms, before, events, n).1;
    let response = events[n]->Receive_after;
    assert(client.filled(response) =~= before.filled(response));
    assert(before.filled(response).packet() =~= response);
}

/// The arrival was timed.
proof fn an_arrival_is_timed(
    block_time_ms: u32,
    before: ClientState,
    events: Seq<Event>,
    result: Result<Reception, ReceiveError>,
    n: int,
    client: ClientState,
)
    requires
        receives_to_the_end(block_time_ms, before, events, result),
        0 <= n <= events.len(),
        receive_status(block_time_ms, before, events, n) == (ReceivePhase::Timing, client),
    ensures
        n < events.len(),
        events[n] is ReadClock,
        receive_status(block_time_ms, before, events, n + 1) == protocol::arrived(
            client,
            events[n]->ReadClock_time,
        ),
{
    receive_status_next(block_time_ms, before, events, result, n);
}

/// The authenticator was asked.
proof fn a_response_is_authenticated(
    block_time_ms: u32,
    before: ClientState,
    events: Seq<Event>,
    result: Result<Reception, ReceiveError>,
    n: int,
    received_at: Timestamp,
    client: ClientState,
)
    requires
        receives_to_the_end(block_time_ms, before, events, result),
        0 <= n <= events.len(),
        receive_status(block_time_ms, before, events, n) == (
            ReceivePhase::Authenticating { received_at },
            client,
        ),
    ensures
        n < events.len(),
        events[n] is ValidateAuth,
        events[n]->ValidateAuth_server == before.server(),
        events[n]->ValidateAuth_packet == client.packet(),
        events[n]->ValidateAuth_answer is Ok ==> receive_status(
            block_time_ms,
            before,
            events,
            n + 1,
        ) == protocol::judged(client, received_at),
        events[n]->ValidateAuth_answer is Err ==> result is Err && n + 1 == events.len(),
{
    receive_status_next(block_time_ms, before, events, result, n);
    receive_status_next(block_time_ms, before, events, result, n + 1);
}

/// The judgement was carried out.
proof fn a_judgement_is_final(
    block_time_ms: u32,
    before: ClientState,
    events: Seq<Event>,
    result: Result<Reception, ReceiveError>,
    n: int,
    client: ClientState,
    received_at: Timestamp,
)
    requires
        receives_to_the_end(block_time_ms, before, events, result),
        0 <= n <= events.len(),
        receive_status(block_time_ms, before, events, n) == protocol::judged(client, received_at),
    ensures
        match protocol::judged(client, received_at).0 {
            ReceivePhase::Adjusting { accepted } => {
                &&& result == Ok::<Reception, ReceiveError>(Reception::Synchronised)
                &&& n == events.len() - 1
                &&& corrects(before, accepted, events[n])
            },
            phase => phase == (ReceivePhase::Done { result }) && n == events.len(),
        },
{
    receive_status_next(block_time_ms, before, events, result, n);
    if n < events.len() {
        receive_status_next(block_time_ms, before, events, result, n + 1);
    }
}

/// A datagram of the right size is judged at once: the clock is read, the
/// authenticator is asked where there is one, and the client goes by what the
/// codec reads in the datagram for the request that is outstanding.
proof fn a_datagram_is_judged(
    block_time_ms: u32,
    before: ClientState,
    events: Seq<Event>,
    result: Result<Reception, ReceiveError>,
    n: int,
)
    requires
        receives_to_the_end(block_time_ms, before, events, result),
        0 <= n < events.len(),
        delivers(before, events[n]),
    ensures
        events[n]->Receive_after.len() == before.packet_size,
        n + 1 < events.len(),
        events[n + 1] is ReadClock,
        before.authenticated ==> n + 2 < events.len() && vouches_for(
            before,
            events[n],
            events[n + 2],
        ),
        before.authenticated && events[n + 2]->ValidateAuth_answer is Err ==> result is Err,
        !before.authenticated || events[n + 2]->ValidateAuth_answer is Ok ==> {
            let client = before.filled(events[n]->Receive_after);
            match protocol::judged(client, events[n + 1]->ReadClock_time).0 {
                ReceivePhase::Adjusting { accepted } => {
                    &&& result == Ok::<Reception, ReceiveError>(Reception::Synchronised)
                    &&& n == decisive_read(before, events)
                    &&& corrects(before, accepted, events.last())
                },
                phase => phase == (ReceivePhase::Done { result }),
            }
        },
{
    a_datagram_arrives(block_time_ms, before, events, result, n);
    let client = before.filled(events[n]->Receive_after);
    an_arrival_is_timed(block_time_ms, before, events, result, n + 1, client);
    let received_at = events[n + 1]->ReadClock_time;
    if before.authenticated {
        a_response_is_authenticated(
            block_time_ms,
            before,
            events,
            result,
            n + 2,
            received_at,
            client,
        );
        if events[n + 2]->ValidateAuth_answer is Ok {
            a_judgement_is_final(
                block_time_ms,
                before,
                events,
                result,
                n + 3,
                client,
                received_at,
            );
        }
    } else {
        a_judgement_is_final(block_time_ms, before, events, result, n + 2, client, received_at);
    }
}

/// A read that brought a datagram of the size of the packets exchanged.
pub open spec fn delivers(client: ClientState, event: Event) -> bool {
    event is Receive && event->Receive_answer == Ok::<usize, NetworkError>(
        client.packet_size as usize,
    )
}

/// The authenticator was asked about the datagram that `read` brought.
pub open spec fn vouches_for(client: ClientState, read: Event, event: Event) -> bool {
    &&& event is ValidateAuth
    &&& event->ValidateAuth_server == client.server()
    &&& event->ValidateAuth_packet == read->Receive_after
}

/// The clock was handed what a usable response holds.
pub open spec fn corrects(client: ClientState, accepted: Accepted, event: Event) -> bool {
    event == (Event::AdjustClock {
        server: client.server(),
        server_time: accepted.server_time,
        offset_ms: accepted.clock_offset_ms,
        leap_second: accepted.leap_second,
    })
}

/// Where the datagram that a synchronising call went by stands among its
/// events: before the clock reading, the authenticator's answer where there is
/// one, and the correction.
pub open spec fn decisive_read(client: ClientState, events: Seq<Event>) -> int {
    if client.authenticated {
        events.len() - 4
    } else {
        events.len() - 3
    }
}

/// The correction is the one that the response calls for: what the clock is
/// handed is what the codec reads in the datagram that arrived, for the request
/// that was outstanding and the clock reading that followed. Where
/// authentication is configured, nothing gets to the clock that the
/// authenticator has not vouched for.
pub proof fn the_correction_is_that_of_the_response(
    block_time_ms: u32,
    before: ClientState,
    events: Seq<Event>,
    after: ClientState,
)
    requires
        before.wf(),
        protocol::receive_course(block_time_ms, (ReceivePhase::Opening, before), events) == Some(
            (ReceivePhase::Done { result: Ok(Reception::Synchronised) }, after),
        ),
    ensures
        ({
            let n = decisive_read(before, events);
            let reading = serializer::reading(
                events[n]->Receive_after,
                before.request_time,
                events[n + 1]->ReadClock_time,
            );
            &&& n >= 0
            &&& delivers(before, events[n])
            &&& events[n + 1] is ReadClock
            &&& reading is Ok && reading->Ok_0 is Accepted
            &&& corrects(before, reading->Ok_0->Accepted_0, events.last())
            &&& before.authenticated ==> vouches_for(before, events[n], events[n + 2])
                && events[n + 2]->ValidateAuth_answer is Ok
        }),
{
    let result = Ok::<Reception, ReceiveError>(Reception::Synchronised);
    let n = decisive_read(before, events);
    a_return_is_the_end(block_time_ms, before, events, result, after);
    a_correction_follows_a_datagram(block_time_ms, before, events);
    assert(before.authenticated ==> n + 2 == events.len() - 2);
    a_datagram_is_judged(block_time_ms, before, events, result, n);
    what_was_judged(before, events[n]->Receive_after, events[n + 1]->ReadClock_time);
}

/// A datagram is judged by what the codec reads in it.
proof fn what_was_judged(client: ClientState, response: Seq<u8>, received_at: Timestamp)
    requires
        client.wf(),
        response.len() == client.packet_size,
    ensures
        ({
            let phase = protocol::judged(client.filled(response), received_at).0;
            match serializer::reading(response, client.request_time, received_at) {
                Ok(Verdict::Accepted(accepted)) => phase == (ReceivePhase::Adjusting { accepted }),
                Ok(Verdict::Rejected(_)) => phase == (ReceivePhase::Done {
                    result: Ok(Reception::Rejected),
                }),
                Err(_) => phase == (ReceivePhase::Done {
                    result: Err(ReceiveError::InvalidResponse),
                }),
            }
        }),
{
    assert(client.filled(response).packet() =~= response);
}

/// What must have come before the last stages of a call.
proof fn what_led_here(
    block_time_ms: u32,
    before: ClientState,
    events: Seq<Event>,
    result: Result<Reception, ReceiveError>,
    n: int,
)
    requires
        receives_to_the_end(block_time_ms, before, events, result),
        0 < n <= events.len(),
    ensures
        ({
            let phase = receive_status(block_time_ms, before, events, n - 1).0;
            match receive_status(block_time_ms, before, events, n).0 {
                ReceivePhase::Timing => delivers(before, events[n - 1]),
                ReceivePhase::Authenticating { .. } => phase is Timing,
                ReceivePhase::Adjusting { .. } => if before.authenticated {
                    phase is Authenticating && events[n - 1]->ValidateAuth_answer is Ok
                } else {
                    phase is Timing
                },
                ReceivePhase::Done { result: Ok(Reception::Synchronised) } => phase is Adjusting,
                _ => true,
            }
        }),
{
    receive_status_next(block_time_ms, before, events, result, n - 1);
}

/// Walks back from the correction to the datagram.
proof fn a_correction_follows_a_datagram(
    block_time_ms: u32,
    before: ClientState,
    events: Seq<Event>,
)
    requires
        receives_to_the_end(block_time_ms, before, events, Ok(Reception::Synchronised)),
    ensures
        0 <= decisive_read(before, events),
        delivers(before, events[decisive_read(before, events)]),
        before.authenticated ==> events[events.len() - 2]->ValidateAuth_answer is Ok,
{
    let result = Ok::<Reception, ReceiveError>(Reception::Synchronised);
    let len = events.len() as int;
    assert(receive_status(block_time_ms, before, events, 0).0 is Opening) by {
        receive_status_next(block_time_ms, before, events, result, 0);
    }
    assert(receive_status(block_time_ms, before, events, len).0 == (ReceivePhase::Done {
        result,
    })) by {
        receive_status_next(block_time_ms, before, events, result, len);
    }
    what_led_here(block_time_ms, before, events, result, len);
    what_led_here(block_time_ms, before, events, result, len - 1);
    if before.authenticated {
        what_led_here(block_time_ms, before, events, result, len - 2);
        what_led_here(block_time_ms, before, events, result, len - 3);
    } else {
        what_led_here(block_time_ms, before, events, result, len - 2);
    }
}

/// **The exchange.** After a request was sent, a datagram of the right size that
/// echoes it, comes from a server and carries no zero timestamp is never
/// dropped: with a stratum its transmit time goes to the clock, with stratum 0
/// it counts as a refusal. Without authentication the server echoes the request
/// by copying the transmit field of the packet it was sent; with authentication
/// the authenticator has to vouch for the datagram.
pub proof fn the_answer_to_a_request_is_taken(
    send_block_ms: u32,
    random_number: u32,
    before: ClientState,
    sends: Seq<Event>,
    sent: ClientState,
    receive_block_ms: u32,
    receives: Seq<Event>,
    result: Result<Reception, ReceiveError>,
    after: ClientState,
    n: int,
)
    requires
        before.wf(),
        protocol::send_course(
            send_block_ms,
            (SendPhase::Resolving { random_number }, before),
            sends,
        ) == Some((SendPhase::Done { result: Ok(()) }, sent)),
        protocol::receive_course(receive_block_ms, (ReceivePhase::Opening, sent), receives)
            == Some((ReceivePhase::Done { result }, after)),
        0 <= n < receives.len(),
        delivers(sent, receives[n]),
        before.authenticated ==> receives[n + 2]->ValidateAuth_answer is Ok,
        ({
            let response = receives[n]->Receive_after;
            &&& serializer::packet_mode(response) == MODE_SERVER
            &&& wire::stamp(response, ORIGIN_AT as int) == sent.request_time || (
            !before.authenticated && response.subrange(24, 32) == sent.packet().subrange(40, 48))
            &&& wire::stamp(response, RECEIVE_AT as int) != types::zero_time()
            &&& wire::stamp(response, TRANSMIT_AT as int) != types::zero_time()
        }),
    ensures
        ({
            let response = receives[n]->Receive_after;
            if response[STRATUM_AT as int] != 0 {
                &&& result == Ok::<Reception, ReceiveError>(Reception::Synchronised)
                &&& receives.last() is AdjustClock
                &&& receives.last()->AdjustClock_server_time == wire::stamp(
                    response,
                    TRANSMIT_AT as int,
                )
            } else {
                result == Ok::<Reception, ReceiveError>(Reception::Rejected)
            }
        }),
{
    let response = receives[n]->Receive_after;
    what_sending_leaves_behind(send_block_ms, random_number, before, sends, Ok(()), sent);
    a_return_is_the_end(receive_block_ms, sent, receives, result, after);
    a_datagram_is_judged(receive_block_ms, sent, receives, result, n);
    what_was_judged(sent, response, receives[n + 1]->ReadClock_time);
    laws::a_request_carries_its_time(sent.request_time);
    if !before.authenticated && response.subrange(24, 32) == sent.packet().subrange(40, 48) {
        wire::same_bytes_same_stamp(response, 24, sent.packet(), 40);
    }
}

/// While a call that receives a response is still reading, no clock reading
/// since its start has met the block time or the response timeout. So the first
/// reading that meets either is the last.
#[verifier::rlimit(40)]
pub proof fn no_read_past_a_deadline(
    block_time_ms: u32,
    before: ClientState,
    events: Seq<Event>,
    started: Timestamp,
    idle: int,
    client: ClientState,
)
    requires
        protocol::receive_course(block_time_ms, (ReceivePhase::Opening, before), events) == Some(
            (ReceivePhase::Reading { started, idle }, client),
        ),
    ensures
        idle >= 0,
        client == (ClientState { buffer: client.buffer, ..before }),
        events.len() == 2 * idle + 1,
        events[0] == (Event::ReadClock { time: started }),
        forall|k: int|
            1 <= k <= idle ==> {
                &&& (#[trigger] events[2 * k]) is ReadClock
                &&& !before.overdue(events[2 * k]->ReadClock_time)
                &&& !protocol::blocked_long_enough(
                    events[2 * k]->ReadClock_time,
                    started,
                    block_time_ms,
                )
            },
    decreases events.len(),
{
    let start = (ReceivePhase::Opening, before);
    assert(events.len() > 0);
    let one = events.drop_last();
    let status = protocol::receive_course(block_time_ms, start, one)->0;
    if status.0 is Waiting {
        let two = one.drop_last();
        assert(one.len() > 0);
        let earlier = protocol::receive_course(block_time_ms, start, two)->0;
        no_read_past_a_deadline(block_time_ms, before, two, started, idle - 1, earlier.1);
        assert forall|k: int| 1 <= k <= idle implies {
            &&& (#[trigger] events[2 * k]) is ReadClock
            &&& !before.overdue(events[2 * k]->ReadClock_time)
            &&& !protocol::blocked_long_enough(
                events[2 * k]->ReadClock_time,
                started,
                block_time_ms,
            )
        } by {
            if k < idle {
                assert(two[2 * k] == events[2 * k]);
            }
        }
        assert(two[0] == events[0]);
    } else {
        assert(one.len() == 0) by {
            if one.len() > 0 {
                assert(protocol::receive_course(block_time_ms, start, one.drop_last()) is Some);
            }
        }
    }
}

/// A deadline that has been met ends the wait, and the response timeout comes
/// before the block time: a call never waits for a block time that ends after
/// the response is overdue.
pub proof fn a_met_deadline_ends_the_wait(
    block_time_ms: u32,
    client: ClientState,
    started: Timestamp,
    idle: int,
    now: Timestamp,
)
    ensures
        client.overdue(now) ==> protocol::receive_step(
            block_time_ms,
            (ReceivePhase::Waiting { started, idle }, client),
            Event::ReadClock { time: now },
        ) == Some((ReceivePhase::Done { result: Ok(Reception::TimedOut) }, client.rotated())),
        !client.overdue(now) && protocol::blocked_long_enough(now, started, block_time_ms)
            ==> protocol::receive_step(
            block_time_ms,
            (ReceivePhase::Waiting { started, idle }, client),
            Event::ReadClock { time: now },
        ) == Some((ReceivePhase::Done { result: Ok(Reception::NothingYet) }, client)),
        protocol::blocked_long_enough(now, started, block_time_ms) ==> protocol::send_step(
            block_time_ms,
            (SendPhase::Waiting { started, idle }, client),
            Event::ReadClock { time: now },
        ) == Some((SendPhase::Done { result: Err(SendError::SendTimeout) }, client)),
{
}

/// Without authentication the authenticator is never called.
pub proof fn no_authentication_no_authenticator(
    block_time_ms: u32,
    random_number: u32,
    before: ClientState,
    events: Seq<Event>,
)
    requires
        before.wf(),
        !before.authenticated,
        protocol::send_course(
            block_time_ms,
            (SendPhase::Resolving { random_number }, before),
            events,
        ) is Some || protocol::receive_course(
            block_time_ms,
            (ReceivePhase::Opening, before),
            events,
        ) is Some,
    ensures
        forall|i: int| 0 <= i < events.len() ==> !(#[trigger] events[i]).is_authentication(),
{
    let sending = (SendPhase::Resolving { random_number }, before);
    let receiving = (ReceivePhase::Opening, before);
    assert forall|i: int| 0 <= i < events.len() implies !(
    #[trigger] events[i]).is_authentication() by {
        if send_goes_through(block_time_ms, sending, events) {
            send_step_at(block_time_ms, sending, events, i);
            sending_holds_throughout(block_time_ms, random_number, before, events.take(i));
        } else {
            receive_step_at(block_time_ms, receiving, events, i);
            receiving_holds_throughout(block_time_ms, before, events.take(i));
        }
    }
}

} // verus!

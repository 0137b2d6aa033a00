//! What a call that sends a request does, from its first callback to its last.
//!
//! The laws follow the events of a whole call: what each callback is handed,
//! and what each answer leads to. Between them they leave nothing open.

use crate::client::SendError;
use crate::host::NetworkError;
use crate::protocol::{ClientState, Event, SendPhase, SendStatus};
use crate::types::Timestamp;
use crate::{arithmetic, protocol, serializer, types};
use vstd::prelude::*;

verus! {

/// Where a call that sends a request stands before its event `n`.
#[verifier::opaque]
spec fn send_status(
    block_time_ms: u32,
    random_number: u32,
    before: ClientState,
    events: Seq<Event>,
    n: int,
) -> SendStatus {
    protocol::send_course(
        block_time_ms,
        (SendPhase::Resolving { random_number }, before),
        events.take(n),
    )->0
}

/// These are all the events of a call that sends a request.
#[verifier::opaque]
spec fn sends_to_the_end(
    block_time_ms: u32,
    random_number: u32,
    before: ClientState,
    events: Seq<Event>,
    result: Result<(), SendError>,
    after: ClientState,
) -> bool {
    protocol::send_course(
        block_time_ms,
        (SendPhase::Resolving { random_number }, before),
        events,
    ) == Some((SendPhase::Done { result }, after))
}

proof fn a_prefix_goes_through(
    block_time_ms: u32,
    start: SendStatus,
    events: Seq<Event>,
    n: int,
)
    requires
        protocol::send_course(block_time_ms, start, events) is Some,
        0 <= n <= events.len(),
    ensures
        protocol::send_course(block_time_ms, start, events.take(n)) is Some,
    decreases events.len(),
{
    if n == events.len() {
        assert(events.take(n) =~= events);
    } else {
        a_prefix_goes_through(block_time_ms, start, events.drop_last(), n);
        assert(events.drop_last().take(n) =~= events.take(n));
    }
}

/// One event takes a call from one status to the next; only at the end is it
/// done.
proof fn send_status_next(
    block_time_ms: u32,
    random_number: u32,
    before: ClientState,
    events: Seq<Event>,
    result: Result<(), SendError>,
    after: ClientState,
    n: int,
)
    requires
        sends_to_the_end(block_time_ms, random_number, before, events, result, after),
        0 <= n <= events.len(),
    ensures
        n == 0 ==> send_status(block_time_ms, random_number, before, events, n) == (
            SendPhase::Resolving { random_number },
            before,
        ),
        n == events.len() ==> send_status(block_time_ms, random_number, before, events, n) == (
            SendPhase::Done { result },
            after,
        ),
        send_status(block_time_ms, random_number, before, events, n).0 is Done ==> n
            == events.len(),
        n < events.len() ==> Some(send_status(block_time_ms, random_number, before, events, n + 1))
            == protocol::send_step(
            block_time_ms,
            send_status(block_time_ms, random_number, before, events, n),
            events[n],
        ),
{
    reveal(send_status);
    reveal(sends_to_the_end);
    let start = (SendPhase::Resolving { random_number }, before);
    a_prefix_goes_through(block_time_ms, start, events, n);
    if n < events.len() {
        a_prefix_goes_through(block_time_ms, start, events, n + 1);
        assert(events.take(n + 1).drop_last() =~= events.take(n));
    } else {
        assert(events.take(n) =~= events);
    }
}

/// Where the clock reading that opens the retry window stands: behind the
/// resolution, the reading for the timestamp, and the authentication code where
/// there is one.
pub open spec fn window_opens_at(client: ClientState) -> int {
    if client.authenticated {
        3
    } else {
        2
    }
}

/// How far a call has come tells where it stands.
spec fn in_place(before: ClientState, events: Seq<Event>, n: int, status: SendStatus) -> bool {
    let w = window_opens_at(before);
    &&& status.1.authenticated == before.authenticated
    &&& match status.0 {
        SendPhase::Resolving { .. } => n == 0,
        SendPhase::Stamping { .. } => n == 1,
        SendPhase::Authenticating => n == 2 && before.authenticated,
        SendPhase::Opening => n == w,
        SendPhase::Sending { started, idle } => {
            &&& n == w + 1 + 2 * idle
            &&& 0 <= idle < 18_446_744_073_709_551_615
            &&& events[w] == (Event::ReadClock { time: started })
        },
        SendPhase::Waiting { started, idle } => {
            &&& n == w + 2 + 2 * idle
            &&& 0 <= idle < 18_446_744_073_709_551_615
            &&& events[w] == (Event::ReadClock { time: started })
        },
        SendPhase::Done { .. } => true,
    }
}

proof fn a_call_is_in_place(
    block_time_ms: u32,
    random_number: u32,
    before: ClientState,
    events: Seq<Event>,
    result: Result<(), SendError>,
    after: ClientState,
    n: int,
)
    requires
        sends_to_the_end(block_time_ms, random_number, before, events, result, after),
        0 <= n <= events.len(),
    ensures
        in_place(
            before,
            events,
            n,
            send_status(block_time_ms, random_number, before, events, n),
        ),
    decreases n,
{
    if n == 0 {
        send_status_next(block_time_ms, random_number, before, events, result, after, 0);
    } else {
        a_call_is_in_place(block_time_ms, random_number, before, events, result, after, n - 1);
        send_status_next(block_time_ms, random_number, before, events, result, after, n - 1);
    }
}

/// From the retry window on, the client does not change.
proof fn the_window_keeps_the_client(
    block_time_ms: u32,
    random_number: u32,
    before: ClientState,
    events: Seq<Event>,
    result: Result<(), SendError>,
    after: ClientState,
    n: int,
)
    requires
        sends_to_the_end(block_time_ms, random_number, before, events, result, after),
        0 <= n <= events.len(),
        ({
            let phase = send_status(block_time_ms, random_number, before, events, n).0;
            phase is Opening || phase is Sending || phase is Waiting || phase is Done
        }),
    ensures
        send_status(block_time_ms, random_number, before, events, n).1 == after,
    decreases events.len() - n,
{
    send_status_next(block_time_ms, random_number, before, events, result, after, n);
    if n < events.len() {
        the_window_keeps_the_client(
            block_time_ms,
            random_number,
            before,
            events,
            result,
            after,
            n + 1,
        );
    }
}

/// The first two callbacks, and what stops a call there.
proof fn resolved_and_stamped(
    block_time_ms: u32,
    random_number: u32,
    before: ClientState,
    events: Seq<Event>,
    result: Result<(), SendError>,
    after: ClientState,
)
    requires
        sends_to_the_end(block_time_ms, random_number, before, events, result, after),
    ensures
        events.len() >= 1,
        events[0] is Resolve,
        events[0]->Resolve_server == before.servers[before.current],
        events[0]->Resolve_address is None ==> events.len() == 1 && result == Err::<(), SendError>(
            SendError::Dns,
        ) && after == before,
        events[0]->Resolve_address matches Some(address) ==> {
            &&& events.len() >= 2
            &&& events[1] is ReadClock
            &&& events[1]->ReadClock_time == types::zero_time() ==> events.len() == 2 && result
                == Err::<(), SendError>(SendError::Network) && after == (ClientState {
                address,
                request_time: types::zero_time(),
                ..before
            })
            &&& events[1]->ReadClock_time != types::zero_time() ==> send_status(
                block_time_ms,
                random_number,
                before,
                events,
                2,
            ) == (
                if before.authenticated {
                    SendPhase::Authenticating
                } else {
                    SendPhase::Opening
                },
                ready(before, address, events[1]->ReadClock_time, random_number),
            )
        },
{
    send_status_next(block_time_ms, random_number, before, events, result, after, 0);
    send_status_next(block_time_ms, random_number, before, events, result, after, 1);
    if events[0]->Resolve_address is Some {
        send_status_next(block_time_ms, random_number, before, events, result, after, 2);
    }
}

/// A client with its request in the buffer.
spec fn ready(
    before: ClientState,
    address: u32,
    now: Timestamp,
    random_number: u32,
) -> ClientState {
    let request = serializer::randomized(now, random_number);
    ClientState {
        address,
        request_time: request,
        buffer: serializer::request_packet(request) + before.buffer.skip(48),
        ..before
    }
}

/// **A request in stages.** The name of the server in use is resolved, and
/// without an address the call ends there with nothing changed. The clock is
/// read, and at zero the call ends there. Otherwise the reading with its random
/// bits is the request's time, and its packet stands in the first 48 bytes.
/// Where authentication is configured the authenticator gets the whole buffer,
/// and the call ends there if it fails or if its code does not fit behind those
/// 48 bytes; otherwise the packets grow by the code, up to 65,535 bytes. Every
/// call that gets so far opens its retry window.
pub proof fn a_request_in_stages(
    block_time_ms: u32,
    random_number: u32,
    before: ClientState,
    events: Seq<Event>,
    result: Result<(), SendError>,
    after: ClientState,
)
    requires
        before.wf(),
        protocol::send_course(
            block_time_ms,
            (SendPhase::Resolving { random_number }, before),
            events,
        ) == Some((SendPhase::Done { result }, after)),
    ensures
        events.len() >= 1,
        events[0] is Resolve,
        events[0]->Resolve_server == before.servers[before.current],
        events[0]->Resolve_address is None ==> events.len() == 1 && result == Err::<(), SendError>(
            SendError::Dns,
        ) && after == before,
        events[0]->Resolve_address matches Some(address) ==> {
            let now = events[1]->ReadClock_time;
            let request = serializer::randomized(now, random_number);
            let stamped = ClientState {
                address,
                request_time: request,
                buffer: serializer::request_packet(request) + before.buffer.subrange(
                    48,
                    before.buffer.len() as int,
                ),
                ..before
            };
            &&& events.len() >= 2
            &&& events[1] is ReadClock
            &&& if now.seconds == 0 && now.fractions == 0 {
                &&& events.len() == 2
                &&& result == Err::<(), SendError>(SendError::Network)
                &&& after == ClientState { address, request_time: now, ..before }
            } else if !before.authenticated {
                &&& events.len() > 3
                &&& after == stamped
            } else {
                let left = ClientState { buffer: events[2]->GenerateAuth_after, ..stamped };
                let code = events[2]->GenerateAuth_answer;
                &&& events.len() >= 3
                &&& events[2] is GenerateAuth
                &&& events[2]->GenerateAuth_server == before.servers[before.current]
                &&& events[2]->GenerateAuth_before == stamped.buffer
                &&& left.buffer.len() == before.buffer.len()
                &&& if code is Ok && 48 + code->Ok_0 <= before.buffer.len() {
                    &&& events.len() > 4
                    &&& after == ClientState {
                        packet_size: if 48 + code->Ok_0 < 65_535 {
                            48 + code->Ok_0
                        } else {
                            65_535
                        },
                        ..left
                    }
                } else {
                    &&& events.len() == 3
                    &&& result == Err::<(), SendError>(SendError::Auth)
                    &&& after == left
                }
            }
        },
{
    assert(sends_to_the_end(block_time_ms, random_number, before, events, result, after)) by {
        reveal(sends_to_the_end);
    }
    resolved_and_stamped(block_time_ms, random_number, before, events, result, after);
    if events[0]->Resolve_address is Some && events[1]->ReadClock_time != types::zero_time() {
        let address = events[0]->Resolve_address->0;
        let client = ready(before, address, events[1]->ReadClock_time, random_number);
        send_status_next(block_time_ms, random_number, before, events, result, after, 2);
        assert(client.buffer.len() == before.buffer.len());
        assert(before.buffer.skip(48) =~= before.buffer.subrange(48, before.buffer.len() as int));
        if before.authenticated {
            send_status_next(block_time_ms, random_number, before, events, result, after, 3);
            if send_status(block_time_ms, random_number, before, events, 3).0 is Opening {
                an_open_window_has_an_attempt(
                    block_time_ms,
                    random_number,
                    before,
                    events,
                    result,
                    after,
                    3,
                );
            }
        } else {
            an_open_window_has_an_attempt(
                block_time_ms,
                random_number,
                before,
                events,
                result,
                after,
                2,
            );
        }
    }
}

proof fn an_open_window_has_an_attempt(
    block_time_ms: u32,
    random_number: u32,
    before: ClientState,
    events: Seq<Event>,
    result: Result<(), SendError>,
    after: ClientState,
    w: int,
)
    requires
        sends_to_the_end(block_time_ms, random_number, before, events, result, after),
        0 <= w <= events.len(),
        send_status(block_time_ms, random_number, before, events, w).0 is Opening,
    ensures
        w + 1 < events.len(),
        events[w] is ReadClock,
        events[w + 1] is Send,
        send_status(block_time_ms, random_number, before, events, w).1 == after,
{
    send_status_next(block_time_ms, random_number, before, events, result, after, w);
    send_status_next(block_time_ms, random_number, before, events, result, after, w + 1);
    the_window_keeps_the_client(block_time_ms, random_number, before, events, result, after, w);
}

/// Every call that goes beyond its stages opens the window with a clock reading
/// of its own and makes a first attempt, whatever the block time.
pub proof fn a_window_opens_with_an_attempt(
    block_time_ms: u32,
    random_number: u32,
    before: ClientState,
    events: Seq<Event>,
    result: Result<(), SendError>,
    after: ClientState,
)
    requires
        before.wf(),
        protocol::send_course(
            block_time_ms,
            (SendPhase::Resolving { random_number }, before),
            events,
        ) == Some((SendPhase::Done { result }, after)),
        events.len() > window_opens_at(before),
    ensures
        events.len() > window_opens_at(before) + 1,
        events[window_opens_at(before)] is ReadClock,
        events[window_opens_at(before) + 1] is Send,
{
    assert(sends_to_the_end(block_time_ms, random_number, before, events, result, after)) by {
        reveal(sends_to_the_end);
    }
    let w = window_opens_at(before);
    resolved_and_stamped(block_time_ms, random_number, before, events, result, after);
    send_status_next(block_time_ms, random_number, before, events, result, after, 2);
    send_status_next(block_time_ms, random_number, before, events, result, after, w);
    an_open_window_has_an_attempt(
        block_time_ms,
        random_number,
        before,
        events,
        result,
        after,
        w,
    );
}

/// **What an attempt leads to.** Each attempt hands the transport the whole
/// packet, for the address and the port of the server in use. A transport that
/// takes it all ends the call well; one that fails, or takes any other number
/// of bytes, ends it with a network error. One that takes nothing is waited for:
/// the clock is read, and the call gives up exactly where that reading is at
/// least the block time past the one that opened the window, or where this was
/// the 18,446,744,073,709,551,615th attempt. Everywhere else there is another
/// attempt.
pub proof fn what_an_attempt_leads_to(
    block_time_ms: u32,
    random_number: u32,
    before: ClientState,
    events: Seq<Event>,
    result: Result<(), SendError>,
    after: ClientState,
    i: int,
)
    requires
        before.wf(),
        protocol::send_course(
            block_time_ms,
            (SendPhase::Resolving { random_number }, before),
            events,
        ) == Some((SendPhase::Done { result }, after)),
        0 <= i < events.len(),
        events[i] is Send,
    ensures
        events[i]->Send_address == after.address,
        events[i]->Send_port == before.servers[before.current].port,
        events[i]->Send_packet == after.buffer.subrange(0, after.packet_size),
        ({
            let w = window_opens_at(before);
            let attempt = (i - w + 1) / 2;
            let answer = events[i]->Send_answer;
            &&& i == w - 1 + 2 * attempt
            &&& 1 <= attempt <= 18_446_744_073_709_551_615
            &&& events[w] is ReadClock
            &&& if answer == Ok::<usize, NetworkError>(0) {
                let now = events[i + 1]->ReadClock_time;
                &&& i + 1 < events.len()
                &&& events[i + 1] is ReadClock
                &&& if arithmetic::elapsed_ms(now, events[w]->ReadClock_time) >= block_time_ms
                    || attempt == 18_446_744_073_709_551_615 {
                    &&& events.len() == i + 2
                    &&& result == Err::<(), SendError>(SendError::SendTimeout)
                } else {
                    &&& events.len() > i + 2
                    &&& events[i + 2] is Send
                }
            } else if answer is Ok && answer->Ok_0 == after.packet_size {
                &&& events.len() == i + 1
                &&& result is Ok
            } else {
                &&& events.len() == i + 1
                &&& result == Err::<(), SendError>(SendError::Network)
            }
        }),
{
    assert(sends_to_the_end(block_time_ms, random_number, before, events, result, after)) by {
        reveal(sends_to_the_end);
    }
    let w = window_opens_at(before);
    let status = send_status(block_time_ms, random_number, before, events, i);
    send_status_next(block_time_ms, random_number, before, events, result, after, i);
    a_call_is_in_place(block_time_ms, random_number, before, events, result, after, i);
    the_window_keeps_the_client(block_time_ms, random_number, before, events, result, after, i);
    crate::client_laws::what_sending_leaves_behind(
        block_time_ms,
        random_number,
        before,
        events,
        result,
        after,
    );
    assert(after.packet() =~= after.buffer.subrange(0, after.packet_size));
    let idle = status.0->Sending_idle;
    assert((i - w + 1) / 2 == idle + 1);
    send_status_next(block_time_ms, random_number, before, events, result, after, i + 1);
    if i + 1 < events.len() {
        send_status_next(block_time_ms, random_number, before, events, result, after, i + 2);
    }
}

/// **A timeout has a reason.** A call answers that nothing could be sent only
/// where its last clock reading is at least the block time past the one that
/// opened its window, or after 18,446,744,073,709,551,615 attempts.
pub proof fn a_send_timeout_has_a_reason(
    block_time_ms: u32,
    random_number: u32,
    before: ClientState,
    events: Seq<Event>,
    after: ClientState,
)
    requires
        before.wf(),
        protocol::send_course(
            block_time_ms,
            (SendPhase::Resolving { random_number }, before),
            events,
        ) == Some((SendPhase::Done { result: Err(SendError::SendTimeout) }, after)),
    ensures
        ({
            let w = window_opens_at(before);
            &&& events.len() >= w + 3
            &&& events[w] is ReadClock
            &&& events.last() is ReadClock
            &&& arithmetic::elapsed_ms(
                events.last()->ReadClock_time,
                events[w]->ReadClock_time,
            ) >= block_time_ms || events.len() == w + 1 + 2 * 18_446_744_073_709_551_615
        }),
{
    let result = Err::<(), SendError>(SendError::SendTimeout);
    assert(sends_to_the_end(block_time_ms, random_number, before, events, result, after)) by {
        reveal(sends_to_the_end);
    }
    let len = events.len() as int;
    send_status_next(block_time_ms, random_number, before, events, result, after, 0);
    send_status_next(block_time_ms, random_number, before, events, result, after, len);
    assert(len > 0);
    send_status_next(block_time_ms, random_number, before, events, result, after, len - 1);
    a_call_is_in_place(block_time_ms, random_number, before, events, result, after, len - 1);
    send_status_next(block_time_ms, random_number, before, events, result, after, len - 2);
    what_an_attempt_leads_to(
        block_time_ms,
        random_number,
        before,
        events,
        result,
        after,
        len - 2,
    );
}

} // verus!

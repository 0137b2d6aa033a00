//! What a call that receives a response does, from its first callback to its
//! last.
//!
//! The laws follow the events of a whole call: what each callback is handed,
//! and what each answer leads to. Between them they leave nothing open.

use crate::client::{ReceiveError, Reception};
use crate::host::{AuthError, NetworkError};
use crate::protocol::{ClientState, Event, ReceivePhase, ReceiveStatus};
use crate::types::{Timestamp, Verdict};
use crate::{arithmetic, protocol, serializer, types};
use vstd::prelude::*;

verus! {

/// Where a call that receives a response stands before its event `n`.
#[verifier::opaque]
spec fn status_at(
    block_time_ms: u32,
    before: ClientState,
    events: Seq<Event>,
    n: int,
) -> ReceiveStatus {
    protocol::receive_course(block_time_ms, (ReceivePhase::Opening, before), events.take(n))->0
}

/// These are all the events of a call that receives a response.
#[verifier::opaque]
spec fn ends(
    block_time_ms: u32,
    before: ClientState,
    events: Seq<Event>,
    result: Result<Reception, ReceiveError>,
    after: ClientState,
) -> bool {
    &&& before.wf()
    &&& protocol::receive_course(block_time_ms, (ReceivePhase::Opening, before), events) == Some(
        (ReceivePhase::Done { result }, after),
    )
}

proof fn a_prefix_goes_through(
    block_time_ms: u32,
    start: ReceiveStatus,
    events: Seq<Event>,
    n: int,
)
    requires
        protocol::receive_course(block_time_ms, start, events) is Some,
        0 <= n <= events.len(),
    ensures
        protocol::receive_course(block_time_ms, start, events.take(n)) is Some,
    decreases events.len(),
{
    if n == events.len() {
        assert(events.take(n) =~= events);
    } else {
        a_prefix_goes_through(block_time_ms, start, events.drop_last(), n);
        assert(events.drop_last().take(n) =~= events.take(n));
    }
}

/// One event takes a call from one status to the next; only at the end is it
/// done.
proof fn status_next(
    block_time_ms: u32,
    before: ClientState,
    events: Seq<Event>,
    result: Result<Reception, ReceiveError>,
    after: ClientState,
    n: int,
)
    requires
        ends(block_time_ms, before, events, result, after),
        0 <= n <= events.len(),
    ensures
        before.wf(),
        n == 0 ==> status_at(block_time_ms, before, events, n) == (ReceivePhase::Opening, before),
        n == events.len() ==> status_at(block_time_ms, before, events, n) == (
            ReceivePhase::Done { result },
            after,
        ),
        status_at(block_time_ms, before, events, n).0 is Done ==> n == events.len(),
        n < events.len() ==> Some(status_at(block_time_ms, before, events, n + 1))
            == protocol::receive_step(
            block_time_ms,
            status_at(block_time_ms, before, events, n),
            events[n],
        ),
{
    reveal(status_at);
    reveal(ends);
    let start = (ReceivePhase::Opening, before);
    a_prefix_goes_through(block_time_ms, start, events, n);
    if n < events.len() {
        a_prefix_goes_through(block_time_ms, start, events, n + 1);
        assert(events.take(n + 1).drop_last() =~= events.take(n));
    } else {
        assert(events.take(n) =~= events);
    }
}

/// How far a waiting call has come tells where it stands, and what its buffer
/// holds.
spec fn in_place(before: ClientState, events: Seq<Event>, n: int, status: ReceiveStatus) -> bool {
    let (phase, client) = status;
    match phase {
        ReceivePhase::Opening => n == 0 && client == before,
        ReceivePhase::Reading { started, idle } => {
            &&& n == 1 + 2 * idle
            &&& 0 <= idle < 18_446_744_073_709_551_615
            &&& events[0] == (Event::ReadClock { time: started })
            &&& if idle == 0 {
                client == before
            } else {
                brought(before, events, n - 2, client)
            }
        },
        ReceivePhase::Waiting { started, idle } => {
            &&& n == 2 + 2 * idle
            &&& 0 <= idle < 18_446_744_073_709_551_615
            &&& events[0] == (Event::ReadClock { time: started })
            &&& brought(before, events, n - 1, client)
        },
        _ => true,
    }
}

/// The client holds what the read at `i` left.
spec fn brought(before: ClientState, events: Seq<Event>, i: int, client: ClientState) -> bool {
    let left = events[i]->Receive_after;
    &&& events[i] is Receive
    &&& left.len() == before.packet_size
    &&& client == (ClientState { buffer: left + before.buffer.skip(before.packet_size), ..before })
    &&& client.packet() == left
}

proof fn a_read_is_brought(before: ClientState, client: ClientState, left: Seq<u8>)
    requires
        before.wf(),
        left.len() == before.packet_size,
        client == before || (exists|earlier: Seq<u8>|
            #![trigger earlier + before.buffer.skip(before.packet_size)]
            earlier.len() == before.packet_size && client == (ClientState {
                buffer: earlier + before.buffer.skip(before.packet_size),
                ..before
            })),
    ensures
        client.filled(left) == (ClientState {
            buffer: left + before.buffer.skip(before.packet_size),
            ..before
        }),
        client.filled(left).packet() == left,
{
    assert(client.buffer.skip(before.packet_size) =~= before.buffer.skip(before.packet_size));
    assert(client.filled(left).packet() =~= left);
}

proof fn a_call_is_in_place(
    block_time_ms: u32,
    before: ClientState,
    events: Seq<Event>,
    result: Result<Reception, ReceiveError>,
    after: ClientState,
    n: int,
)
    requires
        ends(block_time_ms, before, events, result, after),
        0 <= n <= events.len(),
    ensures
        in_place(before, events, n, status_at(block_time_ms, before, events, n)),
    decreases n,
{
    if n == 0 {
        status_next(block_time_ms, before, events, result, after, 0);
    } else {
        a_call_is_in_place(block_time_ms, before, events, result, after, n - 1);
        status_next(block_time_ms, before, events, result, after, n - 1);
        let (phase, client) = status_at(block_time_ms, before, events, n - 1);
        if phase is Reading {
            a_read_is_brought(before, client, events[n - 1]->Receive_after);
        }
    }
}

/// A read, and where it leaves the call.
proof fn a_read_in_place(
    block_time_ms: u32,
    before: ClientState,
    events: Seq<Event>,
    result: Result<Reception, ReceiveError>,
    after: ClientState,
    i: int,
)
    requires
        ends(block_time_ms, before, events, result, after),
        0 <= i < events.len(),
        events[i] is Receive,
    ensures
        i % 2 == 1,
        i < 2 * 18_446_744_073_709_551_615,
        events[0] is ReadClock,
        events[i]->Receive_address == before.address,
        events[i]->Receive_port == before.servers[before.current].port,
        events[i]->Receive_before == (if i == 1 {
            before.buffer.subrange(0, before.packet_size)
        } else {
            events[i - 2]->Receive_after
        }),
        i > 1 ==> events[i - 2] is Receive,
        events[i]->Receive_after.len() == before.packet_size,
        ({
            let client = ClientState {
                buffer: events[i]->Receive_after + before.buffer.skip(before.packet_size),
                ..before
            };
            let answer = events[i]->Receive_answer;
            &&& client.packet() == events[i]->Receive_after
            &&& status_at(block_time_ms, before, events, i + 1) == (
                if answer is Ok && answer->Ok_0 == before.packet_size {
                    ReceivePhase::Timing
                } else if answer == Ok::<usize, NetworkError>(0) {
                    ReceivePhase::Waiting {
                        started: events[0]->ReadClock_time,
                        idle: (i - 1) / 2,
                    }
                } else {
                    ReceivePhase::Done { result: Err(ReceiveError::Network) }
                },
                client,
            )
        }),
{
    a_call_is_in_place(block_time_ms, before, events, result, after, i);
    status_next(block_time_ms, before, events, result, after, i);
    let (phase, client) = status_at(block_time_ms, before, events, i);
    let idle = phase->Reading_idle;
    assert(phase is Reading);
    a_read_is_brought(before, client, events[i]->Receive_after);
    assert(before.packet() =~= before.buffer.subrange(0, before.packet_size));
    assert((i - 1) / 2 == idle);
}

/// Every call reads the clock and then the transport, whatever the deadlines.
pub proof fn a_call_reads_at_least_once(
    block_time_ms: u32,
    before: ClientState,
    events: Seq<Event>,
    result: Result<Reception, ReceiveError>,
    after: ClientState,
)
    requires
        before.wf(),
        protocol::receive_course(block_time_ms, (ReceivePhase::Opening, before), events) == Some(
            (ReceivePhase::Done { result }, after),
        ),
    ensures
        events.len() >= 2,
        events[0] is ReadClock,
        events[1] is Receive,
{
    assert(ends(block_time_ms, before, events, result, after)) by {
        reveal(ends);
    }
    status_next(block_time_ms, before, events, result, after, 0);
    status_next(block_time_ms, before, events, result, after, 1);
}

/// **What is read, and from where.** Each read asks the address and the port of
/// the server in use for a datagram of the size of the packets exchanged, into
/// the first bytes of the buffer, which hold what the read before left. A
/// transport that fails, or that brings any other number of bytes than none or
/// all, ends the call with a network error.
pub proof fn what_a_read_asks_for(
    block_time_ms: u32,
    before: ClientState,
    events: Seq<Event>,
    result: Result<Reception, ReceiveError>,
    after: ClientState,
    i: int,
)
    requires
        before.wf(),
        protocol::receive_course(block_time_ms, (ReceivePhase::Opening, before), events) == Some(
            (ReceivePhase::Done { result }, after),
        ),
        0 <= i < events.len(),
        events[i] is Receive,
    ensures
        i % 2 == 1,
        events[i]->Receive_address == before.address,
        events[i]->Receive_port == before.servers[before.current].port,
        events[i]->Receive_before == (if i == 1 {
            before.buffer.subrange(0, before.packet_size)
        } else {
            events[i - 2]->Receive_after
        }),
        events[i]->Receive_after.len() == before.packet_size,
        ({
            let answer = events[i]->Receive_answer;
            answer is Err || (answer->Ok_0 != 0 && answer->Ok_0 != before.packet_size)
        }) ==> {
            &&& events.len() == i + 1
            &&& result == Err::<Reception, ReceiveError>(ReceiveError::Network)
            &&& after == (ClientState {
                buffer: events[i]->Receive_after + before.buffer.subrange(
                    before.packet_size,
                    before.buffer.len() as int,
                ),
                ..before
            })
        },
{
    assert(ends(block_time_ms, before, events, result, after)) by {
        reveal(ends);
    }
    a_read_in_place(block_time_ms, before, events, result, after, i);
    status_next(block_time_ms, before, events, result, after, i + 1);
    assert(before.buffer.skip(before.packet_size) =~= before.buffer.subrange(
        before.packet_size,
        before.buffer.len() as int,
    ));
}

/// **What silence leads to.** After a read that brought nothing the clock is
/// read. The call answers that the response timed out, and the client is on the
/// next server, behind the last on the first, exactly where at least the
/// response timeout has elapsed from the request to that reading. Otherwise it
/// answers that nothing has come yet exactly where at least the block time has
/// elapsed since its first reading, or where this was the
/// 18,446,744,073,709,551,615th read. Everywhere else it reads again.
pub proof fn what_silence_leads_to(
    block_time_ms: u32,
    before: ClientState,
    events: Seq<Event>,
    result: Result<Reception, ReceiveError>,
    after: ClientState,
    i: int,
)
    requires
        before.wf(),
        protocol::receive_course(block_time_ms, (ReceivePhase::Opening, before), events) == Some(
            (ReceivePhase::Done { result }, after),
        ),
        0 <= i < events.len(),
        events[i] is Receive,
        events[i]->Receive_answer == Ok::<usize, NetworkError>(0),
    ensures
        i + 1 < events.len(),
        events[0] is ReadClock,
        events[i + 1] is ReadClock,
        ({
            let now = events[i + 1]->ReadClock_time;
            let left = ClientState {
                buffer: events[i]->Receive_after + before.buffer.subrange(
                    before.packet_size,
                    before.buffer.len() as int,
                ),
                ..before
            };
            if arithmetic::elapsed_ms(now, before.request_time) >= before.response_timeout_ms {
                &&& events.len() == i + 2
                &&& result == Ok::<Reception, ReceiveError>(Reception::TimedOut)
                &&& after == (ClientState {
                    current: if before.current + 1 == before.servers.len() {
                        0
                    } else {
                        before.current + 1
                    },
                    ..left
                })
            } else if arithmetic::elapsed_ms(now, events[0]->ReadClock_time) >= block_time_ms || i
                == 2 * 18_446_744_073_709_551_615 - 1 {
                &&& events.len() == i + 2
                &&& result == Ok::<Reception, ReceiveError>(Reception::NothingYet)
                &&& after == left
            } else {
                &&& events.len() > i + 2
                &&& events[i + 2] is Receive
            }
        }),
{
    assert(ends(block_time_ms, before, events, result, after)) by {
        reveal(ends);
    }
    assert(before.wf());
    a_read_in_place(block_time_ms, before, events, result, after, i);
    assert(before.buffer.skip(before.packet_size) =~= before.buffer.subrange(
        before.packet_size,
        before.buffer.len() as int,
    ));
    status_next(block_time_ms, before, events, result, after, i + 1);
    if i + 1 < events.len() {
        status_next(block_time_ms, before, events, result, after, i + 2);
    }
}

/// A datagram, timed and vouched for, is judged by what the codec reads in it.
proof fn a_judgement_in_place(
    block_time_ms: u32,
    before: ClientState,
    events: Seq<Event>,
    result: Result<Reception, ReceiveError>,
    after: ClientState,
    n: int,
    client: ClientState,
    received_at: Timestamp,
)
    requires
        ends(block_time_ms, before, events, result, after),
        0 <= n <= events.len(),
        status_at(block_time_ms, before, events, n) == protocol::judged(client, received_at),
        client.wf(),
    ensures
        match serializer::reading(client.packet(), client.request_time, received_at) {
            Err(_) => {
                &&& events.len() == n
                &&& result == Err::<Reception, ReceiveError>(ReceiveError::InvalidResponse)
                &&& after == client
            },
            Ok(Verdict::Rejected(_)) => {
                &&& events.len() == n
                &&& result == Ok::<Reception, ReceiveError>(Reception::Rejected)
                &&& after == (ClientState {
                    current: if client.current + 1 == client.servers.len() {
                        0
                    } else {
                        client.current + 1
                    },
                    request_time: if client.authenticated {
                        types::zero_time()
                    } else {
                        client.request_time
                    },
                    ..client
                })
            },
            Ok(Verdict::Accepted(accepted)) => {
                &&& events.len() == n + 1
                &&& events[n] == (Event::AdjustClock {
                    server: client.servers[client.current],
                    server_time: accepted.server_time,
                    offset_ms: accepted.clock_offset_ms,
                    leap_second: accepted.leap_second,
                })
                &&& result == Ok::<Reception, ReceiveError>(Reception::Synchronised)
                &&& after == (ClientState { request_time: types::zero_time(), ..client })
            },
        },
{
    status_next(block_time_ms, before, events, result, after, n);
    if n < events.len() {
        status_next(block_time_ms, before, events, result, after, n + 1);
    }
}

/// Where the judgement of a datagram that the read at `i` brought stands:
/// behind the reading of the clock, and behind the authenticator's answer where
/// there is one.
pub open spec fn judged_at(client: ClientState, i: int) -> int {
    if client.authenticated {
        i + 3
    } else {
        i + 2
    }
}

/// **Who vouches for a datagram.** After a read that brought a datagram of the
/// right size the clock is read. Where authentication is configured the
/// authenticator is asked about that datagram and that server; a failure of
/// either kind ends the call, and leaves everything but the buffer as it was.
pub proof fn who_vouches_for_a_datagram(
    block_time_ms: u32,
    before: ClientState,
    events: Seq<Event>,
    result: Result<Reception, ReceiveError>,
    after: ClientState,
    i: int,
)
    requires
        before.wf(),
        protocol::receive_course(block_time_ms, (ReceivePhase::Opening, before), events) == Some(
            (ReceivePhase::Done { result }, after),
        ),
        0 <= i < events.len(),
        events[i] is Receive,
        events[i]->Receive_answer is Ok && events[i]->Receive_answer->Ok_0 == before.packet_size,
    ensures
        i + 1 < events.len(),
        events[i + 1] is ReadClock,
        before.authenticated ==> {
            let answer = events[i + 2]->ValidateAuth_answer;
            &&& i + 2 < events.len()
            &&& events[i + 2] is ValidateAuth
            &&& events[i + 2]->ValidateAuth_server == before.servers[before.current]
            &&& events[i + 2]->ValidateAuth_packet == events[i]->Receive_after
            &&& answer is Err ==> {
                &&& events.len() == i + 3
                &&& result == Err::<Reception, ReceiveError>(
                    if answer->Err_0 == AuthError::Failed {
                        ReceiveError::Auth
                    } else {
                        ReceiveError::ServerNotAuthenticated
                    },
                )
                &&& after == (ClientState {
                    buffer: events[i]->Receive_after + before.buffer.subrange(
                        before.packet_size,
                        before.buffer.len() as int,
                    ),
                    ..before
                })
            }
        },
{
    assert(ends(block_time_ms, before, events, result, after)) by {
        reveal(ends);
    }
    a_read_in_place(block_time_ms, before, events, result, after, i);
    assert(before.buffer.skip(before.packet_size) =~= before.buffer.subrange(
        before.packet_size,
        before.buffer.len() as int,
    ));
    status_next(block_time_ms, before, events, result, after, i + 1);
    if before.authenticated {
        status_next(block_time_ms, before, events, result, after, i + 2);
        status_next(block_time_ms, before, events, result, after, i + 3);
    }
}

/// **What a datagram leads to.** One that nobody has objected to is judged by
/// what the codec reads in it, for the outstanding request and the clock
/// reading that followed. If it cannot be read, the call answers so and nothing
/// changes. If it refuses, the client goes on to the next server, behind the
/// last to the first, and forgets its request only where authentication is
/// configured. If it gives the time, the clock is handed that time, its offset
/// and its leap second, for the server in use, and the request is forgotten.
pub proof fn what_a_datagram_leads_to(
    block_time_ms: u32,
    before: ClientState,
    events: Seq<Event>,
    result: Result<Reception, ReceiveError>,
    after: ClientState,
    i: int,
)
    requires
        before.wf(),
        protocol::receive_course(block_time_ms, (ReceivePhase::Opening, before), events) == Some(
            (ReceivePhase::Done { result }, after),
        ),
        0 <= i < events.len(),
        events[i] is Receive,
        events[i]->Receive_answer is Ok && events[i]->Receive_answer->Ok_0 == before.packet_size,
        before.authenticated ==> events[i + 2]->ValidateAuth_answer is Ok,
    ensures
        ({
            let n = judged_at(before, i);
            let left = ClientState {
                buffer: events[i]->Receive_after + before.buffer.subrange(
                    before.packet_size,
                    before.buffer.len() as int,
                ),
                ..before
            };
            match serializer::reading(
                events[i]->Receive_after,
                before.request_time,
                events[i + 1]->ReadClock_time,
            ) {
                Err(_) => {
                    &&& events.len() == n
                    &&& result == Err::<Reception, ReceiveError>(ReceiveError::InvalidResponse)
                    &&& after == left
                },
                Ok(Verdict::Rejected(_)) => {
                    &&& events.len() == n
                    &&& result == Ok::<Reception, ReceiveError>(Reception::Rejected)
                    &&& after == (ClientState {
                        current: if before.current + 1 == before.servers.len() {
                            0
                        } else {
                            before.current + 1
                        },
                        request_time: if before.authenticated {
                            Timestamp { seconds: 0, fractions: 0 }
                        } else {
                            before.request_time
                        },
                        ..left
                    })
                },
                Ok(Verdict::Accepted(accepted)) => {
                    &&& events.len() == n + 1
                    &&& events[n] == (Event::AdjustClock {
                        server: before.servers[before.current],
                        server_time: accepted.server_time,
                        offset_ms: accepted.clock_offset_ms,
                        leap_second: accepted.leap_second,
                    })
                    &&& result == Ok::<Reception, ReceiveError>(Reception::Synchronised)
                    &&& after == (ClientState {
                        request_time: Timestamp { seconds: 0, fractions: 0 },
                        ..left
                    })
                },
            }
        }),
{
    assert(ends(block_time_ms, before, events, result, after)) by {
        reveal(ends);
    }
    who_vouches_for_a_datagram(block_time_ms, before, events, result, after, i);
    a_read_in_place(block_time_ms, before, events, result, after, i);
    let client = ClientState {
        buffer: events[i]->Receive_after + before.buffer.skip(before.packet_size),
        ..before
    };
    assert(before.buffer.skip(before.packet_size) =~= before.buffer.subrange(
        before.packet_size,
        before.buffer.len() as int,
    ));
    let received_at = events[i + 1]->ReadClock_time;
    assert(status_at(block_time_ms, before, events, judged_at(before, i)) == protocol::judged(
        client,
        received_at,
    )) by {
        status_next(block_time_ms, before, events, result, after, i + 1);
        if before.authenticated {
            status_next(block_time_ms, before, events, result, after, i + 2);
        }
    }
    a_judgement_in_place(
        block_time_ms,
        before,
        events,
        result,
        after,
        judged_at(before, i),
        client,
        received_at,
    );
}

} // verus!

# rusty_rtos_sntp

An SNTPv4 client for small devices: the packet codec, the clock arithmetic and
the polling state machine, over a UDP transport, a clock and a resolver that the
application supplies. Integer arithmetic only, no allocation, no panics. Written
and proved in Verus.

```rust
use rusty_rtos_sntp::{Client, Reception, ServerInfo};

let servers = [ServerInfo::new("0.pool.ntp.org"), ServerInfo::new("1.pool.ntp.org")];
let mut buffer = [0u8; 48];
let mut client = Client::new(&servers, &mut buffer, 5_000)?;

client.send_time_request(&mut host, random_u32, 1_000)?;

match client.receive_time_response(&mut host, 1_000)? {
    Reception::Synchronised => {}          // the clock was adjusted
    Reception::NothingYet   => {}          // call again
    Reception::Rejected     => {}          // already rotated to the next server
    Reception::TimedOut     => {}          // already rotated
}
```

`host` implements `SntpHost`: resolve a name, read the clock, adjust the clock,
send a datagram, receive one.

## What is proved

- **The codec** reads and writes packets exactly as `serializer` states, for
  every buffer: each verdict, and each error with the inputs on which it comes.
- **The arithmetic** takes differences correctly across the wrap of the seconds
  field in 2036, as long as two clocks are within 68 years of each other.
- **The client** makes exactly the callbacks that `protocol` allows, in that
  order and with those arguments, and is left in exactly the state that their
  answers call for. This holds of every host and every authenticator: a host
  says of itself what it may do in `host_step`, and what a call can come to
  follows from that.
- `laws` and `client_laws` prove what follows for the library as a whole: the
  response to a request is believed and nothing else is, a request is answered
  once, a forged refusal does not lock the genuine response out, a deadline that
  has been met ends the wait, and so on.

## The clock and the deadlines

Both deadlines are measured on the host's own clock. A clock that steps back
inside one second is past every deadline; one that never makes progress keeps a
call busy for `MAX_IDLE_ROUNDS` rounds, more than five hundred years at a
nanosecond each. Give a caller whose clock can misbehave an escape of its own.

## Layout

- `src/`: the library, all of it verified.
- `tests/`: scenarios, hostile hosts and packets, exact values.
- `app/`: prints the tally of a fixed corpus, to be run under an instruction
  counter.

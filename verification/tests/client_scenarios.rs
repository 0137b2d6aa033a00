//! The client, callback for callback.
//!
//! What a client does is not only what it answers but which callbacks it makes,
//! in which order, with which arguments, and where it is left afterwards. So
//! every callback below is scripted and logged, and whole logs are compared.

use std::cell::RefCell;
use std::rc::Rc;

use rusty_rtos_sntp::client::attempt_outcome;
use rusty_rtos_sntp::{
    AuthError, Authenticator, Client, InitError, LeapSecond, NetworkError, NoAuth, ReceiveError,
    Reception, SendError, ServerInfo, SntpHost, Timestamp, Verdict,
};

fn hex(bytes: &[u8]) -> String {
    let mut s = String::new();
    for b in bytes {
        s.push_str(&format!("{b:02x}"));
    }
    s
}

fn leap_name(leap_second: LeapSecond) -> &'static str {
    match leap_second {
        LeapSecond::NoLeapSecond => "NoLeapSecond",
        LeapSecond::LastMinuteHas61Seconds => "Has61",
        LeapSecond::LastMinuteHas59Seconds => "Has59",
        LeapSecond::AlarmServerNotSynchronized => "Alarm",
    }
}

/// What the surroundings will answer, and the log they share.
#[derive(Default)]
struct Script {
    clock: Vec<(u32, u32)>,
    clock_at: usize,
    dns: Vec<Option<u32>>,
    dns_at: usize,
    sends: Vec<i32>,
    sends_at: usize,
    reads: Vec<(i32, Vec<u8>)>,
    reads_at: usize,
    codes: Vec<Option<u16>>,
    codes_at: usize,
    checks: Vec<&'static str>,
    checks_at: usize,
    log: Vec<String>,
}

type Shared = Rc<RefCell<Script>>;

struct ScriptHost(Shared);
struct ScriptAuth(Shared);

impl SntpHost for ScriptHost {
    fn resolve_dns(&mut self, server: &ServerInfo<'_>) -> Option<u32> {
        let mut s = self.0.borrow_mut();
        let answer = s.dns[s.dns_at];
        s.dns_at += 1;
        s.log.push(match answer {
            Some(address) => format!("call dns {} -> {address:08x}", server.name),
            None => format!("call dns {} -> none", server.name),
        });
        answer
    }

    fn now(&mut self) -> Timestamp {
        let mut s = self.0.borrow_mut();
        let (seconds, fractions) = s.clock[s.clock_at];
        s.clock_at += 1;
        s.log.push(format!("call getTime -> {seconds:08x}:{fractions:08x}"));
        Timestamp::new(seconds, fractions)
    }

    fn adjust_clock(
        &mut self,
        server: &ServerInfo<'_>,
        server_time: Timestamp,
        offset_ms: i64,
        leap_second: LeapSecond,
    ) {
        self.0.borrow_mut().log.push(format!(
            "call setTime {} {:08x}:{:08x} {offset_ms} {}",
            server.name,
            server_time.seconds,
            server_time.fractions,
            leap_name(leap_second)
        ));
    }

    fn send_to(&mut self, address: u32, port: u16, buffer: &[u8]) -> Result<usize, NetworkError> {
        let mut s = self.0.borrow_mut();
        let answer = s.sends[s.sends_at];
        s.sends_at += 1;
        s.log.push(format!("call sendTo {address:08x} {port} {} -> {answer}", hex(buffer)));
        if answer < 0 {
            Err(NetworkError)
        } else {
            Ok(answer as usize)
        }
    }

    fn recv_from(
        &mut self,
        address: u32,
        port: u16,
        buffer: &mut [u8],
    ) -> Result<usize, NetworkError> {
        let mut s = self.0.borrow_mut();
        let (answer, packet) = s.reads[s.reads_at].clone();
        s.reads_at += 1;
        if answer == buffer.len() as i32 {
            buffer.copy_from_slice(&packet[..buffer.len()]);
        }
        s.log.push(format!("call recvFrom {address:08x} {port} {} -> {answer}", buffer.len()));
        if answer < 0 {
            Err(NetworkError)
        } else {
            Ok(answer as usize)
        }
    }
}

impl Authenticator for ScriptAuth {
    fn generate_client_auth(
        &mut self,
        server: &ServerInfo<'_>,
        buffer: &mut [u8],
    ) -> Result<u16, AuthError> {
        let mut s = self.0.borrow_mut();
        let answer = s.codes[s.codes_at];
        s.codes_at += 1;
        s.log.push(match answer {
            Some(size) => format!("call authGen {} {} -> {size}", server.name, buffer.len()),
            None => format!("call authGen {} {} -> none", server.name, buffer.len()),
        });
        match answer {
            Some(size) => {
                for byte in buffer.iter_mut().skip(48).take(usize::from(size)) {
                    *byte = 0xC0;
                }
                Ok(size)
            }
            None => Err(AuthError::Failed),
        }
    }

    fn validate_server_auth(
        &mut self,
        server: &ServerInfo<'_>,
        packet: &[u8],
    ) -> Result<(), AuthError> {
        let mut s = self.0.borrow_mut();
        let answer = s.checks[s.checks_at];
        s.checks_at += 1;
        s.log.push(format!("call authVal {} {} -> {answer}", server.name, packet.len()));
        match answer {
            "good" => Ok(()),
            "impostor" => Err(AuthError::ServerNotAuthenticated),
            _ => Err(AuthError::Failed),
        }
    }
}

fn init_status<T>(result: &Result<T, InitError>) -> &'static str {
    match result {
        Ok(_) => "Success",
        Err(InitError::NoServers) => "BadParameter",
        Err(InitError::BufferTooSmall) => "BufferTooSmall",
    }
}

fn send_status(result: &Result<(), SendError>) -> &'static str {
    match result {
        Ok(()) => "Success",
        Err(SendError::Dns) => "DnsFailure",
        Err(SendError::Network) => "NetworkFailure",
        Err(SendError::SendTimeout) => "SendTimeout",
        Err(SendError::Auth) => "AuthFailure",
    }
}

fn receive_status(result: &Result<Reception, ReceiveError>) -> &'static str {
    match result {
        Ok(Reception::Synchronised) => "Success",
        Ok(Reception::NothingYet) => "NoResponseReceived",
        Ok(Reception::Rejected) => "RejectedResponse",
        Ok(Reception::TimedOut) => "ResponseTimeout",
        Err(ReceiveError::Network) => "NetworkFailure",
        Err(ReceiveError::InvalidResponse) => "InvalidResponse",
        Err(ReceiveError::Auth) => "AuthFailure",
        Err(ReceiveError::ServerNotAuthenticated) => "ServerNotAuthenticated",
    }
}

/// Send with this random number and block time, or receive with this block
/// time.
#[derive(Clone, Copy)]
enum Action {
    Send(u32, u32),
    Receive(u32),
}

struct Scenario {
    name: &'static str,
    servers: Vec<(&'static str, u16)>,
    buffer: usize,
    timeout: u32,
    auth: bool,
    script: Script,
    actions: Vec<Action>,
}

impl Scenario {
    fn new(name: &'static str) -> Self {
        Self {
            name,
            servers: vec![("a.example", 123), ("b.example", 1123)],
            buffer: 48,
            timeout: 5_000,
            auth: false,
            script: Script::default(),
            actions: Vec::new(),
        }
    }

    fn with_auth(name: &'static str) -> Self {
        let mut scenario = Self::new(name);
        scenario.auth = true;
        scenario.buffer = 96;
        scenario
    }

    fn run(self) -> Vec<String> {
        let servers: Vec<ServerInfo<'_>> =
            self.servers.iter().map(|(name, port)| ServerInfo::on_port(name, *port)).collect();
        let mut buffer = vec![0u8; self.buffer];
        let script: Shared = Rc::new(RefCell::new(self.script));
        if self.auth {
            let built = Client::with_authenticator(
                &servers,
                &mut buffer,
                self.timeout,
                ScriptAuth(Rc::clone(&script)),
            );
            script.borrow_mut().log.push(format!("init -> {}", init_status(&built)));
            if let Ok(mut client) = built {
                drive(&self.actions, &mut client, &script);
            }
        } else {
            let built = Client::new(&servers, &mut buffer, self.timeout);
            script.borrow_mut().log.push(format!("init -> {}", init_status(&built)));
            if let Ok(mut client) = built {
                drive(&self.actions, &mut client, &script);
            }
        }
        let log = script.borrow().log.clone();
        log
    }
}

fn drive<A: Authenticator>(actions: &[Action], client: &mut Client<'_, A>, script: &Shared) {
    let mut host = ScriptHost(Rc::clone(script));
    for action in actions {
        let line = match *action {
            Action::Send(random, block) => {
                let result = client.send_time_request(&mut host, random, block);
                format!("action s -> {}", send_status(&result))
            }
            Action::Receive(block) => {
                let result = client.receive_time_response(&mut host, block);
                format!("action r -> {}", receive_status(&result))
            }
        };
        let time = client.last_request_time();
        let state = format!(
            "state {} {:08x}:{:08x} {} {:08x}",
            client.current_server_index(),
            time.seconds,
            time.fractions,
            client.packet_size(),
            client.current_server_address()
        );
        let mut s = script.borrow_mut();
        s.log.push(line);
        s.log.push(state);
    }
}

/// The request time of the ordinary scenarios, random bits included.
const T: u32 = 0xE000_0000;
const REQUEST: (u32, u32) = (T, 0x0000_BBCD);
/// Its top half goes into the fractions 0x1000 of the clock.
const RANDOM: u32 = 0xABCD_1234;

fn reply(
    size: usize,
    first: u8,
    stratum: u8,
    code: &[u8; 4],
    origin: (u32, u32),
    received: (u32, u32),
    sent: (u32, u32),
) -> Vec<u8> {
    let mut packet = vec![0u8; size];
    packet[0] = first;
    packet[1] = stratum;
    packet[12..16].copy_from_slice(code);
    for (at, (seconds, fractions)) in [(24, origin), (32, received), (40, sent)] {
        packet[at..at + 4].copy_from_slice(&seconds.to_be_bytes());
        packet[at + 4..at + 8].copy_from_slice(&fractions.to_be_bytes());
    }
    packet
}

fn good_reply(size: usize) -> Vec<u8> {
    reply(size, 0x24, 1, &[0; 4], REQUEST, (T + 1, 0), (T + 3, 0))
}

fn kiss_of_death(size: usize) -> Vec<u8> {
    reply(size, 0x24, 0, b"DENY", REQUEST, (T + 1, 0), (T + 3, 0))
}

fn request_hex() -> String {
    format!("23{}e00000000000bbcd", "00".repeat(39))
}

/// A request that goes out at the first attempt: two clock readings.
fn sent_request(scenario: &mut Scenario) {
    let size = if scenario.auth { 64 } else { 48 };
    scenario.script.dns.push(Some(0x0A00_0001));
    scenario.script.clock.push((T, 0x1000));
    scenario.script.clock.push((T, 0x2000));
    if scenario.auth {
        scenario.script.codes.push(Some(16));
    }
    scenario.script.sends.push(size);
    scenario.actions.push(Action::Send(RANDOM, 1_000));
}

/// A datagram that is there at once: two clock readings.
fn received_datagram(scenario: &mut Scenario, packet: Vec<u8>) {
    scenario.script.clock.push((T, 0x3000));
    scenario.script.reads.push((packet.len() as i32, packet));
    scenario.script.clock.push((T + 2, 0));
    scenario.actions.push(Action::Receive(1_000));
}

fn scenarios() -> Vec<Scenario> {
    let mut all = Vec::new();

    let mut s = Scenario::new("synchronised");
    sent_request(&mut s);
    received_datagram(&mut s, good_reply(48));
    all.push(s);

    let mut s = Scenario::new("replay-after-success");
    sent_request(&mut s);
    received_datagram(&mut s, good_reply(48));
    received_datagram(&mut s, good_reply(48));
    all.push(s);

    let mut s = Scenario::new("no-request-outstanding");
    received_datagram(&mut s, reply(48, 0x24, 1, &[0; 4], (0, 0), (T, 0), (T, 0)));
    all.push(s);

    let mut s = Scenario::new("dns-fails");
    s.script.dns.push(None);
    s.actions.push(Action::Send(RANDOM, 1_000));
    all.push(s);

    let mut s = Scenario::new("clock-reads-zero");
    s.script.dns.push(Some(0x0A00_0001));
    s.script.clock.push((0, 0));
    s.actions.push(Action::Send(RANDOM, 1_000));
    all.push(s);

    let mut s = Scenario::new("send-fails");
    sent_request(&mut s);
    s.script.sends[0] = -1;
    all.push(s);

    let mut s = Scenario::new("partial-send");
    sent_request(&mut s);
    s.script.sends[0] = 47;
    all.push(s);

    let mut s = Scenario::new("send-more-than-given");
    sent_request(&mut s);
    s.script.sends[0] = 49;
    all.push(s);

    let mut s = Scenario::new("send-retries-until-the-block-time");
    s.script.dns.push(Some(0x0A00_0001));
    s.script.clock = vec![(T, 0x1000), (T, 0), (T, 0x8000_0000), (T + 1, 0)];
    s.script.sends = vec![0, 0];
    s.actions.push(Action::Send(RANDOM, 1_000));
    all.push(s);

    let mut s = Scenario::new("send-succeeds-at-the-second-attempt");
    s.script.dns.push(Some(0x0A00_0001));
    s.script.clock = vec![(T, 0x1000), (T, 0), (T, 0x8000_0000)];
    s.script.sends = vec![0, 48];
    s.actions.push(Action::Send(RANDOM, 1_000));
    all.push(s);

    let mut s = Scenario::new("no-block-time-one-attempt");
    s.script.dns.push(Some(0x0A00_0001));
    s.script.clock = vec![(T, 0x1000), (T, 0x2000), (T, 0x2000)];
    s.script.sends = vec![0];
    s.actions.push(Action::Send(RANDOM, 0));
    all.push(s);

    let mut s = Scenario::new("nothing-yet");
    sent_request(&mut s);
    s.script.clock.extend([(T, 0), (T, 0x8000_0000), (T + 1, 0)]);
    s.script.reads = vec![(0, Vec::new()), (0, Vec::new())];
    s.actions.push(Action::Receive(1_000));
    // The request was stamped at 0xBBCD, so one second later falls short of it
    // by nothing that counts in milliseconds.
    s.timeout = 1_001;
    all.push(s);

    let mut s = Scenario::new("response-timeout-comes-first");
    sent_request(&mut s);
    s.script.clock.extend([(T, 0), (T + 1, 0)]);
    s.script.reads = vec![(0, Vec::new())];
    s.actions.push(Action::Receive(1_000));
    s.timeout = 1_000;
    all.push(s);

    let mut s = Scenario::new("timeouts-walk-the-list");
    for _ in 0..3 {
        sent_request(&mut s);
        s.script.clock.extend([(T, 0x3000), (T + 9, 0x4000)]);
        s.script.reads.push((0, Vec::new()));
        s.actions.push(Action::Receive(1_000));
    }
    all.push(s);

    let mut s = Scenario::new("clock-steps-back");
    sent_request(&mut s);
    s.script.clock[0] = (T, 0x8000_1000);
    s.script.clock.extend([(T, 0x0000_0000), (T, 0x0000_0000)]);
    s.script.reads = vec![(0, Vec::new())];
    s.actions.push(Action::Receive(1_000));
    all.push(s);

    let mut s = Scenario::new("waiting-across-the-era-wrap");
    s.script.dns.push(Some(0x0A00_0001));
    s.script.clock = vec![(u32::MAX, 0), (u32::MAX, 0), (u32::MAX, 0), (0, 0), (1, 0)];
    s.script.sends.push(48);
    s.script.reads = vec![(0, Vec::new()), (0, Vec::new())];
    s.actions = vec![Action::Send(0, 1_000), Action::Receive(2_000)];
    all.push(s);

    let mut s = Scenario::new("read-fails");
    sent_request(&mut s);
    s.script.clock.push((T, 0x3000));
    s.script.reads = vec![(-1, Vec::new())];
    s.actions.push(Action::Receive(1_000));
    all.push(s);

    let mut s = Scenario::new("partial-read");
    sent_request(&mut s);
    s.script.clock.push((T, 0x3000));
    s.script.reads = vec![(47, Vec::new())];
    s.actions.push(Action::Receive(1_000));
    all.push(s);

    let mut s = Scenario::new("wrong-echo");
    sent_request(&mut s);
    let mut forged = good_reply(48);
    forged[31] ^= 1;
    received_datagram(&mut s, forged);
    all.push(s);

    let mut s = Scenario::new("kod-without-auth-keeps-request-time");
    sent_request(&mut s);
    received_datagram(&mut s, kiss_of_death(48));
    all.push(s);

    let mut s = Scenario::new("spoofed-kod-then-the-genuine-response");
    sent_request(&mut s);
    received_datagram(&mut s, kiss_of_death(48));
    received_datagram(&mut s, good_reply(48));
    all.push(s);

    let mut s = Scenario::with_auth("kod-with-auth-clears-request-time");
    sent_request(&mut s);
    s.script.checks.push("good");
    received_datagram(&mut s, kiss_of_death(64));
    all.push(s);

    let mut s = Scenario::with_auth("authenticated-exchange");
    sent_request(&mut s);
    s.script.checks.push("good");
    received_datagram(&mut s, good_reply(64));
    all.push(s);

    let mut s = Scenario::with_auth("code-cannot-be-made");
    s.script.dns.push(Some(0x0A00_0001));
    s.script.clock.push((T, 0x1000));
    s.script.codes.push(None);
    s.actions.push(Action::Send(RANDOM, 1_000));
    all.push(s);

    let mut s = Scenario::with_auth("code-fills-the-buffer");
    sent_request(&mut s);
    s.script.codes[0] = Some(48);
    s.script.sends[0] = 96;
    all.push(s);

    let mut s = Scenario::with_auth("code-too-large");
    s.script.dns.push(Some(0x0A00_0001));
    s.script.clock.push((T, 0x1000));
    s.script.codes.push(Some(49));
    s.actions.push(Action::Send(RANDOM, 1_000));
    all.push(s);

    let mut s = Scenario::with_auth("packet-size-survives-a-failed-generation");
    sent_request(&mut s);
    s.script.dns.push(Some(0x0A00_0002));
    s.script.clock.push((T, 0x1000));
    s.script.codes.push(None);
    s.actions.push(Action::Send(RANDOM, 1_000));
    s.script.checks.push("good");
    received_datagram(&mut s, good_reply(64));
    all.push(s);

    let mut s = Scenario::with_auth("check-breaks-down");
    sent_request(&mut s);
    s.script.checks.push("broken");
    received_datagram(&mut s, good_reply(64));
    all.push(s);

    let mut s = Scenario::with_auth("server-is-an-impostor");
    sent_request(&mut s);
    s.script.checks.push("impostor");
    received_datagram(&mut s, good_reply(64));
    all.push(s);

    let mut s = Scenario::new("no-servers");
    s.servers.clear();
    all.push(s);

    let mut s = Scenario::new("buffer-too-small");
    s.buffer = 47;
    all.push(s);

    let mut s = Scenario::new("no-servers-and-too-small");
    s.servers.clear();
    s.buffer = 0;
    all.push(s);

    all
}

fn log_of(name: &str) -> Vec<String> {
    for scenario in scenarios() {
        if scenario.name == name {
            return scenario.run();
        }
    }
    panic!("no scenario named {name}")
}

fn expect(name: &str, lines: &[&str]) {
    let log = log_of(name);
    assert_eq!(log, lines, "scenario {name}");
}

// ---- the scenarios as a whole --------------------------------------------

/// The scenarios must reach every outcome the client has, and make every
/// callback.
#[test]
fn the_scenarios_reach_every_outcome() {
    let mut log: Vec<String> = Vec::new();
    for scenario in scenarios() {
        log.extend(scenario.run());
    }
    let seen: Vec<&str> = log
        .iter()
        .filter(|l| l.starts_with("action ") || l.starts_with("init "))
        .filter_map(|l| l.split_whitespace().last())
        .collect();

    for required in [
        "Success",
        "DnsFailure",
        "NetworkFailure",
        "SendTimeout",
        "NoResponseReceived",
        "ResponseTimeout",
        "RejectedResponse",
        "InvalidResponse",
        "AuthFailure",
        "ServerNotAuthenticated",
        "BadParameter",
        "BufferTooSmall",
    ] {
        assert!(seen.contains(&required), "no scenario ever produces {required}");
    }

    for call in [
        "call dns",
        "call getTime",
        "call setTime",
        "call sendTo",
        "call recvFrom",
        "call authGen",
        "call authVal",
    ] {
        assert!(
            log.iter().any(|l| l.starts_with(call)),
            "no scenario ever makes a {call}"
        );
    }
}

/// After a Kiss-o'-Death the client clears its stored request timestamp only
/// when authentication is configured: the two scenarios must disagree.
#[test]
fn a_kiss_of_death_clears_the_request_time_only_when_authenticated() {
    let request_time = |name: &str| -> String {
        let log = log_of(name);
        let state = log.iter().rev().find(|l| l.starts_with("state ")).expect("a final state");
        state.split_whitespace().nth(2).expect("a request time").to_owned()
    };

    let without = request_time("kod-without-auth-keeps-request-time");
    let with = request_time("kod-with-auth-clears-request-time");

    assert_ne!(
        without, "00000000:00000000",
        "an UNAUTHENTICATED rejection cleared the request time: a spoofed \
         Kiss-o'-Death would now make the real response fail its originate check"
    );
    assert_eq!(without, "e0000000:0000bbcd");
    assert_eq!(
        with, "00000000:00000000",
        "an AUTHENTICATED rejection did not clear the request time"
    );
}

// ---- one by one ----------------------------------------------------------

#[test]
fn an_exchange_synchronises_the_clock() {
    let send = format!("call sendTo 0a000001 123 {} -> 48", request_hex());
    expect(
        "synchronised",
        &[
            "init -> Success",
            "call dns a.example -> 0a000001",
            "call getTime -> e0000000:00001000",
            "call getTime -> e0000000:00002000",
            &send,
            "action s -> Success",
            "state 0 e0000000:0000bbcd 48 0a000001",
            "call getTime -> e0000000:00003000",
            "call recvFrom 0a000001 123 48 -> 48",
            "call getTime -> e0000002:00000000",
            "call setTime a.example e0000003:00000000 1000 NoLeapSecond",
            "action r -> Success",
            "state 0 00000000:00000000 48 0a000001",
        ],
    );
}

#[test]
fn a_replayed_response_is_not_serviced() {
    let log = log_of("replay-after-success");
    let tail = &log[log.len() - 5..];
    assert_eq!(
        tail,
        [
            "call getTime -> e0000000:00003000",
            "call recvFrom 0a000001 123 48 -> 48",
            "call getTime -> e0000002:00000000",
            "action r -> InvalidResponse",
            "state 0 00000000:00000000 48 0a000001",
        ]
    );
    assert_eq!(log.iter().filter(|l| l.starts_with("call setTime")).count(), 1);
}

#[test]
fn a_zero_echo_does_not_pass_for_a_zero_request() {
    expect(
        "no-request-outstanding",
        &[
            "init -> Success",
            "call getTime -> e0000000:00003000",
            "call recvFrom 00000000 123 48 -> 48",
            "call getTime -> e0000002:00000000",
            "action r -> InvalidResponse",
            "state 0 00000000:00000000 48 00000000",
        ],
    );
}

#[test]
fn an_unresolved_name_changes_nothing() {
    expect(
        "dns-fails",
        &[
            "init -> Success",
            "call dns a.example -> none",
            "action s -> DnsFailure",
            "state 0 00000000:00000000 48 00000000",
        ],
    );
}

#[test]
fn a_clock_at_zero_makes_no_request() {
    expect(
        "clock-reads-zero",
        &[
            "init -> Success",
            "call dns a.example -> 0a000001",
            "call getTime -> 00000000:00000000",
            "action s -> NetworkFailure",
            "state 0 00000000:00000000 48 0a000001",
        ],
    );
}

#[test]
fn only_a_whole_datagram_counts_as_sent() {
    for name in ["send-fails", "partial-send", "send-more-than-given"] {
        let log = log_of(name);
        assert_eq!(log[log.len() - 2], "action s -> NetworkFailure", "{name}");
        assert_eq!(log[log.len() - 1], "state 0 e0000000:0000bbcd 48 0a000001", "{name}");
        assert_eq!(log.iter().filter(|l| l.starts_with("call sendTo")).count(), 1, "{name}");
    }
    assert_eq!(attempt_outcome(Err(NetworkError), 48), Some(Err(SendError::Network)));
    assert_eq!(attempt_outcome(Ok(0), 48), None);
    assert_eq!(attempt_outcome(Ok(47), 48), Some(Err(SendError::Network)));
    assert_eq!(attempt_outcome(Ok(48), 48), Some(Ok(())));
    assert_eq!(attempt_outcome(Ok(49), 48), Some(Err(SendError::Network)));
}

#[test]
fn a_silent_transport_is_retried_until_the_block_time() {
    let send = format!("call sendTo 0a000001 123 {} -> 0", request_hex());
    expect(
        "send-retries-until-the-block-time",
        &[
            "init -> Success",
            "call dns a.example -> 0a000001",
            "call getTime -> e0000000:00001000",
            "call getTime -> e0000000:00000000",
            &send,
            "call getTime -> e0000000:80000000",
            &send,
            "call getTime -> e0000001:00000000",
            "action s -> SendTimeout",
            "state 0 e0000000:0000bbcd 48 0a000001",
        ],
    );
}

#[test]
fn a_retry_may_succeed() {
    let log = log_of("send-succeeds-at-the-second-attempt");
    assert_eq!(log.iter().filter(|l| l.starts_with("call sendTo")).count(), 2);
    assert_eq!(log[log.len() - 2], "action s -> Success");
}

#[test]
fn without_block_time_there_is_one_attempt() {
    let log = log_of("no-block-time-one-attempt");
    assert_eq!(log.iter().filter(|l| l.starts_with("call sendTo")).count(), 1);
    assert_eq!(log[log.len() - 2], "action s -> SendTimeout");
}

#[test]
fn silence_ends_with_the_block_time() {
    let log = log_of("nothing-yet");
    assert_eq!(
        log[7..],
        [
            "call getTime -> e0000000:00000000",
            "call recvFrom 0a000001 123 48 -> 0",
            "call getTime -> e0000000:80000000",
            "call recvFrom 0a000001 123 48 -> 0",
            "call getTime -> e0000001:00000000",
            "action r -> NoResponseReceived",
            "state 0 e0000000:0000bbcd 48 0a000001",
        ]
    );
}

#[test]
fn the_response_timeout_is_looked_at_before_the_block_time() {
    let log = log_of("response-timeout-comes-first");
    assert_eq!(
        log[7..],
        [
            "call getTime -> e0000000:00000000",
            "call recvFrom 0a000001 123 48 -> 0",
            "call getTime -> e0000001:00000000",
            "action r -> ResponseTimeout",
            "state 1 e0000000:0000bbcd 48 0a000001",
        ]
    );
}

#[test]
fn each_request_resolves_the_server_it_goes_to() {
    let log = log_of("timeouts-walk-the-list");
    let resolved: Vec<&str> = log
        .iter()
        .filter(|l| l.starts_with("call dns"))
        .filter_map(|l| l.split_whitespace().nth(2))
        .collect();
    assert_eq!(resolved, ["a.example", "b.example", "a.example"]);
    let ports: Vec<&str> = log
        .iter()
        .filter(|l| l.starts_with("call sendTo"))
        .filter_map(|l| l.split_whitespace().nth(3))
        .collect();
    assert_eq!(ports, ["123", "1123", "123"]);
    assert_eq!(log[log.len() - 1], "state 1 e0000000:0000bbcd 48 0a000001");
}

#[test]
fn a_clock_that_steps_back_times_the_response_out() {
    let log = log_of("clock-steps-back");
    assert_eq!(log[log.len() - 2], "action r -> ResponseTimeout");
    assert_eq!(log[log.len() - 1], "state 1 e0000000:8000bbcd 48 0a000001");
}

#[test]
fn deadlines_are_measured_across_the_era_wrap() {
    let log = log_of("waiting-across-the-era-wrap");
    assert_eq!(
        log[7..],
        [
            "call getTime -> ffffffff:00000000",
            "call recvFrom 0a000001 123 48 -> 0",
            "call getTime -> 00000000:00000000",
            "call recvFrom 0a000001 123 48 -> 0",
            "call getTime -> 00000001:00000000",
            "action r -> NoResponseReceived",
            "state 0 ffffffff:00000000 48 0a000001",
        ]
    );
}

#[test]
fn only_a_whole_datagram_counts_as_read() {
    for name in ["read-fails", "partial-read"] {
        let log = log_of(name);
        assert_eq!(log[log.len() - 2], "action r -> NetworkFailure", "{name}");
        assert_eq!(log[log.len() - 1], "state 0 e0000000:0000bbcd 48 0a000001", "{name}");
    }
}

#[test]
fn a_wrong_echo_is_dropped() {
    let log = log_of("wrong-echo");
    assert_eq!(log[log.len() - 2], "action r -> InvalidResponse");
    assert_eq!(log[log.len() - 1], "state 0 e0000000:0000bbcd 48 0a000001");
}

#[test]
fn a_spoofed_refusal_does_not_lock_the_genuine_response_out() {
    let log = log_of("spoofed-kod-then-the-genuine-response");
    assert!(log.contains(&"action r -> RejectedResponse".to_owned()));
    assert_eq!(
        log[log.len() - 3..],
        [
            "call setTime b.example e0000003:00000000 1000 NoLeapSecond",
            "action r -> Success",
            "state 1 00000000:00000000 48 0a000001",
        ]
    );
}

#[test]
fn an_authenticated_exchange_carries_its_code() {
    let send = format!("call sendTo 0a000001 123 {}{} -> 64", request_hex(), "c0".repeat(16));
    expect(
        "authenticated-exchange",
        &[
            "init -> Success",
            "call dns a.example -> 0a000001",
            "call getTime -> e0000000:00001000",
            "call authGen a.example 96 -> 16",
            "call getTime -> e0000000:00002000",
            &send,
            "action s -> Success",
            "state 0 e0000000:0000bbcd 64 0a000001",
            "call getTime -> e0000000:00003000",
            "call recvFrom 0a000001 123 64 -> 64",
            "call getTime -> e0000002:00000000",
            "call authVal a.example 64 -> good",
            "call setTime a.example e0000003:00000000 1000 NoLeapSecond",
            "action r -> Success",
            "state 0 00000000:00000000 64 0a000001",
        ],
    );
}

#[test]
fn a_code_must_be_made_and_must_fit() {
    for (name, call) in [
        ("code-cannot-be-made", "call authGen a.example 96 -> none"),
        ("code-too-large", "call authGen a.example 96 -> 49"),
    ] {
        expect(
            name,
            &[
                "init -> Success",
                "call dns a.example -> 0a000001",
                "call getTime -> e0000000:00001000",
                call,
                "action s -> AuthFailure",
                "state 0 e0000000:0000bbcd 48 0a000001",
            ],
        );
    }
    let log = log_of("code-fills-the-buffer");
    assert_eq!(log[log.len() - 2], "action s -> Success");
    assert_eq!(log[log.len() - 1], "state 0 e0000000:0000bbcd 96 0a000001");
}

#[test]
fn the_packet_size_survives_a_failed_generation() {
    let log = log_of("packet-size-survives-a-failed-generation");
    assert_eq!(
        log[8..],
        [
            "call dns a.example -> 0a000002",
            "call getTime -> e0000000:00001000",
            "call authGen a.example 96 -> none",
            "action s -> AuthFailure",
            "state 0 e0000000:0000bbcd 64 0a000002",
            "call getTime -> e0000000:00003000",
            "call recvFrom 0a000002 123 64 -> 64",
            "call getTime -> e0000002:00000000",
            "call authVal a.example 64 -> good",
            "call setTime a.example e0000003:00000000 1000 NoLeapSecond",
            "action r -> Success",
            "state 0 00000000:00000000 64 0a000002",
        ]
    );
}

#[test]
fn a_response_that_nobody_vouches_for_does_not_reach_the_clock() {
    for (name, status) in [
        ("check-breaks-down", "action r -> AuthFailure"),
        ("server-is-an-impostor", "action r -> ServerNotAuthenticated"),
    ] {
        let log = log_of(name);
        assert!(!log.iter().any(|l| l.starts_with("call setTime")), "{name}");
        assert_eq!(log[log.len() - 2], status);
        assert_eq!(log[log.len() - 1], "state 0 e0000000:0000bbcd 64 0a000001", "{name}");
    }
}

#[test]
fn a_client_needs_servers_and_a_buffer() {
    expect("no-servers", &["init -> BadParameter"]);
    expect("buffer-too-small", &["init -> BufferTooSmall"]);
    expect("no-servers-and-too-small", &["init -> BadParameter"]);
}

// ---- the decisions on their own ------------------------------------------

#[test]
fn rotation_comes_back_after_as_many_steps_as_there_are_servers() {
    let servers = [ServerInfo::new("a"), ServerInfo::new("b"), ServerInfo::new("c")];
    let mut buffer = [0u8; 48];
    let mut client = Client::new(&servers, &mut buffer, 5_000).expect("a valid client");
    let mut visited = Vec::new();
    for _ in 0..4 {
        visited.push((client.current_server().name, client.current_server_index()));
        client.rotate_server();
    }
    assert_eq!(visited, [("a", 0), ("b", 1), ("c", 2), ("a", 0)]);
    assert_eq!(client.current_server().port, 123);
}

#[test]
fn stamping_remembers_the_randomized_time() {
    let servers = [ServerInfo::new("a")];
    let mut buffer = [0xAAu8; 50];
    {
        let mut client = Client::new(&servers, &mut buffer, 5_000).expect("a valid client");
        assert_eq!(
            client.stamp_request(Timestamp::new(0, 0), RANDOM),
            Err(SendError::Network)
        );
        assert_eq!(client.stamp_request(Timestamp::new(T, 0x1000), RANDOM), Ok(()));
        assert_eq!(client.last_request_time(), Timestamp::new(T, 0xBBCD));
    }
    assert_eq!(hex(&buffer), format!("{}aaaa", request_hex()));
}

#[test]
fn admitting_a_code_sets_the_packet_size() {
    let servers = [ServerInfo::new("a")];
    let mut buffer = vec![0u8; 70_000];
    let script: Shared = Rc::new(RefCell::new(Script::default()));
    let mut client =
        Client::with_authenticator(&servers, &mut buffer, 5_000, ScriptAuth(script))
            .expect("a valid client");
    assert_eq!(client.admit_auth_code(Ok(20)), Ok(()));
    assert_eq!(client.packet_size(), 68);
    assert_eq!(client.admit_auth_code(Err(AuthError::Failed)), Err(SendError::Auth));
    assert_eq!(client.packet_size(), 68);
    // The size saturates.
    assert_eq!(client.admit_auth_code(Ok(u16::MAX)), Ok(()));
    assert_eq!(client.packet_size(), u16::MAX);
}

#[test]
fn silence_is_judged_by_the_two_deadlines() {
    let servers = [ServerInfo::new("a"), ServerInfo::new("b")];
    let mut buffer = [0u8; 48];
    let mut client = Client::new(&servers, &mut buffer, 3_000).expect("a valid client");
    client.stamp_request(Timestamp::new(100, 1), 0).expect("a request");
    let started = Timestamp::new(101, 1);
    assert_eq!(client.judge_silence(Timestamp::new(101, 2), started, 1_000), None);
    assert_eq!(
        client.judge_silence(Timestamp::new(102, 1), started, 1_000),
        Some(Reception::NothingYet)
    );
    assert_eq!(client.current_server_index(), 0);
    assert_eq!(
        client.judge_silence(Timestamp::new(103, 1), started, 1_000),
        Some(Reception::TimedOut)
    );
    assert_eq!(client.current_server_index(), 1);
}

#[test]
fn a_reply_is_judged_by_what_stands_in_the_buffer() {
    let servers = [ServerInfo::new("a")];
    let mut buffer = [0u8; 48];
    let mut client = Client::new(&servers, &mut buffer, 3_000).expect("a valid client");
    client.stamp_request(Timestamp::new(100, 1), 0).expect("a request");
    // Its own request stands there, which no server sent.
    assert_eq!(
        client.judge_reply(Timestamp::new(101, 0)),
        Err(ReceiveError::InvalidResponse)
    );

    let mut host = ScriptHost(Rc::new(RefCell::new(Script {
        clock: vec![(100, 2), (101, 0)],
        reads: vec![(48, reply(48, 0xE4, 2, &[0; 4], (100, 1), (102, 0), (102, 0)))],
        ..Script::default()
    })));
    assert_eq!(client.receive_time_response(&mut host, 10), Ok(Reception::Synchronised));
    client.stamp_request(Timestamp::new(100, 1), 0).expect("a request");
    assert_eq!(
        client.judge_reply(Timestamp::new(101, 0)),
        Err(ReceiveError::InvalidResponse)
    );
}

#[test]
fn no_authenticator_is_the_usual_case() {
    assert!(!NoAuth::CONFIGURED);
    assert!(ScriptAuth::CONFIGURED);
    let mut none = NoAuth::default();
    let server = ServerInfo::new("a");
    let mut buffer = [1u8; 4];
    assert_eq!(none.generate_client_auth(&server, &mut buffer), Ok(0));
    assert_eq!(none.validate_server_auth(&server, &buffer), Ok(()));
    assert_eq!(buffer, [1u8; 4]);
}

/// A transport that leaves a datagram in the buffer and then fails.
struct Leaky(Vec<u8>);

impl SntpHost for Leaky {
    fn resolve_dns(&mut self, _server: &ServerInfo<'_>) -> Option<u32> {
        None
    }
    fn now(&mut self) -> Timestamp {
        Timestamp::new(T, 0)
    }
    fn adjust_clock(&mut self, _s: &ServerInfo<'_>, _t: Timestamp, _o: i64, _l: LeapSecond) {}
    fn send_to(&mut self, _a: u32, _p: u16, _b: &[u8]) -> Result<usize, NetworkError> {
        Err(NetworkError)
    }
    fn recv_from(
        &mut self,
        _address: u32,
        _port: u16,
        buffer: &mut [u8],
    ) -> Result<usize, NetworkError> {
        buffer.copy_from_slice(&self.0);
        Err(NetworkError)
    }
}

#[test]
fn a_judged_reply_carries_the_verdict() {
    let servers = [ServerInfo::new("a"), ServerInfo::new("b")];
    let mut buffer = [0u8; 48];
    let mut client = Client::new(&servers, &mut buffer, 3_000).expect("a valid client");
    client.stamp_request(Timestamp::new(T, 0x1000), RANDOM).expect("a request");

    assert_eq!(
        client.receive_time_response(&mut Leaky(kiss_of_death(48)), 10),
        Err(ReceiveError::Network)
    );
    let judged = client.judge_reply(Timestamp::new(T + 2, 0)).expect("a verdict");
    assert!(matches!(judged, Verdict::Rejected(r) if r.code_bytes() == *b"DENY"));
    assert_eq!(client.current_server_index(), 1);
    assert_eq!(client.last_request_time(), Timestamp::new(T, 0xBBCD));
}

#[test]
fn judging_alone_leaves_an_accepted_request_outstanding() {
    let servers = [ServerInfo::new("a"), ServerInfo::new("b")];
    let mut buffer = [0u8; 48];
    let mut client = Client::new(&servers, &mut buffer, 3_000).expect("a valid client");
    client.stamp_request(Timestamp::new(T, 0x1000), RANDOM).expect("a request");

    assert_eq!(
        client.receive_time_response(&mut Leaky(good_reply(48)), 10),
        Err(ReceiveError::Network)
    );
    for _ in 0..2 {
        let judged = client.judge_reply(Timestamp::new(T + 2, 0)).expect("a verdict");
        assert!(matches!(judged, Verdict::Accepted(a) if a.clock_offset_ms == 1_000));
        assert_eq!(client.current_server_index(), 0);
        assert_eq!(client.last_request_time(), Timestamp::new(T, 0xBBCD));
    }
}

//! The seam between the client and the system it runs on.

use crate::protocol::{Event, Server};
use crate::types::{LeapSecond, Timestamp};
use vstd::prelude::*;

verus! {

/// A time server: a name to resolve, and a port to reach it on.
#[derive(Debug, Clone, Copy, PartialEq, Eq)]
pub struct ServerInfo<'a> {
    /// The server's name, passed to [`SntpHost::resolve_dns`].
    pub name: &'a str,
    /// The UDP port, conventionally 123.
    pub port: u16,
}

impl<'a> View for ServerInfo<'a> {
    type V = Server;

    open spec fn view(&self) -> Server {
        Server { name: self.name@, port: self.port }
    }
}

impl<'a> ServerInfo<'a> {
    /// A server on the standard SNTP port.
    #[must_use]
    pub fn new(name: &'a str) -> (server: Self)
        ensures
            server == (ServerInfo { name, port: 123 }),
    {
        ServerInfo { name, port: 123 }
    }

    /// A server on a specific port.
    #[must_use]
    pub fn on_port(name: &'a str, port: u16) -> (server: Self)
        ensures
            server == (ServerInfo { name, port }),
    {
        ServerInfo { name, port }
    }
}

/// Something went wrong in the transport itself.
///
/// A transport that simply has nothing to report answers `Ok(0)` instead,
/// which is no error and is what the retry loops are built around.
#[derive(Debug, Clone, Copy, PartialEq, Eq, Structural)]
pub struct NetworkError;

/// Everything the client needs from the system it runs on.
///
/// `host_step` is how an implementation describes itself to a proof: it says in
/// which states a call may leave the host, for the arguments and the answer
/// that the event records. What it says is the implementation's own business.
pub trait SntpHost {
    /// May a host in this state be left in state `next` by the call that
    /// `event` records? A host that says nothing of itself may do anything.
    open spec fn host_step(&self, event: Event, next: &Self) -> bool {
        true
    }

    /// Resolve a server's name to an IPv4 address, or `None` on failure.
    ///
    /// Called for **every** request: a long-running client should follow a
    /// pool's rotation rather than pin the first address it ever saw.
    fn resolve_dns(&mut self, server: &ServerInfo<'_>) -> (address: Option<u32>)
        ensures
            old(self).host_step(Event::Resolve { server: server@, address }, &*final(self)),
    ;

    /// The current system time, as an SNTP timestamp.
    fn now(&mut self) -> (time: Timestamp)
        ensures
            old(self).host_step(Event::ReadClock { time }, &*final(self)),
    ;

    /// Apply a measured correction to the system clock.
    ///
    /// `offset_ms` is how far this clock is behind the server. Whether to step
    /// or slew is the implementation's business; the library only measures.
    fn adjust_clock(
        &mut self,
        server: &ServerInfo<'_>,
        server_time: Timestamp,
        offset_ms: i64,
        leap_second: LeapSecond,
    )
        ensures
            old(self).host_step(
                Event::AdjustClock { server: server@, server_time, offset_ms, leap_second },
                &*final(self),
            ),
    ;

    /// Send a datagram. `Ok(0)` means nothing moved and a retry is reasonable.
    ///
    /// # Errors
    ///
    /// [`NetworkError`] if the transport failed. A partial send is reported as
    /// `Ok(n)`; the library treats it as a failure, because UDP has no such
    /// thing as a partial datagram.
    fn send_to(&mut self, address: u32, port: u16, buffer: &[u8]) -> (answer: Result<
        usize,
        NetworkError,
    >)
        ensures
            old(self).host_step(
                Event::Send { address, port, packet: buffer@, answer },
                &*final(self),
            ),
    ;

    /// Receive a datagram. `Ok(0)` means nothing was waiting.
    ///
    /// # Errors
    ///
    /// [`NetworkError`] if the transport failed.
    fn recv_from(&mut self, address: u32, port: u16, buffer: &mut [u8]) -> (answer: Result<
        usize,
        NetworkError,
    >)
        ensures
            final(buffer)@.len() == old(buffer)@.len(),
            old(self).host_step(
                Event::Receive {
                    address,
                    port,
                    before: old(buffer)@,
                    after: final(buffer)@,
                    answer,
                },
                &*final(self),
            ),
    ;
}

/// Why an authentication callback refused.
#[derive(Debug, Clone, Copy, PartialEq, Eq, Structural)]
pub enum AuthError {
    /// The mechanism itself failed.
    Failed,
    /// The server is not who it claims to be.
    ///
    /// Only [`Authenticator::validate_server_auth`] can answer this.
    ServerNotAuthenticated,
}

/// Symmetric-key or NTS-style authentication, if the deployment uses it.
///
/// Implement this to add a client authentication code to each request and to
/// check the server's. Most deployments do not, and use [`NoAuth`].
/// `auth_step` is to this trait what `host_step` is to [`SntpHost`].
pub trait Authenticator {
    /// Whether this is a real authenticator.
    ///
    /// On a Kiss-o'-Death the client clears its stored request timestamp
    /// **only** when authentication is configured: see
    /// [`crate::Client::receive_time_response`].
    const CONFIGURED: bool = true;

    /// May an authenticator in this state be left in state `next` by the call
    /// that `event` records? One that says nothing of itself may do anything.
    open spec fn auth_step(&self, event: Event, next: &Self) -> bool {
        true
    }

    /// Append a client authentication code after the 48-byte packet, and
    /// return its size in bytes.
    ///
    /// # Errors
    ///
    /// [`AuthError::Failed`] if the code could not be generated.
    fn generate_client_auth(
        &mut self,
        server: &ServerInfo<'_>,
        buffer: &mut [u8],
    ) -> (answer: Result<u16, AuthError>)
        ensures
            final(buffer)@.len() == old(buffer)@.len(),
            old(self).auth_step(
                Event::GenerateAuth {
                    server: server@,
                    before: old(buffer)@,
                    after: final(buffer)@,
                    answer,
                },
                &*final(self),
            ),
    ;

    /// Check the authentication data in a server's response.
    ///
    /// # Errors
    ///
    /// [`AuthError::ServerNotAuthenticated`] if the server failed the check,
    /// or [`AuthError::Failed`] if the mechanism itself failed.
    fn validate_server_auth(&mut self, server: &ServerInfo<'_>, packet: &[u8]) -> (answer: Result<
        (),
        AuthError,
    >)
        ensures
            old(self).auth_step(
                Event::ValidateAuth { server: server@, packet: packet@, answer },
                &*final(self),
            ),
    ;
}

/// No authentication, which is what most deployments use.
#[derive(Debug, Clone, Copy)]
pub struct NoAuth;

impl Default for NoAuth {
    fn default() -> (auth: Self)
        ensures
            auth == NoAuth,
    {
        NoAuth
    }
}

impl Authenticator for NoAuth {
    const CONFIGURED: bool = false;

    /// A code of no bytes, and a server that always passes.
    open spec fn auth_step(&self, event: Event, next: &Self) -> bool {
        match event {
            Event::GenerateAuth { server, before, after, answer } => after == before && answer
                == Ok::<u16, AuthError>(0),
            Event::ValidateAuth { server, packet, answer } => answer == Ok::<(), AuthError>(()),
            _ => false,
        }
    }

    fn generate_client_auth(&mut self, _server: &ServerInfo<'_>, _buffer: &mut [u8]) -> (answer:
        Result<u16, AuthError>) {
        Ok(0)
    }

    fn validate_server_auth(&mut self, _server: &ServerInfo<'_>, _packet: &[u8]) -> (answer: Result<
        (),
        AuthError,
    >) {
        Ok(())
    }
}

/// No authentication is not configured authentication.
pub proof fn no_auth_is_not_configured()
    ensures
        !NoAuth::CONFIGURED,
{
}

} // verus!

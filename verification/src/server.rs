//! The server: its configuration, and what it does with each request on a
//! connection.
//!
//! A connection takes one request at a time. It waits for a request, answers
//! it, and waits again, until the client leaves or something goes wrong. The
//! server decides each step; whoever owns the socket reads, writes and
//! closes as it is told.

use crate::device::XvcServer;
use crate::error::{ReadError, ReadErrorView, TransportError, TransportErrorKind};
use crate::info::encode_info;
use crate::protocol::{Message, MessageView, XvcInfo};
use crate::version::Version;
use crate::wire::{le_bytes, u32_to_le_bytes};
use std::time::Duration;
use vstd::prelude::*;

verus! {

/// The time span that `Duration::from_secs` of the standard library makes of
/// a number of seconds.
pub uninterp spec fn duration_from_secs(secs: u64) -> Duration;

/// Calls `Duration::from_secs` of the standard library.
#[verifier::external_body]
fn seconds(secs: u64) -> (span: Duration)
    ensures
        span == duration_from_secs(secs),
{
    Duration::from_secs(secs)
}

/// What a server is set up with. It does not change while the server lives.
#[derive(Debug)]
pub struct Config {
    /// The longest vector, in bytes, that is accepted in one shift.
    pub max_vector_size: u32,
    /// How long a read from a client, or a write to it, may take.
    pub read_write_timeout: Duration,
}

impl Clone for Config {
    /// A configuration that holds the same values.
    fn clone(&self) -> (copy: Config)
        ensures
            copy == *self,
    {
        Config {
            max_vector_size: self.max_vector_size,
            read_write_timeout: self.read_write_timeout,
        }
    }
}

impl Default for Config {
    /// Vectors of up to 10 MiB, which are 10485760 bytes, and a timeout of
    /// 30 seconds.
    fn default() -> (config: Config)
        ensures
            config.max_vector_size == 10485760,
            config.read_write_timeout == duration_from_secs(30),
    {
        Config { max_vector_size: 10 * 1024 * 1024, read_write_timeout: seconds(30) }
    }
}

/// A server: a backend and a configuration.
#[derive(Debug)]
pub struct Server<T: XvcServer> {
    server: T,
    config: Config,
}

/// Sets a configuration up step by step and makes a [`Server`] of it.
pub struct Builder {
    config: Config,
}

impl Default for Builder {
    /// A builder with the default configuration.
    fn default() -> (builder: Builder)
        ensures
            builder.spec_config().max_vector_size == 10485760,
            builder.spec_config().read_write_timeout == duration_from_secs(30),
    {
        Builder { config: Config::default() }
    }
}

impl Builder {
    /// The configuration as it stands, for contracts.
    pub closed spec fn spec_config(&self) -> Config {
        self.config
    }

    /// A builder with the default configuration.
    pub fn new() -> (builder: Builder)
        ensures
            builder.spec_config().max_vector_size == 10485760,
            builder.spec_config().read_write_timeout == duration_from_secs(30),
    {
        Builder::default()
    }

    /// Sets the longest vector, in bytes, that the server accepts in one
    /// shift.
    pub fn max_vector_size(self, size: u32) -> (builder: Builder)
        ensures
            builder.spec_config().max_vector_size == size,
            builder.spec_config().read_write_timeout == self.spec_config().read_write_timeout,
    {
        let mut builder = self;
        builder.config.max_vector_size = size;
        builder
    }

    /// Sets how long a read from a client, or a write to it, may take.
    pub fn rw_timeout(self, timeout: Duration) -> (builder: Builder)
        ensures
            builder.spec_config().read_write_timeout == timeout,
            builder.spec_config().max_vector_size == self.spec_config().max_vector_size,
    {
        let mut builder = self;
        builder.config.read_write_timeout = timeout;
        builder
    }

    /// The server that drives `server` under the configuration as it stands.
    pub fn build<T: XvcServer>(self, server: T) -> (built: Server<T>)
        ensures
            built.spec_config() == self.spec_config(),
            built.spec_backend() == server,
    {
        Server::new(server, self.config)
    }
}

/// Where a connection stands.
#[derive(Clone, Copy, Debug, PartialEq, Eq, Structural)]
pub enum ConnectionState {
    /// No client has connected yet.
    Idle,
    /// The next request of the client is waited for.
    AwaitingRequest,
    /// A request has been read, and its reply has not been written yet.
    Dispatching,
    /// The connection is over.
    Closed,
}

/// What the owner of the socket does next.
pub enum Action {
    /// Arm the read and the write timeout with this time span, then read a
    /// request.
    Arm(Duration),
    /// Read a request.
    Read,
    /// Write these bytes to the client.
    Write(Vec<u8>),
    /// Close the connection. An error is for the operator to see.
    Close(Result<(), ReadError>),
}

/// A step of a connection: where it stands now and what is to be done.
pub struct Transition {
    pub state: ConnectionState,
    pub action: Action,
}

/// A read that failed because the client was too slow or has left ends the
/// connection quietly. Every other failure is for the operator to see.
pub open spec fn ends_quietly(error: ReadErrorView) -> bool {
    error matches ReadErrorView::IoError { kind, .. } && (kind == TransportErrorKind::TimedOut
        || kind == TransportErrorKind::ConnectionAborted || kind
        == TransportErrorKind::ConnectionReset)
}

impl<T: XvcServer> Server<T> {
    /// The configuration, for contracts.
    pub closed spec fn spec_config(&self) -> Config {
        self.config
    }

    /// The backend, for contracts.
    pub closed spec fn spec_backend(&self) -> T {
        self.server
    }

    /// The server that drives `server` under `config`.
    pub fn new(server: T, config: Config) -> (built: Server<T>)
        ensures
            built.spec_config() == config,
            built.spec_backend() == server,
    {
        Server { server, config }
    }

    /// The configuration of the server.
    pub fn config(&self) -> (config: &Config)
        ensures
            *config == self.spec_config(),
    {
        &self.config
    }

    /// The capabilities that the server tells its clients of: version 1.0
    /// and the longest vector of its configuration.
    pub open spec fn spec_info(&self) -> XvcInfo {
        XvcInfo::spec_new(Version::spec_new(1, 0), self.spec_config().max_vector_size)
    }

    /// Whether `reply` may be the reply of the server to `message`.
    ///
    /// `getinfo` is answered from the configuration alone, with the info
    /// line. `settck` is answered with the period that the backend returned,
    /// as four little-endian bytes. `shift` is answered with the bytes that
    /// the backend returned, which are as many as the TMS vector holds, or
    /// none where the shift failed.
    pub open spec fn replies(&self, message: MessageView, reply: Seq<u8>) -> bool {
        match message {
            MessageView::GetInfo => reply == encode_info(self.spec_info()),
            MessageView::SetTck { period_ns } => exists|actual: u32|
                #![trigger le_bytes(actual)]
                self.spec_backend().may_set_tck(period_ns, actual) && reply == le_bytes(actual),
            MessageView::Shift { num_bits, tms, tdi } => {
                &&& self.spec_backend().may_shift(num_bits, tms, tdi, reply)
                &&& (reply.len() == 0 || reply.len() == tms.len())
            },
        }
    }

    /// Carries a request out and returns the bytes of its reply.
    pub fn process_message(&self, message: Message) -> (reply: Vec<u8>)
        ensures
            self.replies(message@, reply@),
    {
        match message {
            Message::GetInfo => info_reply(self.config.max_vector_size),
            Message::SetTck { period_ns } => {
                let actual = self.server.set_tck(period_ns);
                tck_reply(actual)
            },
            Message::Shift { num_bits, tms, tdi } => {
                let tdo = self.server.shift(num_bits, tms, tdi);
                shift_reply(tdo)
            },
        }
    }

    /// A client has connected: the timeouts are armed from the configuration
    /// and its first request is waited for.
    pub fn on_accept(&self) -> (next: Transition)
        ensures
            next.state == ConnectionState::AwaitingRequest,
            next.action == Action::Arm(self.spec_config().read_write_timeout),
    {
        Transition {
            state: ConnectionState::AwaitingRequest,
            action: Action::Arm(self.config.read_write_timeout),
        }
    }

    /// The read of a request has ended, with the request or with an error.
    ///
    /// A request is carried out, and its reply is to be written. An error
    /// closes the connection: quietly where the client was too slow or has
    /// left, and with the error otherwise.
    pub fn on_request(&self, read: Result<Message, ReadError>) -> (next: Transition)
        ensures
            match read {
                Ok(message) => {
                    &&& next.state == ConnectionState::Dispatching
                    &&& next.action matches Action::Write(reply)
                    &&& self.replies(message@, reply@)
                },
                Err(error) => {
                    &&& next.state == ConnectionState::Closed
                    &&& if ends_quietly(error@) {
                        next.action == Action::Close(Ok(()))
                    } else {
                        next.action matches Action::Close(Err(shown)) && shown@ == error@
                    }
                },
            },
    {
        match read {
            Ok(message) => Transition {
                state: ConnectionState::Dispatching,
                action: Action::Write(self.process_message(message)),
            },
            Err(error) => {
                let quiet: bool = match &error {
                    ReadError::IoError(failure) => match failure.kind {
                        TransportErrorKind::TimedOut => true,
                        TransportErrorKind::ConnectionAborted => true,
                        TransportErrorKind::ConnectionReset => true,
                        _ => false,
                    },
                    _ => false,
                };
                if quiet {
                    Transition { state: ConnectionState::Closed, action: Action::Close(Ok(())) }
                } else {
                    Transition {
                        state: ConnectionState::Closed,
                        action: Action::Close(Err(error)),
                    }
                }
            },
        }
    }

    /// The write of a reply has ended.
    ///
    /// After a reply that was written the next request is waited for. A write
    /// that failed closes the connection with the error of the transport.
    pub fn on_reply_written(&self, written: Result<(), TransportError>) -> (next: Transition)
        ensures
            match written {
                Ok(_) => {
                    &&& next.state == ConnectionState::AwaitingRequest
                    &&& next.action == Action::Read
                },
                Err(failure) => {
                    &&& next.state == ConnectionState::Closed
                    &&& next.action matches Action::Close(Err(shown))
                    &&& shown@ == ReadError::IoError(failure)@
                },
            },
    {
        match written {
            Ok(_) => Transition { state: ConnectionState::AwaitingRequest, action: Action::Read },
            Err(failure) => Transition {
                state: ConnectionState::Closed,
                action: Action::Close(Err(ReadError::IoError(failure))),
            },
        }
    }
}

/// The reply to `getinfo` of a server that accepts vectors of up to
/// `max_vector_size` bytes: its info line.
pub fn info_reply(max_vector_size: u32) -> (reply: Vec<u8>)
    ensures
        reply@ == encode_info(XvcInfo::spec_new(Version::spec_new(1, 0), max_vector_size)),
{
    let info = XvcInfo::new(Version::v1_0(), max_vector_size);
    let mut reply: Vec<u8> = Vec::new();
    info.write_to(&mut reply);
    assert(reply@ =~= encode_info(info));
    reply
}

/// The reply to `settck` where the backend returned the period `actual`: its
/// four bytes, the least significant first.
pub fn tck_reply(actual: u32) -> (reply: Vec<u8>)
    ensures
        reply@ == le_bytes(actual),
{
    let bytes = u32_to_le_bytes(actual);
    let mut reply: Vec<u8> = Vec::new();
    reply.extend_from_slice(bytes.as_slice());
    assert(reply@ =~= le_bytes(actual));
    reply
}

/// The reply to `shift` where the backend returned `tdo`: those bytes.
pub fn shift_reply(tdo: Box<[u8]>) -> (reply: Vec<u8>)
    ensures
        reply@ == tdo@,
{
    tdo.into_vec()
}

} // verus!

use std::cell::RefCell;
use std::time::Duration;
use xvc_core::client::{reply_len, shift_request, tck_of_reply, ReplyLen};
use xvc_core::error::{ReadError, TransportError, TransportErrorKind};
use xvc_core::server::{
    info_reply, shift_reply, tck_reply, Action, Builder, Config, ConnectionState, Server,
};
use xvc_core::stream::Cursor;
use xvc_core::{Message, Version, XvcInfo, XvcServer};

/// A device that answers every period with 20 and every shift with its TDI
/// vector.
struct MockDevice;

impl XvcServer for MockDevice {
    fn set_tck(&self, _period_ns: u32) -> u32 {
        20
    }

    fn shift(&self, _num_bits: u32, _tms: Box<[u8]>, tdi: Box<[u8]>) -> Box<[u8]> {
        tdi
    }
}

/// A device that fails every shift and notes what it was asked for.
struct FailingDevice {
    seen: RefCell<Vec<(u32, Vec<u8>, Vec<u8>)>>,
    periods: RefCell<Vec<u32>>,
}

impl XvcServer for FailingDevice {
    fn set_tck(&self, period_ns: u32) -> u32 {
        self.periods.borrow_mut().push(period_ns);
        period_ns
    }

    fn shift(&self, num_bits: u32, tms: Box<[u8]>, tdi: Box<[u8]>) -> Box<[u8]> {
        self.seen
            .borrow_mut()
            .push((num_bits, tms.into_vec(), tdi.into_vec()));
        Vec::new().into_boxed_slice()
    }
}

fn transport(kind: TransportErrorKind) -> ReadError {
    ReadError::IoError(TransportError {
        kind,
        message: "transport".to_string(),
    })
}

#[test]
fn default_config() {
    let config = Config::default();
    assert_eq!(config.max_vector_size, 10 * 1024 * 1024);
    assert_eq!(config.read_write_timeout, Duration::from_secs(30));
    let copy = config.clone();
    assert_eq!(copy.max_vector_size, config.max_vector_size);
    assert_eq!(copy.read_write_timeout, config.read_write_timeout);
}

#[test]
fn builder_sets_the_configuration() {
    let server = Builder::new().build(MockDevice);
    assert_eq!(server.config().max_vector_size, 10 * 1024 * 1024);
    assert_eq!(server.config().read_write_timeout, Duration::from_secs(30));

    let server = Builder::new()
        .max_vector_size(1024)
        .rw_timeout(Duration::from_secs(20))
        .build(MockDevice);
    assert_eq!(server.config().max_vector_size, 1024);
    assert_eq!(server.config().read_write_timeout, Duration::from_secs(20));

    let server = Builder::default()
        .rw_timeout(Duration::from_millis(5))
        .max_vector_size(7)
        .max_vector_size(8)
        .build(MockDevice);
    assert_eq!(server.config().max_vector_size, 8);
    assert_eq!(server.config().read_write_timeout, Duration::from_millis(5));
}

#[test]
fn server_keeps_its_configuration() {
    let config = Config {
        max_vector_size: 64,
        read_write_timeout: Duration::from_secs(1),
    };
    let server = Server::new(MockDevice, config);
    assert_eq!(server.config().max_vector_size, 64);
    assert_eq!(server.config().read_write_timeout, Duration::from_secs(1));
}

#[test]
fn end_to_end() {
    let server = Builder::new().max_vector_size(32).build(MockDevice);

    let mut request = Vec::new();
    Message::GetInfo.write_to(&mut request);
    assert_eq!(request, b"getinfo:".to_vec());
    let message = Message::from_reader(&mut Cursor::new(request), 32).unwrap();
    assert_eq!(reply_len(&message), ReplyLen::Line);
    let reply = server.process_message(message);
    assert_eq!(reply, b"xvcServer_v1.0:32\n".to_vec());
    let info = XvcInfo::from_reader(&mut Cursor::new(reply)).unwrap();
    assert_eq!(info, XvcInfo::new(Version::v1_0(), 32));

    let mut request = Vec::new();
    Message::SetTck { period_ns: 10 }.write_to(&mut request);
    let message = Message::from_reader(&mut Cursor::new(request), 32).unwrap();
    assert_eq!(reply_len(&message), ReplyLen::Exact(4));
    let reply = server.process_message(message);
    assert_eq!(reply, vec![20, 0, 0, 0]);
    assert_eq!(tck_of_reply([reply[0], reply[1], reply[2], reply[3]]), 20);

    let mut request = Vec::new();
    shift_request(8, &[0x00], &[0xA5]).write_to(&mut request);
    let message = Message::from_reader(&mut Cursor::new(request), 32).unwrap();
    assert_eq!(reply_len(&message), ReplyLen::Exact(1));
    let reply = server.process_message(message);
    assert_eq!(reply, vec![0xA5]);
}

#[test]
fn requests_reach_the_device_unchanged() {
    let device = FailingDevice {
        seen: RefCell::new(Vec::new()),
        periods: RefCell::new(Vec::new()),
    };
    let server = Builder::new().build(device);
    let reply = server.process_message(Message::SetTck { period_ns: 1234 });
    assert_eq!(reply, 1234u32.to_le_bytes().to_vec());
    let reply = server.process_message(shift_request(13, &[1, 2], &[3, 4]));
    assert_eq!(reply, Vec::<u8>::new());
    let reply = server.process_message(Message::GetInfo);
    assert_eq!(reply, b"xvcServer_v1.0:10485760\n".to_vec());
    let next = server.on_request(Ok(Message::SetTck { period_ns: 5 }));
    assert_eq!(next.state, ConnectionState::Dispatching);
    drop(next);
    let next = server.on_accept();
    assert_eq!(next.state, ConnectionState::AwaitingRequest);
}

#[test]
fn connection_starts_by_arming_the_timeouts() {
    let server = Builder::new()
        .rw_timeout(Duration::from_secs(3))
        .build(MockDevice);
    let next = server.on_accept();
    assert_eq!(next.state, ConnectionState::AwaitingRequest);
    match next.action {
        Action::Arm(timeout) => assert_eq!(timeout, Duration::from_secs(3)),
        _ => panic!("expected the timeouts to be armed"),
    }
}

#[test]
fn request_is_answered_before_the_next_is_read() {
    let server = Builder::new().max_vector_size(32).build(MockDevice);
    let next = server.on_request(Ok(Message::GetInfo));
    assert_eq!(next.state, ConnectionState::Dispatching);
    match next.action {
        Action::Write(reply) => assert_eq!(reply, b"xvcServer_v1.0:32\n".to_vec()),
        _ => panic!("expected a reply"),
    }
    let next = server.on_reply_written(Ok(()));
    assert_eq!(next.state, ConnectionState::AwaitingRequest);
    assert!(matches!(next.action, Action::Read));
}

#[test]
fn slow_or_gone_client_closes_quietly() {
    let server = Builder::new().build(MockDevice);
    for kind in [
        TransportErrorKind::TimedOut,
        TransportErrorKind::ConnectionAborted,
        TransportErrorKind::ConnectionReset,
    ] {
        let next = server.on_request(Err(transport(kind)));
        assert_eq!(next.state, ConnectionState::Closed);
        assert!(matches!(next.action, Action::Close(Ok(()))));
    }
}

#[test]
fn other_errors_close_with_the_error() {
    let server = Builder::new().build(MockDevice);
    for kind in [TransportErrorKind::UnexpectedEof, TransportErrorKind::Other] {
        let next = server.on_request(Err(transport(kind)));
        assert_eq!(next.state, ConnectionState::Closed);
        match next.action {
            Action::Close(Err(ReadError::IoError(failure))) => assert_eq!(failure.kind, kind),
            _ => panic!("expected the error"),
        }
    }
    let next = server.on_request(Err(ReadError::InvalidCommandPrefix("xx".to_string())));
    assert_eq!(next.state, ConnectionState::Closed);
    match next.action {
        Action::Close(Err(ReadError::InvalidCommandPrefix(prefix))) => assert_eq!(prefix, "xx"),
        _ => panic!("expected the error"),
    }
    let next = server.on_request(Err(ReadError::TooManyBytes { max: 1, got: 2 }));
    assert_eq!(next.state, ConnectionState::Closed);
    assert!(matches!(
        next.action,
        Action::Close(Err(ReadError::TooManyBytes { max: 1, got: 2 }))
    ));
    let read = Message::from_reader(&mut Cursor::new(b"gexinfo:".to_vec()), 32);
    let next = server.on_request(read);
    assert_eq!(next.state, ConnectionState::Closed);
    assert!(matches!(
        next.action,
        Action::Close(Err(ReadError::InvalidCommand(_)))
    ));
}

#[test]
fn failed_write_closes_with_the_error() {
    let server = Builder::new().build(MockDevice);
    for kind in [TransportErrorKind::TimedOut, TransportErrorKind::Other] {
        let next = server.on_reply_written(Err(TransportError {
            kind,
            message: "write failed".to_string(),
        }));
        assert_eq!(next.state, ConnectionState::Closed);
        match next.action {
            Action::Close(Err(ReadError::IoError(failure))) => {
                assert_eq!(failure.kind, kind);
                assert_eq!(failure.message, "write failed");
            }
            _ => panic!("expected the error"),
        }
    }
}

#[test]
fn replies_byte_by_byte() {
    assert_eq!(info_reply(32), b"xvcServer_v1.0:32\n".to_vec());
    assert_eq!(info_reply(0), b"xvcServer_v1.0:0\n".to_vec());
    assert_eq!(tck_reply(20), vec![20, 0, 0, 0]);
    assert_eq!(tck_reply(0x0102_0304), vec![4, 3, 2, 1]);
    assert_eq!(shift_reply(vec![0xA5, 0x5A].into_boxed_slice()), vec![0xA5, 0x5A]);
    assert_eq!(shift_reply(Vec::new().into_boxed_slice()), Vec::<u8>::new());
}

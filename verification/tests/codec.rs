use xvc_core::error::ReadError;
use xvc_core::stream::Cursor;
use xvc_core::{Message, Version, XvcInfo};

const DEFAULT_MAX_SHIFT_BYTES: usize = 1024;

#[test]
fn write_server_info() {
    let mut out = Vec::new();
    XvcInfo::default().write_to(&mut out);
    assert_eq!(out, b"xvcServer_v1.0:10485760\n".to_vec());
}

#[test]
fn read_server_info() {
    let data = b"xvcServer_v1.0:32\n";
    let mut cursor = Cursor::new(data.to_vec());
    let info = XvcInfo::from_reader(&mut cursor).unwrap();
    assert_eq!(info.version(), Version::v1_0());
    assert_eq!(info.max_vector_len(), 32)
}

#[test]
fn read_getinfo() {
    let data = b"getinfo:".to_vec();
    let mut cursor = Cursor::new(data);
    match Message::from_reader(&mut cursor, DEFAULT_MAX_SHIFT_BYTES).unwrap() {
        Message::GetInfo => {}
        _ => panic!("expected GetInfo"),
    }
}

#[test]
fn write_getinfo() {
    let mut out = Vec::new();
    Message::GetInfo.write_to(&mut out);
    assert_eq!(out, b"getinfo:".to_vec());
}

#[test]
fn read_settck() {
    let period: u32 = 0x1234_5678;
    let mut data = b"settck:".to_vec();
    data.extend_from_slice(&period.to_le_bytes());
    let mut cursor = Cursor::new(data);
    match Message::from_reader(&mut cursor, DEFAULT_MAX_SHIFT_BYTES).unwrap() {
        Message::SetTck {
            period_ns: period_in_ns,
        } => assert_eq!(period_in_ns, period),
        _ => panic!("expected SetTck"),
    }
}

#[test]
fn write_settck() {
    let period: u32 = 0x1234_5678;
    let mut out = Vec::new();
    Message::SetTck { period_ns: period }.write_to(&mut out);
    let mut expected = b"settck:".to_vec();
    expected.extend_from_slice(&period.to_le_bytes());
    assert_eq!(out, expected);
}

#[test]
fn read_shift() {
    let num_bits: u32 = 13; // 2 bytes
    let num_bytes = ((num_bits + 7) / 8) as usize;
    let tms = vec![0xAAu8; num_bytes];
    let tdi = vec![0x55u8; num_bytes];

    let mut data = b"shift:".to_vec();
    data.extend_from_slice(&num_bits.to_le_bytes());
    data.extend_from_slice(&tms);
    data.extend_from_slice(&tdi);

    let mut cursor = Cursor::new(data);
    match Message::from_reader(&mut cursor, DEFAULT_MAX_SHIFT_BYTES).unwrap() {
        Message::Shift {
            num_bits: nb,
            tms: tms_vector,
            tdi: tdi_vector,
        } => {
            assert_eq!(nb, num_bits);
            assert_eq!(&*tms_vector, &tms[..]);
            assert_eq!(&*tdi_vector, &tdi[..]);
        }
        _ => panic!("expected Shift"),
    }
}

#[test]
fn write_shift() {
    let num_bits: u32 = 13; // 2 bytes
    let num_bytes = ((num_bits + 7) / 8) as usize;
    let tms = vec![0xAAu8; num_bytes].into_boxed_slice();
    let tdi = vec![0x55u8; num_bytes].into_boxed_slice();

    let cmd = Message::Shift {
        num_bits,
        tms: tms.clone(),
        tdi: tdi.clone(),
    };
    let mut out = Vec::new();
    cmd.write_to(&mut out);

    let mut expected = b"shift:".to_vec();
    expected.extend_from_slice(&num_bits.to_le_bytes());
    expected.extend_from_slice(&*tms);
    expected.extend_from_slice(&*tdi);

    assert_eq!(out, expected);
}

#[test]
fn invalid_prefix() {
    let data = b"xx".to_vec();
    let mut cursor = Cursor::new(data);
    match Message::from_reader(&mut cursor, DEFAULT_MAX_SHIFT_BYTES) {
        Err(ReadError::InvalidCommandPrefix(p)) => assert_eq!(p, "xx"),
        other => panic!("expected InvalidCommandPrefix, got {:?}", other),
    }
}

#[test]
fn too_many_bytes_shift() {
    // force number of bytes to exceed MAX_SHIFT_BYTES
    let num_bytes_exceed = 1024 + 1;
    let num_bits = (num_bytes_exceed * 8) as u32;
    let mut data = b"shift:".to_vec();
    data.extend_from_slice(&num_bits.to_le_bytes());
    let mut cursor = Cursor::new(data);
    match Message::from_reader(&mut cursor, 1024) {
        Err(ReadError::TooManyBytes { max, got }) => {
            assert_eq!(max, 1024);
            assert_eq!(got, num_bytes_exceed);
        }
        other => panic!("expected TooManyBytes, got {:?}", other),
    }
}

fn encoded(message: &Message) -> Vec<u8> {
    let mut out = Vec::new();
    message.write_to(&mut out);
    out
}

fn samples() -> Vec<Message> {
    vec![
        Message::GetInfo,
        Message::SetTck { period_ns: 0 },
        Message::SetTck { period_ns: 10 },
        Message::SetTck { period_ns: u32::MAX },
        Message::Shift {
            num_bits: 0,
            tms: Vec::new().into_boxed_slice(),
            tdi: Vec::new().into_boxed_slice(),
        },
        Message::Shift {
            num_bits: 1,
            tms: vec![1].into_boxed_slice(),
            tdi: vec![0].into_boxed_slice(),
        },
        Message::Shift {
            num_bits: 8,
            tms: vec![0x00].into_boxed_slice(),
            tdi: vec![0xA5].into_boxed_slice(),
        },
        Message::Shift {
            num_bits: 33,
            tms: vec![1, 2, 3, 4, 5].into_boxed_slice(),
            tdi: vec![6, 7, 8, 9, 10].into_boxed_slice(),
        },
        Message::Shift {
            num_bits: 8000,
            tms: vec![0x5A; 1000].into_boxed_slice(),
            tdi: vec![0xC3; 1000].into_boxed_slice(),
        },
    ]
}

#[test]
fn exact_bytes_on_the_wire() {
    assert_eq!(
        encoded(&Message::SetTck { period_ns: 10 }),
        b"settck:\x0a\x00\x00\x00".to_vec()
    );
    assert_eq!(
        encoded(&Message::Shift {
            num_bits: 4,
            tms: vec![0xAA, 0xAA].into_boxed_slice(),
            tdi: vec![0x55, 0x55].into_boxed_slice(),
        }),
        b"shift:\x04\x00\x00\x00\xAA\xAA\x55\x55".to_vec()
    );
    assert_eq!(
        encoded(&Message::Shift {
            num_bits: 0x0102_0304,
            tms: Vec::new().into_boxed_slice(),
            tdi: Vec::new().into_boxed_slice(),
        }),
        b"shift:\x04\x03\x02\x01".to_vec()
    );
}

#[test]
fn writing_appends() {
    let mut out = b"xy".to_vec();
    Message::GetInfo.write_to(&mut out);
    Message::SetTck { period_ns: 1 }.write_to(&mut out);
    assert_eq!(out, b"xygetinfo:settck:\x01\x00\x00\x00".to_vec());
}

#[test]
fn round_trip() {
    for message in samples() {
        let bytes = encoded(&message);
        let mut cursor = Cursor::new(bytes.clone());
        let read = Message::from_reader(&mut cursor, DEFAULT_MAX_SHIFT_BYTES).unwrap();
        assert_eq!(read, message);
        assert_eq!(cursor.position(), bytes.len());
        assert_eq!(read.clone(), message);
    }
}

#[test]
fn requests_are_read_one_after_the_other() {
    let mut stream = Vec::new();
    for message in samples() {
        message.write_to(&mut stream);
    }
    let mut cursor = Cursor::new(stream);
    for message in samples() {
        let read = Message::from_reader(&mut cursor, DEFAULT_MAX_SHIFT_BYTES).unwrap();
        assert_eq!(read, message);
    }
    match Message::from_reader(&mut cursor, DEFAULT_MAX_SHIFT_BYTES) {
        Err(ReadError::IoError(failure)) => {
            assert_eq!(failure.kind, xvc_core::error::TransportErrorKind::UnexpectedEof)
        }
        other => panic!("expected the end of the stream, got {:?}", other),
    }
}

#[test]
fn truncated_stream_fails_with_transport_error() {
    for message in samples() {
        let bytes = encoded(&message);
        for k in 0..bytes.len() {
            let mut cursor = Cursor::new(bytes[..k].to_vec());
            match Message::from_reader(&mut cursor, DEFAULT_MAX_SHIFT_BYTES) {
                Err(ReadError::IoError(failure)) => {
                    assert_eq!(
                        failure.kind,
                        xvc_core::error::TransportErrorKind::UnexpectedEof
                    );
                    assert_eq!(failure.message, "failed to fill whole buffer");
                }
                other => panic!("expected a transport error at {}, got {:?}", k, other),
            }
            assert_eq!(cursor.position(), k);
        }
    }
}

#[test]
fn shift_at_the_limit_is_accepted() {
    let message = Message::Shift {
        num_bits: 16,
        tms: vec![1, 2].into_boxed_slice(),
        tdi: vec![3, 4].into_boxed_slice(),
    };
    let bytes = encoded(&message);
    assert_eq!(
        Message::from_reader(&mut Cursor::new(bytes.clone()), 2).unwrap(),
        message
    );
    match Message::from_reader(&mut Cursor::new(bytes), 1) {
        Err(ReadError::TooManyBytes { max, got }) => {
            assert_eq!(max, 1);
            assert_eq!(got, 2);
        }
        other => panic!("expected TooManyBytes, got {:?}", other),
    }
}

#[test]
fn oversized_shift_is_refused_on_its_header() {
    for (num_bits, max, got) in [
        (1u32, 0usize, 1usize),
        (9, 1, 2),
        (8193, 1024, 1025),
        (u32::MAX, 10485760, 536870912),
    ] {
        let mut data = b"shift:".to_vec();
        data.extend_from_slice(&num_bits.to_le_bytes());
        let mut cursor = Cursor::new(data.clone());
        match Message::from_reader(&mut cursor, max) {
            Err(ReadError::TooManyBytes { max: m, got: g }) => {
                assert_eq!(m, max);
                assert_eq!(g, got);
            }
            other => panic!("expected TooManyBytes, got {:?}", other),
        }
        assert_eq!(cursor.position(), 10);
        match Message::bytes_needed(&data, max) {
            Err(ReadError::TooManyBytes { max: m, got: g }) => {
                assert_eq!(m, max);
                assert_eq!(g, got);
            }
            other => panic!("expected TooManyBytes, got {:?}", other),
        }
    }
}

#[test]
fn wrong_command_names_are_refused() {
    for (data, shown) in [
        (&b"gexinfo:"[..], "gexinfo:\0\0\0\0\0\0\0\0"),
        (&b"getinfo;"[..], "getinfo;\0\0\0\0\0\0\0\0"),
        (&b"settcK:\x01\x02\x03\x04"[..], "settcK:\x01\x02\x03\x04\0\0\0\0\0"),
        (&b"settck;\x01\x02\x03\x04"[..], "settck;\x01\x02\x03\x04\0\0\0\0\0"),
        (&b"shirt:\x01\x00\x00\x00"[..], "shirt:\x01\0\0\0\0\0\0\0\0\0"),
        (&b"shift \x01\x00\x00\x00"[..], "shift \x01\0\0\0\0\0\0\0\0\0"),
    ] {
        let mut cursor = Cursor::new(data.to_vec());
        match Message::from_reader(&mut cursor, DEFAULT_MAX_SHIFT_BYTES) {
            Err(ReadError::InvalidCommand(text)) => assert_eq!(text, shown),
            other => panic!("expected InvalidCommand, got {:?}", other),
        }
        assert_eq!(cursor.position(), data.len());
        match Message::bytes_needed(data, DEFAULT_MAX_SHIFT_BYTES) {
            Err(ReadError::InvalidCommand(text)) => assert_eq!(text, shown),
            other => panic!("expected InvalidCommand, got {:?}", other),
        }
    }
}

#[test]
fn unknown_prefixes_are_refused() {
    for (data, shown) in [
        (&b"xx"[..], "xx"),
        (&b"gE"[..], "gE"),
        (&b"es"[..], "es"),
        (&b"\xff\xfe"[..], "\u{fffd}\u{fffd}"),
        (&b"\x00\x00more"[..], "\0\0"),
    ] {
        let mut cursor = Cursor::new(data.to_vec());
        match Message::from_reader(&mut cursor, DEFAULT_MAX_SHIFT_BYTES) {
            Err(ReadError::InvalidCommandPrefix(text)) => assert_eq!(text, shown),
            other => panic!("expected InvalidCommandPrefix, got {:?}", other),
        }
        assert_eq!(cursor.position(), 2);
        match Message::bytes_needed(data, DEFAULT_MAX_SHIFT_BYTES) {
            Err(ReadError::InvalidCommandPrefix(text)) => assert_eq!(text, shown),
            other => panic!("expected InvalidCommandPrefix, got {:?}", other),
        }
    }
}

#[test]
fn bytes_needed_asks_piece_by_piece() {
    let needed = |bytes: &[u8]| Message::bytes_needed(bytes, DEFAULT_MAX_SHIFT_BYTES).unwrap();
    assert_eq!(needed(b""), 2);
    assert_eq!(needed(b"g"), 1);
    assert_eq!(needed(b"ge"), 6);
    assert_eq!(needed(b"getin"), 3);
    assert_eq!(needed(b"getinfo:"), 0);
    assert_eq!(needed(b"getinfo:more"), 0);
    assert_eq!(needed(b"se"), 9);
    assert_eq!(needed(b"settck:\x01\x02\x03"), 1);
    assert_eq!(needed(b"settck:\x01\x02\x03\x04"), 0);
    assert_eq!(needed(b"sh"), 8);
    assert_eq!(needed(b"shift:\x0d\x00\x00\x00"), 4);
    assert_eq!(needed(b"shift:\x0d\x00\x00\x00\xaa"), 3);
    assert_eq!(needed(b"shift:\x0d\x00\x00\x00\xaa\xaa\x55\x55"), 0);
    assert_eq!(needed(b"shift:\x00\x00\x00\x00"), 0);
    assert_eq!(needed(b"shift:\x00\x20\x00\x00"), 2048);
}

#[test]
fn reading_what_is_needed_gives_the_request() {
    for message in samples() {
        let stream = encoded(&message);
        let mut taken = 0;
        let mut buffer = Vec::new();
        let mut rounds = 0;
        loop {
            let needed = Message::bytes_needed(&buffer, DEFAULT_MAX_SHIFT_BYTES).unwrap();
            if needed == 0 {
                break;
            }
            buffer.extend_from_slice(&stream[taken..taken + needed]);
            taken += needed;
            rounds += 1;
        }
        assert!(rounds <= 3);
        assert_eq!(buffer, stream);
        let read = Message::from_reader(&mut Cursor::new(buffer), DEFAULT_MAX_SHIFT_BYTES);
        assert_eq!(read.unwrap(), message);
    }
}

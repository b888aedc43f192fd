use xvc_core::error::{ReadError, TransportErrorKind};
use xvc_core::stream::Cursor;

#[test]
fn cursor_reads_from_the_front() {
    let mut cursor = Cursor::new(vec![1, 2, 3, 4, 5]);
    assert_eq!(cursor.position(), 0);
    assert_eq!(cursor.read_exact(0).unwrap(), Vec::<u8>::new());
    assert_eq!(cursor.read_exact(2).unwrap(), vec![1, 2]);
    assert_eq!(cursor.position(), 2);
    assert_eq!(cursor.read_exact(3).unwrap(), vec![3, 4, 5]);
    assert_eq!(cursor.position(), 5);
    assert_eq!(cursor.read_exact(0).unwrap(), Vec::<u8>::new());
}

#[test]
fn short_read_fails_and_uses_the_stream_up() {
    let mut cursor = Cursor::new(vec![1, 2, 3]);
    assert_eq!(cursor.read_exact(1).unwrap(), vec![1]);
    match cursor.read_exact(3) {
        Err(ReadError::IoError(failure)) => {
            assert_eq!(failure.kind, TransportErrorKind::UnexpectedEof);
            assert_eq!(failure.message, "failed to fill whole buffer");
        }
        other => panic!("expected a transport error, got {:?}", other),
    }
    assert_eq!(cursor.position(), 3);
    assert!(cursor.read_exact(1).is_err());
    assert!(cursor.read_exact(usize::MAX).is_err());
}

#[test]
fn lines_end_with_the_line_feed() {
    let mut cursor = Cursor::new(b"one\ntwo\n\nlast".to_vec());
    assert_eq!(cursor.read_line(), b"one\n".to_vec());
    assert_eq!(cursor.position(), 4);
    assert_eq!(cursor.read_line(), b"two\n".to_vec());
    assert_eq!(cursor.read_line(), b"\n".to_vec());
    assert_eq!(cursor.read_line(), b"last".to_vec());
    assert_eq!(cursor.position(), 13);
    assert_eq!(cursor.read_line(), Vec::<u8>::new());
    assert_eq!(cursor.position(), 13);
}

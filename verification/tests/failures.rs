use std::io;
use zmanager_core::failure::{IoFailure, IoKind, own_failure, unfilled_buffer};

#[test]
fn an_error_keeps_its_kind_and_its_text() {
    for (kind, own) in [
        (io::ErrorKind::NotFound, IoKind::NotFound),
        (io::ErrorKind::PermissionDenied, IoKind::PermissionDenied),
        (io::ErrorKind::AlreadyExists, IoKind::AlreadyExists),
        (io::ErrorKind::IsADirectory, IoKind::IsADirectory),
        (io::ErrorKind::InvalidInput, IoKind::InvalidInput),
        (io::ErrorKind::InvalidData, IoKind::InvalidData),
        (io::ErrorKind::UnexpectedEof, IoKind::UnexpectedEof),
        (io::ErrorKind::WriteZero, IoKind::WriteZero),
        (io::ErrorKind::Interrupted, IoKind::Interrupted),
        (io::ErrorKind::Unsupported, IoKind::Unsupported),
        (io::ErrorKind::TimedOut, IoKind::Other),
    ] {
        let failure = own_failure(&io::Error::new(kind, "it failed"));
        assert_eq!(failure, IoFailure::new(own, "it failed"));
        assert_eq!(failure.copy(), failure);
    }
    let mut buffer = [0; 4];
    let error = io::Read::read_exact(&mut &b"ab"[..], &mut buffer).unwrap_err();
    assert_eq!(own_failure(&error), unfilled_buffer());
}

use std::io;
use y4m::{Error, ParseError};

#[test]
fn parse_errors_have_their_messages() {
    assert_eq!(ParseError::InvalidY4M.to_string(), "Error parsing y4m header");
    assert_eq!(ParseError::Int.to_string(), "Error parsing Int");
    assert_eq!(ParseError::Utf8.to_string(), "Error parsing UTF8");
    assert_eq!(ParseError::General.to_string(), "General parsing error");
}

#[test]
fn errors_have_their_messages() {
    assert_eq!(Error::EOF.to_string(), "End of file");
    assert_eq!(Error::BadInput.to_string(), "Bad input parameters provided");
    assert_eq!(Error::UnknownColorspace.to_string(), "Bad input parameters provided");
    assert_eq!(Error::OutOfMemory.to_string(), "Out of memory (limits exceeded)");
    assert_eq!(Error::ParseError(ParseError::Int).to_string(), "Error parsing Int");
    assert_eq!(Error::ParseError(ParseError::General).to_string(), "General parsing error");
}

#[test]
fn transport_errors_show_the_transport_s_text() {
    let err = io::Error::new(io::ErrorKind::Other, "disk on fire");
    assert_eq!(Error::IoError(err).to_string(), "disk on fire");
}

#[test]
fn an_early_end_of_the_transport_is_eof() {
    let err = io::Error::new(io::ErrorKind::UnexpectedEof, "short read");
    assert!(matches!(Error::from(err), Error::EOF));
    let err = io::Error::from(io::ErrorKind::UnexpectedEof);
    assert!(matches!(Error::from(err), Error::EOF));
}

#[test]
fn other_transport_errors_are_passed_through() {
    for kind in [io::ErrorKind::Other, io::ErrorKind::BrokenPipe, io::ErrorKind::WriteZero, io::ErrorKind::Interrupted, io::ErrorKind::NotFound] {
        let err = io::Error::new(kind, "boom");
        match Error::from(err) {
            Error::IoError(inner) => {
                assert_eq!(inner.kind(), kind);
                assert_eq!(inner.to_string(), "boom");
            }
            other => panic!("{:?}", other),
        }
    }
}

#[test]
fn from_transport_goes_by_what_it_is_told() {
    let err = io::Error::new(io::ErrorKind::Other, "boom");
    assert!(matches!(Error::from_transport(err, true), Error::EOF));
    let err = io::Error::new(io::ErrorKind::UnexpectedEof, "boom");
    assert!(matches!(Error::from_transport(err, false), Error::IoError(_)));
}

#[test]
fn parse_errors_are_told_apart() {
    assert_eq!(ParseError::Int, ParseError::Int);
    assert_ne!(ParseError::Int, ParseError::Utf8);
    assert_ne!(ParseError::General, ParseError::InvalidY4M);
}

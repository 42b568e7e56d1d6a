//! The error taxonomy shared by decoding and encoding.

use vstd::prelude::*;
use vstd::std_specs::convert::FromSpecImpl;

verus! {

/// `std::io::Error`, the transport's error type. It is carried through as
/// it is: nothing inside it is visible to proofs.
#[verifier::external_type_specification]
#[verifier::external_body]
pub struct ExIoError(std::io::Error);

/// Whether the kind of a transport error, as `std::io::Error::kind` gives
/// it, is `ErrorKind::UnexpectedEof`. The kind is fixed when the error is
/// made, so this is a function of the error alone.
pub uninterp spec fn kind_is_unexpected_eof(err: std::io::Error) -> bool;

/// Calls `std::io::Error::kind` and tells whether the kind is
/// `ErrorKind::UnexpectedEof`. The answer is given its name and nothing else
/// is claimed of it; the body is not verified.
#[verifier::external_body]
fn is_unexpected_eof(err: &std::io::Error) -> (yes: bool)
    ensures
        yes == kind_is_unexpected_eof(*err),
{
    matches!(err.kind(), std::io::ErrorKind::UnexpectedEof)
}

/// Formats a transport error with its `Display` impl. The text depends on
/// the platform, so nothing is promised of it, and the body is not verified.
#[verifier::external_body]
fn io_error_text(err: &std::io::Error) -> String {
    format!("{}", err)
}

/// Why a prologue or a frame header was not accepted.
#[derive(Clone, Copy, Debug, PartialEq, Eq, Structural)]
pub enum ParseError {
    /// The line does not start with the expected magic.
    InvalidY4M,
    /// A number was expected and the bytes are not one that fits.
    Int,
    /// A number was expected and the bytes are not UTF-8.
    Utf8,
    /// Any other violation of the header grammar.
    General,
}

/// Both decoding and encoding errors.
#[derive(Debug)]
pub enum Error {
    /// The stream ended where more data was expected. This is also how a
    /// reader learns that there are no more frames.
    EOF,
    /// Data supplied by the caller breaks a documented contract.
    BadInput,
    /// The prologue names a colorspace that is not in the table.
    UnknownColorspace,
    /// The prologue or a frame header is malformed.
    ParseError(ParseError),
    /// The transport failed.
    IoError(std::io::Error),
    /// The declared frame size exceeds the configured limit.
    OutOfMemory,
}

impl ParseError {
    /// The message shown for this error.
    pub open spec fn message(self) -> Seq<char> {
        match self {
            ParseError::InvalidY4M => "Error parsing y4m header"@,
            ParseError::Int => "Error parsing Int"@,
            ParseError::Utf8 => "Error parsing UTF8"@,
            ParseError::General => "General parsing error"@,
        }
    }

    /// Renders the message of this error.
    pub fn to_string(&self) -> (text: String)
        ensures
            text@ == self.message(),
    {
        match self {
            ParseError::InvalidY4M => "Error parsing y4m header".to_owned(),
            ParseError::Int => "Error parsing Int".to_owned(),
            ParseError::Utf8 => "Error parsing UTF8".to_owned(),
            ParseError::General => "General parsing error".to_owned(),
        }
    }
}

impl Error {
    /// The message shown for this error, where it does not come from the
    /// transport.
    pub open spec fn message(self) -> Seq<char>
        recommends
            !(self is IoError),
    {
        match self {
            Error::EOF => "End of file"@,
            Error::BadInput => "Bad input parameters provided"@,
            Error::UnknownColorspace => "Bad input parameters provided"@,
            Error::ParseError(err) => err.message(),
            Error::IoError(_) => Seq::empty(),
            Error::OutOfMemory => "Out of memory (limits exceeded)"@,
        }
    }

    /// Renders the message of this error. A transport error is rendered by
    /// the transport's own formatting.
    pub fn to_string(&self) -> (text: String)
        ensures
            !(self is IoError) ==> text@ == self.message(),
    {
        match self {
            Error::EOF => "End of file".to_owned(),
            Error::BadInput => "Bad input parameters provided".to_owned(),
            Error::UnknownColorspace => "Bad input parameters provided".to_owned(),
            Error::ParseError(err) => err.to_string(),
            Error::IoError(err) => io_error_text(err),
            Error::OutOfMemory => "Out of memory (limits exceeded)".to_owned(),
        }
    }

    /// The error that a failed transport operation becomes: an early end of
    /// the stream is reported as `EOF`, so that there is one way to see that
    /// no data is left; anything else is passed through.
    pub open spec fn of_transport(err: std::io::Error, ended_early: bool) -> Error {
        if ended_early {
            Error::EOF
        } else {
            Error::IoError(err)
        }
    }

    /// Turns a failed transport operation into an error, given whether the
    /// transport reported an early end of the stream.
    pub fn from_transport(err: std::io::Error, ended_early: bool) -> (res: Error)
        ensures
            res == Error::of_transport(err, ended_early),
    {
        if ended_early {
            Error::EOF
        } else {
            Error::IoError(err)
        }
    }
}

impl From<std::io::Error> for Error {
    /// Turns a failed transport operation into an error: `EOF` where the
    /// kind of the transport's error is an early end of the stream, else the
    /// transport's error passed through.
    fn from(err: std::io::Error) -> (res: Error)
        ensures
            res == Error::of_transport(err, kind_is_unexpected_eof(err)),
    {
        let ended_early = is_unexpected_eof(&err);
        Error::from_transport(err, ended_early)
    }
}

impl FromSpecImpl<std::io::Error> for Error {
    open spec fn obeys_from_spec() -> bool {
        true
    }

    open spec fn from_spec(err: std::io::Error) -> Error {
        Error::of_transport(err, kind_is_unexpected_eof(err))
    }
}

} // verus!

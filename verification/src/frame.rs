//! Frames and the records that carry them in a stream.

use vstd::prelude::*;
use vstd::slice::slice_subrange;
use crate::bytes::{
    copy_range, frame_magic, frame_magic_bytes, lemma_magics, starts_with, FIELD_SEP, TERMINATOR,
};
use crate::error::{Error, ParseError};
use crate::scan::{line_end, line_used};

verus! {

/// What a frame holds: the bytes of its three planes and its raw
/// parameters, if it has any.
pub struct FrameView {
    /// The bytes of the Y plane.
    pub y: Seq<u8>,
    /// The bytes of the U plane.
    pub u: Seq<u8>,
    /// The bytes of the V plane.
    pub v: Seq<u8>,
    /// The bytes that follow `FRAME` and a space in the frame header.
    pub raw_params: Option<Seq<u8>>,
}

/// The bytes of optional raw parameters.
pub open spec fn params_view(raw_params: Option<Vec<u8>>) -> Option<Seq<u8>> {
    match raw_params {
        Some(bytes) => Some(bytes@),
        None => None,
    }
}

/// A single frame: three borrowed planes and optional raw parameters.
#[derive(Debug)]
pub struct Frame<'f> {
    planes: [&'f [u8]; 3],
    raw_params: Option<Vec<u8>>,
}

impl<'f> View for Frame<'f> {
    type V = FrameView;

    closed spec fn view(&self) -> FrameView {
        FrameView {
            y: self.planes@[0]@,
            u: self.planes@[1]@,
            v: self.planes@[2]@,
            raw_params: params_view(self.raw_params),
        }
    }
}

impl<'f> Frame<'f> {
    /// Create a new frame with optional parameters.
    /// No heap allocations are made.
    pub fn new(planes: [&'f [u8]; 3], raw_params: Option<Vec<u8>>) -> (frame: Frame<'f>)
        ensures
            frame@.y == planes@[0]@,
            frame@.u == planes@[1]@,
            frame@.v == planes@[2]@,
            frame@.raw_params == params_view(raw_params),
    {
        Frame { planes, raw_params }
    }

    /// Return Y (first) plane.
    #[inline]
    pub fn get_y_plane(&self) -> (plane: &[u8])
        ensures
            plane@ == self@.y,
    {
        self.planes[0]
    }

    /// Return U (second) plane. Empty in case of grayscale.
    #[inline]
    pub fn get_u_plane(&self) -> (plane: &[u8])
        ensures
            plane@ == self@.u,
    {
        self.planes[1]
    }

    /// Return V (third) plane. Empty in case of grayscale.
    #[inline]
    pub fn get_v_plane(&self) -> (plane: &[u8])
        ensures
            plane@ == self@.v,
    {
        self.planes[2]
    }

    /// Return frame raw parameters if any.
    #[inline]
    pub fn get_raw_params(&self) -> (raw_params: Option<&[u8]>)
        ensures
            match raw_params {
                Some(bytes) => self@.raw_params == Some(bytes@),
                None => self@.raw_params is None,
            },
    {
        match &self.raw_params {
            Some(bytes) => Some(bytes.as_slice()),
            None => None,
        }
    }
}

/// The header line of a frame record, terminator included: `FRAME`, then a
/// space and the raw parameters where the frame has any.
pub open spec fn frame_header(raw_params: Option<Seq<u8>>) -> Seq<u8> {
    match raw_params {
        Some(bytes) => frame_magic() + seq![FIELD_SEP] + bytes + seq![TERMINATOR],
        None => frame_magic() + seq![TERMINATOR],
    }
}

/// The record of a frame: its header line, then the Y, U and V planes with
/// nothing between them.
pub open spec fn frame_record(frame: FrameView) -> Seq<u8> {
    frame_header(frame.raw_params) + frame.y + frame.u + frame.v
}

/// The raw parameters that the header line of a frame carries. The line
/// comes without its terminator. It must start with `FRAME`; what follows,
/// if anything, must start with a space, and the rest is the parameters.
pub open spec fn frame_params(line: Seq<u8>) -> Result<Option<Seq<u8>>, Error> {
    if !frame_magic().is_prefix_of(line) {
        Err(Error::ParseError(ParseError::InvalidY4M))
    } else if line.len() == frame_magic().len() {
        Ok(None)
    } else if line[frame_magic().len() as int] != FIELD_SEP {
        Err(Error::ParseError(ParseError::InvalidY4M))
    } else {
        Ok(Some(line.skip(frame_magic().len() + 1 as int)))
    }
}

/// The planes of a frame as they lie in `buf`: Y first, then U, then V.
pub open spec fn planes_of(buf: Seq<u8>, y_len: nat, u_len: nat, v_len: nat) -> (
    Seq<u8>,
    Seq<u8>,
    Seq<u8>,
) {
    (
        buf.subrange(0, y_len as int),
        buf.subrange(y_len as int, (y_len + u_len) as int),
        buf.subrange((y_len + u_len) as int, (y_len + u_len + v_len) as int),
    )
}

/// The frame that stands at the start of `stream`, for planes of the given
/// sizes. A stream that ends before the record is complete gives `EOF`.
pub open spec fn first_frame(stream: Seq<u8>, y_len: nat, u_len: nat, v_len: nat) -> Result<
    FrameView,
    Error,
> {
    match line_end(stream) {
        Err(err) => Err(err),
        Ok(end) => match frame_params(stream.take(end as int)) {
            Err(err) => Err(err),
            Ok(raw_params) => {
                let body = stream.skip(end + 1 as int);
                if body.len() < y_len + u_len + v_len {
                    Err(Error::EOF)
                } else {
                    let (y, u, v) = planes_of(body, y_len, u_len, v_len);
                    Ok(FrameView { y, u, v, raw_params })
                }
            },
        },
    }
}

/// How many bytes of `stream` reading its first frame takes up. A frame
/// that is read takes its record; a bad header takes the bytes that were
/// scanned; a record that is cut short takes all that is left.
pub open spec fn first_frame_used(stream: Seq<u8>, y_len: nat, u_len: nat, v_len: nat) -> nat {
    match line_end(stream) {
        Err(_) => line_used(stream),
        Ok(end) => match frame_params(stream.take(end as int)) {
            Err(_) => end + 1,
            Ok(_) => if stream.len() - (end + 1) < y_len + u_len + v_len {
                stream.len()
            } else {
                end + 1 + y_len + u_len + v_len
            },
        },
    }
}

/// Reads the raw parameters from the header line of a frame record. The
/// line comes without its terminator.
pub fn parse_frame_header(line: &[u8]) -> (res: Result<Option<Vec<u8>>, Error>)
    ensures
        match frame_params(line@) {
            Ok(raw_params) => res is Ok && params_view(res->Ok_0) == raw_params,
            Err(err) => res == Err::<Option<Vec<u8>>, Error>(err),
        },
{
    proof {
        lemma_magics();
    }
    let magic = frame_magic_bytes();
    if !starts_with(line, magic) {
        return Err(Error::ParseError(ParseError::InvalidY4M));
    }
    let start: usize = magic.len();
    if line.len() == start {
        return Ok(None);
    }
    if line[start] != FIELD_SEP {
        return Err(Error::ParseError(ParseError::InvalidY4M));
    }
    let raw_params = copy_range(line, start + 1, line.len());
    assert(raw_params@ =~= line@.skip(start + 1));
    Ok(Some(raw_params))
}

/// Cuts a frame buffer into the three planes of a frame.
pub(crate) fn split_planes<'a>(
    buf: &'a [u8],
    y_len: usize,
    u_len: usize,
    v_len: usize,
    raw_params: Option<Vec<u8>>,
) -> (frame: Frame<'a>)
    requires
        buf@.len() == y_len + u_len + v_len,
    ensures
        frame@.y == planes_of(buf@, y_len as nat, u_len as nat, v_len as nat).0,
        frame@.u == planes_of(buf@, y_len as nat, u_len as nat, v_len as nat).1,
        frame@.v == planes_of(buf@, y_len as nat, u_len as nat, v_len as nat).2,
        frame@.raw_params == params_view(raw_params),
        frame@.y + frame@.u + frame@.v == buf@,
{
    let end: usize = buf.len();
    let y = slice_subrange(buf, 0, y_len);
    let u = slice_subrange(buf, y_len, y_len + u_len);
    let v = slice_subrange(buf, y_len + u_len, end);
    assert(y@ + u@ + v@ =~= buf@);
    Frame::new([y, u, v], raw_params)
}

} // verus!

//! The decoder: reads the prologue once, then one frame after another.

use vstd::prelude::*;
use crate::bytes::copy_into;
use crate::colorspace::Colorspace;
use crate::error::Error;
use crate::frame::{first_frame, first_frame_used, parse_frame_header, Frame};
use crate::header::{prologue, Header, HeaderView, Limits, DEFAULT_LIMIT};
use crate::ratio::Ratio;
use crate::scan::{line_used, read_line, LineScan};

verus! {

/// What a decoder stands for: what the prologue declared, and the bytes of
/// the stream that it has not read yet.
pub struct DecoderView {
    /// What the prologue declared.
    pub header: HeaderView,
    /// The bytes of the stream that are still to be read.
    pub rest: Seq<u8>,
}

/// YUV4MPEG2 decoder over a stream held in memory.
///
/// The decoder goes through the stream once, front to back. The planes of a
/// frame that it hands out lie in its own frame buffer, which the next call
/// of `read_frame` overwrites.
pub struct Decoder<'a> {
    reader: &'a [u8],
    pos: usize,
    params_buf: LineScan,
    frame_buf: Vec<u8>,
    header: Header,
}

impl<'a> View for Decoder<'a> {
    type V = DecoderView;

    closed spec fn view(&self) -> DecoderView {
        DecoderView { header: self.header@, rest: self.reader@.skip(self.pos as int) }
    }
}

impl<'a> Decoder<'a> {
    /// Whether the decoder is in order: it has not read past the end of its
    /// stream, and its frame buffer has the size of one frame. Every decoder
    /// that `new` or `new_with_limits` hands out is, and stays so.
    pub closed spec fn wf(&self) -> bool {
        &&& self.pos <= self.reader@.len()
        &&& self.frame_buf@.len() == self.header@.frame_size()
    }

    /// The bytes of the frame buffer, which hold the planes of the frame
    /// that was read last.
    pub closed spec fn frame_buffer(&self) -> Seq<u8> {
        self.frame_buf@
    }

    /// Create a new decoder instance.
    pub fn new(reader: &'a [u8]) -> (res: Result<Decoder<'a>, Error>)
        ensures
            match prologue(reader@, DEFAULT_LIMIT as nat) {
                Ok(header) => {
                    &&& res is Ok
                    &&& res->Ok_0.wf()
                    &&& res->Ok_0.frame_buffer().len() == header.frame_size()
                    &&& res->Ok_0@.header == header
                    &&& res->Ok_0@.rest == reader@.skip(line_used(reader@) as int)
                },
                Err(err) => res is Err && res->Err_0 == err,
            },
    {
        Decoder::new_with_limits(reader, Limits::default())
    }

    /// Create a new decoder instance with custom limits.
    ///
    /// The frame buffer is allocated only once the frame size that the
    /// prologue declares is known to be within `limits`.
    pub fn new_with_limits(reader: &'a [u8], limits: Limits) -> (res: Result<Decoder<'a>, Error>)
        ensures
            match prologue(reader@, limits.bytes as nat) {
                Ok(header) => {
                    &&& res is Ok
                    &&& res->Ok_0.wf()
                    &&& res->Ok_0.frame_buffer().len() == header.frame_size()
                    &&& res->Ok_0@.header == header
                    &&& res->Ok_0@.rest == reader@.skip(line_used(reader@) as int)
                },
                Err(err) => res is Err && res->Err_0 == err,
            },
    {
        let mut params_buf = LineScan::new();
        let mut pos: usize = 0;
        assert(reader@.skip(0) =~= reader@);
        match read_line(reader, &mut pos, &mut params_buf) {
            Ok(()) => {},
            Err(err) => {
                return Err(err);
            },
        }
        let header = match Header::parse(params_buf.line(), limits) {
            Ok(header) => header,
            Err(err) => {
                return Err(err);
            },
        };
        let frame_buf: Vec<u8> = vec![0u8; header.get_frame_size()];
        Ok(Decoder { reader, pos, params_buf, frame_buf, header })
    }

    /// Read the next frame. End of input is indicated by `Error::EOF`.
    ///
    /// The planes of the frame are the three parts of the frame buffer, in
    /// the order Y, U, V.
    pub fn read_frame(&mut self) -> (res: Result<Frame<'_>, Error>)
        requires
            old(self).wf(),
        ensures
            final(self).wf(),
            final(self).frame_buffer().len() == old(self).frame_buffer().len(),
            final(self)@.header == old(self)@.header,
            final(self)@.rest == old(self)@.rest.skip(
                first_frame_used(
                    old(self)@.rest,
                    old(self)@.header.plane_sizes().0,
                    old(self)@.header.plane_sizes().1,
                    old(self)@.header.plane_sizes().2,
                ) as int,
            ),
            match first_frame(
                old(self)@.rest,
                old(self)@.header.plane_sizes().0,
                old(self)@.header.plane_sizes().1,
                old(self)@.header.plane_sizes().2,
            ) {
                Ok(frame) => {
                    &&& res is Ok
                    &&& res->Ok_0@ == frame
                    &&& frame.y + frame.u + frame.v == final(self).frame_buffer()
                },
                Err(err) => res is Err && res->Err_0 == err,
            },
    {
        let ghost stream = self@.rest;
        let ghost start = self.pos;
        match read_line(self.reader, &mut self.pos, &mut self.params_buf) {
            Ok(()) => {},
            Err(err) => {
                assert(self@.rest =~= stream.skip(line_used(stream) as int));
                return Err(err);
            },
        }
        assert(self@.rest =~= stream.skip(line_used(stream) as int));
        let raw_params = match parse_frame_header(self.params_buf.line()) {
            Ok(raw_params) => raw_params,
            Err(err) => {
                return Err(err);
            },
        };
        let size: usize = self.frame_buf.len();
        if self.reader.len() - self.pos < size {
            self.pos = self.reader.len();
            assert(self@.rest =~= stream.skip(stream.len() as int));
            return Err(Error::EOF);
        }
        copy_into(&mut self.frame_buf, self.reader, self.pos);
        let ghost body = self.pos;
        self.pos = self.pos + size;
        proof {
            assert(self@.rest =~= stream.skip(body - start + size));
            assert(self.frame_buf@ =~= stream.skip(body - start).subrange(0, size as int));
        }
        let frame = self.header.frame(self.frame_buf.as_slice(), raw_params);
        proof {
            let sizes = self@.header.plane_sizes();
            let rest = stream.skip(body - start);
            assert(frame@.y =~= rest.subrange(0, sizes.0 as int));
            assert(frame@.u =~= rest.subrange(sizes.0 as int, (sizes.0 + sizes.1) as int));
            assert(frame@.v =~= rest.subrange(
                (sizes.0 + sizes.1) as int,
                (sizes.0 + sizes.1 + sizes.2) as int,
            ));
        }
        Ok(frame)
    }

    /// Return file width.
    #[inline]
    pub fn get_width(&self) -> (width: usize)
        ensures
            width == self@.header.width,
            width > 0,
    {
        self.header.get_width()
    }

    /// Return file height.
    #[inline]
    pub fn get_height(&self) -> (height: usize)
        ensures
            height == self@.header.height,
            height > 0,
    {
        self.header.get_height()
    }

    /// Return file framerate.
    #[inline]
    pub fn get_framerate(&self) -> (framerate: Ratio)
        ensures
            framerate == self@.header.framerate,
    {
        self.header.get_framerate()
    }

    /// Return file pixel aspect.
    #[inline]
    pub fn get_pixel_aspect(&self) -> (pixel_aspect: Ratio)
        ensures
            pixel_aspect == self@.header.pixel_aspect,
    {
        self.header.get_pixel_aspect()
    }

    /// Return file colorspace.
    ///
    /// Normally a stream names its colorspace. Where it does not, 4:2:0 is
    /// implied, as other readers do.
    #[inline]
    pub fn get_colorspace(&self) -> (colorspace: Colorspace)
        ensures
            colorspace == self@.header.colorspace,
    {
        self.header.get_colorspace()
    }

    /// Return file raw parameters.
    #[inline]
    pub fn get_raw_params(&self) -> (raw_params: &[u8])
        ensures
            raw_params@ == self@.header.raw_params,
    {
        self.header.get_raw_params()
    }

    /// Return the bit depth per sample.
    #[inline]
    pub fn get_bit_depth(&self) -> (bits: usize)
        ensures
            bits == self@.header.colorspace.bit_depth(),
    {
        self.header.get_bit_depth()
    }

    /// Return the number of bytes in a sample.
    #[inline]
    pub fn get_bytes_per_sample(&self) -> (bytes: usize)
        ensures
            bytes == self@.header.colorspace.bytes_per_sample(),
    {
        self.header.get_bytes_per_sample()
    }

    /// Return the parsed prologue.
    pub fn get_header(&self) -> (header: &Header)
        ensures
            header@ == self@.header,
    {
        &self.header
    }
}

/// Create a new decoder instance. Alias for `Decoder::new`.
pub fn decode<'a>(reader: &'a [u8]) -> (res: Result<Decoder<'a>, Error>)
    ensures
        match prologue(reader@, DEFAULT_LIMIT as nat) {
            Ok(header) => {
                &&& res is Ok
                &&& res->Ok_0.wf()
                &&& res->Ok_0.frame_buffer().len() == header.frame_size()
                &&& res->Ok_0@.header == header
                &&& res->Ok_0@.rest == reader@.skip(line_used(reader@) as int)
            },
            Err(err) => res is Err && res->Err_0 == err,
        },
{
    Decoder::new(reader)
}

} // verus!

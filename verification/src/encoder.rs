//! The encoder: a builder that writes the prologue, and the writer of frame
//! records that it turns into.

use vstd::prelude::*;
use crate::bytes::{
    ascii_bytes, file_magic, file_magic_bytes, frame_magic_bytes, join, FIELD_SEP, TERMINATOR,
};
use crate::colorspace::Colorspace;
use crate::decimal::{decimal_digits, push_decimal};
use crate::error::Error;
use crate::frame::{frame_header, frame_record, Frame};
use crate::header::{TAG_ASPECT, TAG_COLORSPACE, TAG_FRAMERATE, TAG_HEIGHT, TAG_VENDOR, TAG_WIDTH};
use crate::layout::{checked_plane_sizes, frame_size, get_plane_sizes, plane_sizes};
use crate::ratio::Ratio;
use crate::vendor::VendorExtensionString;

verus! {

/// What an encoder builder holds: the configuration of the stream to be
/// written.
pub struct BuilderView {
    /// The width of a frame in pixels.
    pub width: nat,
    /// The height of a frame in pixels.
    pub height: nat,
    /// The frame rate.
    pub framerate: Ratio,
    /// The pixel aspect.
    pub pixel_aspect: Ratio,
    /// The colorspace.
    pub colorspace: Colorspace,
    /// The vendor extensions, in the order in which they were added.
    pub vendor_extensions: Seq<Seq<u8>>,
}

/// The vendor extensions as header tokens: each behind its tag `X`.
pub open spec fn vendor_tokens(vendor_extensions: Seq<Seq<u8>>) -> Seq<Seq<u8>> {
    Seq::new(vendor_extensions.len(), |i: int| seq![TAG_VENDOR] + vendor_extensions[i])
}

/// The tokens that come first in a prologue: width, height and frame rate,
/// and the pixel aspect unless it is `1:1`.
pub open spec fn leading_tokens(config: BuilderView) -> Seq<Seq<u8>> {
    let fixed = seq![
        seq![TAG_WIDTH] + decimal_digits(config.width),
        seq![TAG_HEIGHT] + decimal_digits(config.height),
        seq![TAG_FRAMERATE] + config.framerate.rendered(),
    ];
    if config.pixel_aspect.num != 1 || config.pixel_aspect.den != 1 {
        fixed.push(seq![TAG_ASPECT] + config.pixel_aspect.rendered())
    } else {
        fixed
    }
}

/// The tokens of the prologue of a stream: the leading tokens, then the
/// vendor extensions in the order in which they were added, then the
/// colorspace.
pub open spec fn header_tokens(config: BuilderView) -> Seq<Seq<u8>> {
    leading_tokens(config) + vendor_tokens(config.vendor_extensions) + seq![
        seq![TAG_COLORSPACE] + config.colorspace.tag(),
    ]
}

/// The prologue of a stream: the magic, the tokens with a space between
/// neighbours, and the terminator.
pub open spec fn header_line(config: BuilderView) -> Seq<u8> {
    file_magic() + join(header_tokens(config), FIELD_SEP) + seq![TERMINATOR]
}

/// Encoder builder. Allows to set the parameters of a stream step by step.
#[derive(Debug)]
pub struct EncoderBuilder {
    width: usize,
    height: usize,
    framerate: Ratio,
    pixel_aspect: Ratio,
    colorspace: Colorspace,
    vendor_extensions: Vec<Vec<u8>>,
}

impl View for EncoderBuilder {
    type V = BuilderView;

    closed spec fn view(&self) -> BuilderView {
        BuilderView {
            width: self.width as nat,
            height: self.height as nat,
            framerate: self.framerate,
            pixel_aspect: self.pixel_aspect,
            colorspace: self.colorspace,
            vendor_extensions: Seq::new(
                self.vendor_extensions@.len(),
                |i: int| self.vendor_extensions@[i]@,
            ),
        }
    }
}

impl EncoderBuilder {
    #[verifier::type_invariant]
    spec fn extensions_hold_no_space(&self) -> bool {
        forall|i: int|
            0 <= i < self.vendor_extensions@.len() ==> !(#[trigger]
                self.vendor_extensions@[i]@).contains(FIELD_SEP)
    }

    /// Create a new encoder builder, with square pixels, the colorspace
    /// 4:2:0 and no vendor extensions.
    pub fn new(width: usize, height: usize, framerate: Ratio) -> (builder: EncoderBuilder)
        ensures
            builder@ == (BuilderView {
                width: width as nat,
                height: height as nat,
                framerate,
                pixel_aspect: Ratio { num: 1, den: 1 },
                colorspace: Colorspace::C420,
                vendor_extensions: Seq::empty(),
            }),
    {
        let builder = EncoderBuilder {
            width,
            height,
            framerate,
            pixel_aspect: Ratio::new(1, 1),
            colorspace: Colorspace::C420,
            vendor_extensions: Vec::new(),
        };
        assert(builder@.vendor_extensions =~= Seq::empty());
        builder
    }

    /// Specify file colorspace.
    pub fn with_colorspace(self, colorspace: Colorspace) -> (builder: EncoderBuilder)
        ensures
            builder@ == (BuilderView { colorspace, ..self@ }),
    {
        proof {
            use_type_invariant(&self);
        }
        let EncoderBuilder {
            width,
            height,
            framerate,
            pixel_aspect,
            colorspace: _,
            vendor_extensions,
        } = self;
        EncoderBuilder { width, height, framerate, pixel_aspect, colorspace, vendor_extensions }
    }

    /// Specify file pixel aspect.
    pub fn with_pixel_aspect(self, pixel_aspect: Ratio) -> (builder: EncoderBuilder)
        ensures
            builder@ == (BuilderView { pixel_aspect, ..self@ }),
    {
        proof {
            use_type_invariant(&self);
        }
        let EncoderBuilder {
            width,
            height,
            framerate,
            pixel_aspect: _,
            colorspace,
            vendor_extensions,
        } = self;
        EncoderBuilder { width, height, framerate, pixel_aspect, colorspace, vendor_extensions }
    }

    /// Add vendor extension.
    pub fn append_vendor_extension(self, x_option: VendorExtensionString) -> (builder:
        EncoderBuilder)
        ensures
            builder@ == (BuilderView {
                vendor_extensions: self@.vendor_extensions.push(x_option@),
                ..self@
            }),
    {
        proof {
            use_type_invariant(&self);
        }
        let ghost before = self@;
        let EncoderBuilder {
            width,
            height,
            framerate,
            pixel_aspect,
            colorspace,
            mut vendor_extensions,
        } = self;
        let ghost old_extensions = vendor_extensions@;
        vendor_extensions.push(x_option.into_bytes());
        assert forall|i: int| 0 <= i < vendor_extensions@.len() implies !(#[trigger]
            vendor_extensions@[i]@).contains(FIELD_SEP) by {
            if i < old_extensions.len() {
                assert(vendor_extensions@[i] == old_extensions[i]);
            }
        }
        let builder = EncoderBuilder {
            width,
            height,
            framerate,
            pixel_aspect,
            colorspace,
            vendor_extensions,
        };
        assert(builder@.vendor_extensions =~= before.vendor_extensions.push(x_option@));
        builder
    }

    /// Whether the size of a frame of this configuration fits a machine
    /// word, which `write_header` asks for.
    pub fn frame_fits(&self) -> (yes: bool)
        ensures
            yes == (frame_size(self@.width, self@.height, self@.colorspace) <= usize::MAX),
    {
        checked_plane_sizes(self.width, self.height, self.colorspace).is_some()
    }

    /// Write header to the stream and create encoder instance.
    ///
    /// The bytes of the prologue are appended to `writer`, which the encoder
    /// then owns.
    pub fn write_header(self, writer: Vec<u8>) -> (res: Result<Encoder, Error>)
        requires
            frame_size(self@.width, self@.height, self@.colorspace) <= usize::MAX,
        ensures
            res is Ok,
            res->Ok_0@.written == writer@ + header_line(self@),
            res->Ok_0@.y_len == plane_sizes(self@.width, self@.height, self@.colorspace).0,
            res->Ok_0@.u_len == plane_sizes(self@.width, self@.height, self@.colorspace).1,
            res->Ok_0@.v_len == plane_sizes(self@.width, self@.height, self@.colorspace).2,
            forall|i: int|
                0 <= i < self@.vendor_extensions.len() ==> !(#[trigger]
                    self@.vendor_extensions[i]).contains(FIELD_SEP),
    {
        proof {
            use_type_invariant(&self);
        }
        let ghost config = self@;
        let ghost start = writer@;
        let ghost magic = file_magic();
        let mut writer = writer;
        writer.extend_from_slice(file_magic_bytes());
        let ghost mut tokens: Seq<Seq<u8>> = Seq::empty();

        writer.push(TAG_WIDTH);
        push_decimal(&mut writer, self.width);
        proof {
            tokens = tokens.push(seq![TAG_WIDTH] + decimal_digits(config.width));
            assert(writer@ =~= start + magic + join(tokens, FIELD_SEP));
        }
        writer.push(FIELD_SEP);
        writer.push(TAG_HEIGHT);
        push_decimal(&mut writer, self.height);
        proof {
            lemma_join_push(tokens, seq![TAG_HEIGHT] + decimal_digits(config.height));
            tokens = tokens.push(seq![TAG_HEIGHT] + decimal_digits(config.height));
            assert(writer@ =~= start + magic + join(tokens, FIELD_SEP));
        }
        writer.push(FIELD_SEP);
        writer.push(TAG_FRAMERATE);
        self.framerate.write_to(&mut writer);
        proof {
            lemma_join_push(tokens, seq![TAG_FRAMERATE] + config.framerate.rendered());
            tokens = tokens.push(seq![TAG_FRAMERATE] + config.framerate.rendered());
            assert(writer@ =~= start + magic + join(tokens, FIELD_SEP));
        }
        if self.pixel_aspect.num != 1 || self.pixel_aspect.den != 1 {
            writer.push(FIELD_SEP);
            writer.push(TAG_ASPECT);
            self.pixel_aspect.write_to(&mut writer);
            proof {
                lemma_join_push(tokens, seq![TAG_ASPECT] + config.pixel_aspect.rendered());
                tokens = tokens.push(seq![TAG_ASPECT] + config.pixel_aspect.rendered());
                assert(writer@ =~= start + magic + join(tokens, FIELD_SEP));
            }
        }
        assert(tokens =~= leading_tokens(config));
        let count: usize = self.vendor_extensions.len();
        let mut i: usize = 0;
        while i < count
            invariant
                i <= count == self.vendor_extensions@.len(),
                config == self@,
                tokens.len() >= 3,
                tokens == leading_tokens(config) + vendor_tokens(
                    config.vendor_extensions.take(i as int),
                ),
                writer@ == start + magic + join(tokens, FIELD_SEP),
            decreases count - i,
        {
            writer.push(FIELD_SEP);
            writer.push(TAG_VENDOR);
            writer.extend_from_slice(self.vendor_extensions[i].as_slice());
            proof {
                let token = seq![TAG_VENDOR] + config.vendor_extensions[i as int];
                lemma_join_push(tokens, token);
                assert(vendor_tokens(config.vendor_extensions.take(i + 1)) =~= vendor_tokens(
                    config.vendor_extensions.take(i as int),
                ).push(token));
                tokens = tokens.push(token);
                assert(writer@ =~= start + magic + join(tokens, FIELD_SEP));
            }
            i += 1;
        }
        assert(config.vendor_extensions.take(count as int) =~= config.vendor_extensions);
        writer.push(FIELD_SEP);
        writer.push(TAG_COLORSPACE);
        writer.extend_from_slice(ascii_bytes(self.colorspace.get_name()));
        writer.push(TERMINATOR);
        proof {
            let token = seq![TAG_COLORSPACE] + config.colorspace.tag();
            lemma_join_push(tokens, token);
            tokens = tokens.push(token);
            assert(tokens =~= header_tokens(config));
            assert(writer@ =~= start + header_line(config));
            assert forall|i: int| 0 <= i < config.vendor_extensions.len() implies !(#[trigger]
                config.vendor_extensions[i]).contains(FIELD_SEP) by {
                assert(config.vendor_extensions[i] == self.vendor_extensions@[i]@);
            }
        }
        let (y_len, u_len, v_len) = get_plane_sizes(self.width, self.height, self.colorspace);
        Ok(Encoder { writer, y_len, u_len, v_len })
    }
}

/// Joining one piece more puts a separator and the piece behind what was
/// joined before.
pub proof fn lemma_join_push(parts: Seq<Seq<u8>>, last: Seq<u8>)
    requires
        parts.len() >= 1,
    ensures
        join(parts.push(last), FIELD_SEP) == join(parts, FIELD_SEP) + seq![FIELD_SEP] + last,
{
    assert(parts.push(last).drop_last() =~= parts);
}

/// What an encoder stands for: the bytes written so far, and the plane
/// sizes that every frame must have.
pub struct EncoderView {
    /// The bytes of the stream written so far.
    pub written: Seq<u8>,
    /// The size that the Y plane of a frame must have.
    pub y_len: nat,
    /// The size that the U plane of a frame must have.
    pub u_len: nat,
    /// The size that the V plane of a frame must have.
    pub v_len: nat,
}

/// YUV4MPEG2 encoder into a stream held in memory.
pub struct Encoder {
    writer: Vec<u8>,
    y_len: usize,
    u_len: usize,
    v_len: usize,
}

impl View for Encoder {
    type V = EncoderView;

    closed spec fn view(&self) -> EncoderView {
        EncoderView {
            written: self.writer@,
            y_len: self.y_len as nat,
            u_len: self.u_len as nat,
            v_len: self.v_len as nat,
        }
    }
}

impl Encoder {
    /// Whether `frame` has planes of the sizes that this encoder expects.
    pub open spec fn accepts(self, frame: crate::frame::FrameView) -> bool {
        &&& frame.y.len() == self@.y_len
        &&& frame.u.len() == self@.u_len
        &&& frame.v.len() == self@.v_len
    }

    /// Write next frame to the stream.
    ///
    /// A frame with a plane of another size than expected is refused with
    /// `Error::BadInput`, and nothing is written.
    pub fn write_frame(&mut self, frame: &Frame) -> (res: Result<(), Error>)
        ensures
            old(self).accepts(frame@) ==> res is Ok && final(self)@ == (EncoderView {
                written: old(self)@.written + frame_record(frame@),
                ..old(self)@
            }),
            !old(self).accepts(frame@) ==> res is Err && res->Err_0 == Error::BadInput
                && final(self)@ == old(self)@,
    {
        if frame.get_y_plane().len() != self.y_len || frame.get_u_plane().len() != self.u_len
            || frame.get_v_plane().len() != self.v_len {
            return Err(Error::BadInput);
        }
        self.writer.extend_from_slice(frame_magic_bytes());
        if let Some(params) = frame.get_raw_params() {
            self.writer.push(FIELD_SEP);
            self.writer.extend_from_slice(params);
        }
        self.writer.push(TERMINATOR);
        assert(self.writer@ =~= old(self)@.written + frame_header(frame@.raw_params));
        self.writer.extend_from_slice(frame.get_y_plane());
        self.writer.extend_from_slice(frame.get_u_plane());
        self.writer.extend_from_slice(frame.get_v_plane());
        assert(self.writer@ =~= old(self)@.written + frame_record(frame@));
        Ok(())
    }

    /// Flush the underlying writer. A stream held in memory has nothing to
    /// flush, so this always succeeds.
    pub fn flush(&mut self) -> (res: Result<(), Error>)
        ensures
            res is Ok,
            final(self)@ == old(self)@,
    {
        Ok(())
    }

    /// Hand over the bytes written so far and start afresh with none, as a
    /// caller does who passes them on to a transport piece by piece.
    pub fn take_written(&mut self) -> (bytes: Vec<u8>)
        ensures
            bytes@ == old(self)@.written,
            final(self)@ == (EncoderView { written: Seq::empty(), ..old(self)@ }),
    {
        let mut bytes: Vec<u8> = Vec::new();
        core::mem::swap(&mut self.writer, &mut bytes);
        bytes
    }

    /// Return the underlying writer: the bytes of the stream written so far.
    pub fn into_inner(self) -> (writer: Vec<u8>)
        ensures
            writer@ == self@.written,
    {
        self.writer
    }
}

/// Create a new encoder builder. Alias for `EncoderBuilder::new`.
pub fn encode(width: usize, height: usize, framerate: Ratio) -> (builder: EncoderBuilder)
    ensures
        builder@ == (BuilderView {
            width: width as nat,
            height: height as nat,
            framerate,
            pixel_aspect: Ratio { num: 1, den: 1 },
            colorspace: Colorspace::C420,
            vendor_extensions: Seq::empty(),
        }),
{
    EncoderBuilder::new(width, height, framerate)
}

} // verus!

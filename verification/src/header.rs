//! The prologue of a stream: its one header line, read into a typed
//! configuration.

use vstd::prelude::*;
use vstd::slice::slice_subrange;
use crate::bytes::{
    copy_range, file_magic, file_magic_bytes, find_byte, lemma_magics, split, starts_with,
    FIELD_SEP, MAX_PARAMS_SIZE, TERMINATOR,
};
use crate::colorspace::Colorspace;
use crate::decimal::{parse_bytes, parsed_number};
use crate::error::{Error, ParseError};
use crate::frame::{split_planes, Frame, params_view, planes_of};
use crate::layout::{checked_plane_sizes, frame_size, plane_sizes};
use crate::ratio::Ratio;
use crate::scan::{lemma_unterminated_line, line_end};

verus! {

/// The tag character of the width token.
pub const TAG_WIDTH: u8 = 0x57;

/// The tag character of the height token.
pub const TAG_HEIGHT: u8 = 0x48;

/// The tag character of the frame rate token.
pub const TAG_FRAMERATE: u8 = 0x46;

/// The tag character of the pixel aspect token.
pub const TAG_ASPECT: u8 = 0x41;

/// The tag character of the colorspace token.
pub const TAG_COLORSPACE: u8 = 0x43;

/// The tag character of a vendor extension token.
pub const TAG_VENDOR: u8 = 0x58;

/// Limits on the resources `Decoder` is allowed to use.
#[derive(Clone, Copy, Debug)]
pub struct Limits {
    /// Maximum allowed size of frame buffer, default is 1 GiB.
    pub bytes: usize,
}

/// The default limit on the size of a frame: 1 GiB.
pub const DEFAULT_LIMIT: usize = 1024 * 1024 * 1024;

impl Default for Limits {
    fn default() -> (limits: Limits)
        ensures
            limits.bytes == DEFAULT_LIMIT,
    {
        Limits { bytes: DEFAULT_LIMIT }
    }
}

/// What the tokens of a prologue have set so far.
#[derive(Clone, Copy, Debug)]
pub struct Params {
    /// The width, zero while no token has set it.
    pub width: usize,
    /// The height, zero while no token has set it.
    pub height: usize,
    /// The frame rate.
    pub framerate: Ratio,
    /// The pixel aspect.
    pub pixel_aspect: Ratio,
    /// The colorspace, if a token has set it.
    pub colorspace: Option<Colorspace>,
}

impl Params {
    /// The parameters before any token: no width and no height yet, 25
    /// frames a second, square pixels, no colorspace named.
    pub open spec fn initial() -> Params {
        Params {
            width: 0,
            height: 0,
            framerate: Ratio { num: 25, den: 1 },
            pixel_aspect: Ratio { num: 1, den: 1 },
            colorspace: None,
        }
    }

    /// The parameters after one more token. An empty token changes nothing.
    /// The first byte of a token is its tag and the rest its value: `W` and
    /// `H` take a number, `F` and `A` a ratio, `C` the name of a colorspace.
    /// A token with any other tag is passed over.
    pub open spec fn apply(self, token: Seq<u8>) -> Result<Params, Error> {
        if token.len() == 0 {
            Ok(self)
        } else {
            let value = token.drop_first();
            if token[0] == TAG_WIDTH {
                match parsed_number(value) {
                    Ok(width) => Ok(Params { width, ..self }),
                    Err(err) => Err(err),
                }
            } else if token[0] == TAG_HEIGHT {
                match parsed_number(value) {
                    Ok(height) => Ok(Params { height, ..self }),
                    Err(err) => Err(err),
                }
            } else if token[0] == TAG_FRAMERATE {
                match Ratio::parsed(value) {
                    Ok(framerate) => Ok(Params { framerate, ..self }),
                    Err(err) => Err(err),
                }
            } else if token[0] == TAG_ASPECT {
                match Ratio::parsed(value) {
                    Ok(pixel_aspect) => Ok(Params { pixel_aspect, ..self }),
                    Err(err) => Err(err),
                }
            } else if token[0] == TAG_COLORSPACE {
                match Colorspace::with_tag(value) {
                    Some(colorspace) => Ok(Params { colorspace: Some(colorspace), ..self }),
                    None => Err(Error::UnknownColorspace),
                }
            } else {
                Ok(self)
            }
        }
    }

    /// The parameters after a run of tokens, taken in order. The first token
    /// that is not accepted ends the run with its error.
    pub open spec fn apply_all(self, tokens: Seq<Seq<u8>>) -> Result<Params, Error>
        decreases tokens.len(),
    {
        if tokens.len() == 0 {
            Ok(self)
        } else {
            match self.apply(tokens[0]) {
                Ok(next) => next.apply_all(tokens.drop_first()),
                Err(err) => Err(err),
            }
        }
    }

    /// The parameters that a raw parameter string sets: those after its
    /// tokens, which are what stands between its spaces.
    pub open spec fn of_raw(raw_params: Seq<u8>) -> Result<Params, Error> {
        Params::initial().apply_all(split(raw_params, FIELD_SEP))
    }

    /// The exec form of `initial`.
    pub fn new() -> (params: Params)
        ensures
            params == Params::initial(),
    {
        Params {
            width: 0,
            height: 0,
            framerate: Ratio::new(25, 1),
            pixel_aspect: Ratio::new(1, 1),
            colorspace: None,
        }
    }

    /// Takes one token into account.
    pub fn take_token(self, token: &[u8]) -> (res: Result<Params, Error>)
        ensures
            res == self.apply(token@),
    {
        if token.len() == 0 {
            return Ok(self);
        }
        let name: u8 = token[0];
        let value = slice_subrange(token, 1, token.len());
        assert(value@ =~= token@.drop_first());
        let mut params = self;
        if name == TAG_WIDTH {
            match parse_bytes(value) {
                Ok(width) => {
                    params.width = width;
                },
                Err(err) => {
                    return Err(err);
                },
            }
        } else if name == TAG_HEIGHT {
            match parse_bytes(value) {
                Ok(height) => {
                    params.height = height;
                },
                Err(err) => {
                    return Err(err);
                },
            }
        } else if name == TAG_FRAMERATE {
            match Ratio::parse(value) {
                Ok(framerate) => {
                    params.framerate = framerate;
                },
                Err(err) => {
                    return Err(err);
                },
            }
        } else if name == TAG_ASPECT {
            match Ratio::parse(value) {
                Ok(pixel_aspect) => {
                    params.pixel_aspect = pixel_aspect;
                },
                Err(err) => {
                    return Err(err);
                },
            }
        } else if name == TAG_COLORSPACE {
            match Colorspace::from_tag(value) {
                Some(colorspace) => {
                    params.colorspace = Some(colorspace);
                },
                None => {
                    return Err(Error::UnknownColorspace);
                },
            }
        }
        Ok(params)
    }

    /// Reads the parameters that a raw parameter string sets.
    pub fn parse(raw_params: &[u8]) -> (res: Result<Params, Error>)
        ensures
            res == Params::of_raw(raw_params@),
    {
        let mut params = Params::new();
        let mut start: usize = 0;
        assert(raw_params@.skip(0) =~= raw_params@);
        loop
            invariant
                start <= raw_params@.len(),
                Params::of_raw(raw_params@) == params.apply_all(
                    split(raw_params@.skip(start as int), FIELD_SEP),
                ),
            decreases raw_params@.len() - start,
        {
            let end: usize = find_byte(raw_params, start, FIELD_SEP);
            let token = slice_subrange(raw_params, start, end);
            let ghost rest = raw_params@.skip(start as int);
            let ghost tokens = split(rest, FIELD_SEP);
            proof {
                assert(token@ =~= rest.take(end - start));
                assert(tokens[0] == token@);
                if end < raw_params@.len() {
                    assert(rest.skip(end - start + 1) =~= raw_params@.skip(end + 1));
                    assert(tokens.drop_first() =~= split(
                        raw_params@.skip(end + 1),
                        FIELD_SEP,
                    ));
                } else {
                    assert(token@ =~= rest);
                    assert(tokens.drop_first() =~= Seq::<Seq<u8>>::empty());
                }
            }
            params = match params.take_token(token) {
                Ok(next) => next,
                Err(err) => {
                    return Err(err);
                },
            };
            if end == raw_params.len() {
                assert(params.apply_all(tokens.drop_first()) == Ok::<Params, Error>(params));
                return Ok(params);
            }
            start = end + 1;
        }
    }
}

/// Taking two runs of tokens one after the other is taking them as one
/// run.
pub proof fn lemma_apply_all_concat(params: Params, first: Seq<Seq<u8>>, second: Seq<Seq<u8>>)
    ensures
        params.apply_all(first + second) == match params.apply_all(first) {
            Ok(next) => next.apply_all(second),
            Err(err) => Err(err),
        },
    decreases first.len(),
{
    if first.len() == 0 {
        assert(first + second =~= second);
    } else {
        assert((first + second)[0] == first[0]);
        assert((first + second).drop_first() =~= first.drop_first() + second);
        match params.apply(first[0]) {
            Ok(next) => {
                lemma_apply_all_concat(next, first.drop_first(), second);
            },
            Err(_) => {},
        }
    }
}

/// Taking one more token after a run is taking the run with the token at
/// its end.
pub proof fn lemma_apply_all_push(params: Params, tokens: Seq<Seq<u8>>, token: Seq<u8>)
    ensures
        params.apply_all(tokens.push(token)) == match params.apply_all(tokens) {
            Ok(next) => next.apply(token),
            Err(err) => Err(err),
        },
{
    lemma_apply_all_concat(params, tokens, seq![token]);
    assert(tokens + seq![token] =~= tokens.push(token));
    match params.apply_all(tokens) {
        Ok(next) => {
            let one = seq![token];
            assert(one[0] == token);
            assert(one.drop_first() =~= Seq::<Seq<u8>>::empty());
            match next.apply(token) {
                Ok(last) => {
                    assert(last.apply_all(one.drop_first()) == Ok::<Params, Error>(last));
                },
                Err(_) => {},
            }
        },
        Err(_) => {},
    }
}

/// A run of tokens of which none has one of the five tags that are read
/// changes nothing.
pub proof fn lemma_apply_all_passes(params: Params, tokens: Seq<Seq<u8>>)
    requires
        forall|i: int|
            0 <= i < tokens.len() ==> (#[trigger] tokens[i]).len() > 0 && !is_read_tag(
                tokens[i][0],
            ),
    ensures
        params.apply_all(tokens) == Ok::<Params, Error>(params),
    decreases tokens.len(),
{
    if tokens.len() > 0 {
        assert(tokens[0].len() > 0 && !is_read_tag(tokens[0][0]));
        let rest = tokens.drop_first();
        assert forall|i: int| 0 <= i < rest.len() implies (#[trigger] rest[i]).len() > 0
            && !is_read_tag(rest[i][0]) by {
            assert(rest[i] == tokens[i + 1]);
        }
        lemma_apply_all_passes(params, rest);
    }
}

/// Whether `tag` is the tag of a token that the decoder reads: one of `W`,
/// `H`, `F`, `A` and `C`.
pub open spec fn is_read_tag(tag: u8) -> bool {
    tag == TAG_WIDTH || tag == TAG_HEIGHT || tag == TAG_FRAMERATE || tag == TAG_ASPECT || tag
        == TAG_COLORSPACE
}

/// What a prologue declares.
pub struct HeaderView {
    /// The width of a frame in pixels.
    pub width: nat,
    /// The height of a frame in pixels.
    pub height: nat,
    /// The frame rate.
    pub framerate: Ratio,
    /// The pixel aspect.
    pub pixel_aspect: Ratio,
    /// The colorspace.
    pub colorspace: Colorspace,
    /// The header line after the magic, as it stood in the stream.
    pub raw_params: Seq<u8>,
}

impl HeaderView {
    /// The sizes of the planes of a frame of this stream.
    pub open spec fn plane_sizes(self) -> (nat, nat, nat) {
        plane_sizes(self.width, self.height, self.colorspace)
    }

    /// The size of a frame of this stream.
    pub open spec fn frame_size(self) -> nat {
        frame_size(self.width, self.height, self.colorspace)
    }
}

/// What a header line declares. The line comes without its terminator. It
/// must start with the magic; the rest is the raw parameter string. Width
/// and height must both have been set to something other than zero. Where
/// no colorspace is named it is 4:2:0. A frame larger than `limit` bytes is
/// refused.
pub open spec fn header_of_line(line: Seq<u8>, limit: nat) -> Result<HeaderView, Error> {
    if !file_magic().is_prefix_of(line) {
        Err(Error::ParseError(ParseError::InvalidY4M))
    } else {
        let raw_params = line.skip(file_magic().len() as int);
        match Params::of_raw(raw_params) {
            Err(err) => Err(err),
            Ok(params) => {
                let colorspace = match params.colorspace {
                    Some(colorspace) => colorspace,
                    None => Colorspace::C420,
                };
                if params.width == 0 || params.height == 0 {
                    Err(Error::ParseError(ParseError::General))
                } else if frame_size(params.width as nat, params.height as nat, colorspace)
                    > limit {
                    Err(Error::OutOfMemory)
                } else {
                    Ok(
                        HeaderView {
                            width: params.width as nat,
                            height: params.height as nat,
                            framerate: params.framerate,
                            pixel_aspect: params.pixel_aspect,
                            colorspace,
                            raw_params,
                        },
                    )
                }
            },
        }
    }
}

/// What the prologue at the start of `stream` declares.
pub open spec fn prologue(stream: Seq<u8>, limit: nat) -> Result<HeaderView, Error> {
    match line_end(stream) {
        Err(err) => Err(err),
        Ok(end) => header_of_line(stream.take(end as int), limit),
    }
}

/// The typed configuration of a stream, with the plane sizes that follow
/// from it.
#[derive(Debug)]
pub struct Header {
    width: usize,
    height: usize,
    framerate: Ratio,
    pixel_aspect: Ratio,
    colorspace: Colorspace,
    raw_params: Vec<u8>,
    y_len: usize,
    u_len: usize,
    v_len: usize,
}

impl View for Header {
    type V = HeaderView;

    closed spec fn view(&self) -> HeaderView {
        HeaderView {
            width: self.width as nat,
            height: self.height as nat,
            framerate: self.framerate,
            pixel_aspect: self.pixel_aspect,
            colorspace: self.colorspace,
            raw_params: self.raw_params@,
        }
    }
}

impl Header {
    #[verifier::type_invariant]
    spec fn well_formed(&self) -> bool {
        &&& self.width > 0
        &&& self.height > 0
        &&& frame_size(self.width as nat, self.height as nat, self.colorspace) <= usize::MAX
        &&& (self.y_len as nat, self.u_len as nat, self.v_len as nat) == plane_sizes(
            self.width as nat,
            self.height as nat,
            self.colorspace,
        )
    }

    /// Reads a header line, which comes without its terminator.
    pub fn parse(line: &[u8], limits: Limits) -> (res: Result<Header, Error>)
        ensures
            match header_of_line(line@, limits.bytes as nat) {
                Ok(header) => res is Ok && res->Ok_0@ == header,
                Err(err) => res is Err && res->Err_0 == err,
            },
    {
        proof {
            lemma_magics();
        }
        let magic = file_magic_bytes();
        if !starts_with(line, magic) {
            return Err(Error::ParseError(ParseError::InvalidY4M));
        }
        let raw_params = copy_range(line, magic.len(), line.len());
        assert(raw_params@ =~= line@.skip(file_magic().len() as int));
        let params = match Params::parse(raw_params.as_slice()) {
            Ok(params) => params,
            Err(err) => {
                return Err(err);
            },
        };
        let colorspace = match params.colorspace {
            Some(colorspace) => colorspace,
            None => Colorspace::C420,
        };
        if params.width == 0 || params.height == 0 {
            return Err(Error::ParseError(ParseError::General));
        }
        let (y_len, u_len, v_len) = match checked_plane_sizes(
            params.width,
            params.height,
            colorspace,
        ) {
            Some(sizes) => sizes,
            None => {
                return Err(Error::OutOfMemory);
            },
        };
        let frame_size: usize = y_len + u_len + v_len;
        if frame_size > limits.bytes {
            return Err(Error::OutOfMemory);
        }
        Ok(
            Header {
                width: params.width,
                height: params.height,
                framerate: params.framerate,
                pixel_aspect: params.pixel_aspect,
                colorspace,
                raw_params,
                y_len,
                u_len,
                v_len,
            },
        )
    }

    /// Return file width.
    #[inline]
    pub fn get_width(&self) -> (width: usize)
        ensures
            width == self@.width,
            width > 0,
    {
        proof {
            use_type_invariant(self);
        }
        self.width
    }

    /// Return file height.
    #[inline]
    pub fn get_height(&self) -> (height: usize)
        ensures
            height == self@.height,
            height > 0,
    {
        proof {
            use_type_invariant(self);
        }
        self.height
    }

    /// Return file framerate.
    #[inline]
    pub fn get_framerate(&self) -> (framerate: Ratio)
        ensures
            framerate == self@.framerate,
    {
        self.framerate
    }

    /// Return file pixel aspect.
    #[inline]
    pub fn get_pixel_aspect(&self) -> (pixel_aspect: Ratio)
        ensures
            pixel_aspect == self@.pixel_aspect,
    {
        self.pixel_aspect
    }

    /// Return file colorspace.
    ///
    /// Normally a stream names its colorspace. Where it does not, 4:2:0 is
    /// implied, as other readers do.
    #[inline]
    pub fn get_colorspace(&self) -> (colorspace: Colorspace)
        ensures
            colorspace == self@.colorspace,
    {
        self.colorspace
    }

    /// Return file raw parameters.
    #[inline]
    pub fn get_raw_params(&self) -> (raw_params: &[u8])
        ensures
            raw_params@ == self@.raw_params,
    {
        self.raw_params.as_slice()
    }

    /// Return the bit depth per sample.
    #[inline]
    pub fn get_bit_depth(&self) -> (bits: usize)
        ensures
            bits == self@.colorspace.bit_depth(),
    {
        self.colorspace.get_bit_depth()
    }

    /// Return the number of bytes in a sample.
    #[inline]
    pub fn get_bytes_per_sample(&self) -> (bytes: usize)
        ensures
            bytes == self@.colorspace.bytes_per_sample(),
    {
        self.colorspace.get_bytes_per_sample()
    }

    /// Return the sizes of the Y, U and V planes of a frame.
    pub fn get_plane_sizes(&self) -> (sizes: (usize, usize, usize))
        ensures
            sizes.0 == self@.plane_sizes().0,
            sizes.1 == self@.plane_sizes().1,
            sizes.2 == self@.plane_sizes().2,
    {
        proof {
            use_type_invariant(self);
        }
        (self.y_len, self.u_len, self.v_len)
    }

    /// Return the size of a frame: the sum of its plane sizes.
    pub fn get_frame_size(&self) -> (size: usize)
        ensures
            size == self@.frame_size(),
    {
        proof {
            use_type_invariant(self);
        }
        self.y_len + self.u_len + self.v_len
    }

    /// Cuts a buffer that holds one frame of this stream into its planes.
    pub fn frame<'a>(&self, buf: &'a [u8], raw_params: Option<Vec<u8>>) -> (frame: Frame<'a>)
        requires
            buf@.len() == self@.frame_size(),
        ensures
            frame@.y == planes_of(
                buf@,
                self@.plane_sizes().0,
                self@.plane_sizes().1,
                self@.plane_sizes().2,
            ).0,
            frame@.u == planes_of(
                buf@,
                self@.plane_sizes().0,
                self@.plane_sizes().1,
                self@.plane_sizes().2,
            ).1,
            frame@.v == planes_of(
                buf@,
                self@.plane_sizes().0,
                self@.plane_sizes().1,
                self@.plane_sizes().2,
            ).2,
            frame@.raw_params == params_view(raw_params),
            frame@.y + frame@.u + frame@.v == buf@,
    {
        proof {
            use_type_invariant(self);
        }
        split_planes(buf, self.y_len, self.u_len, self.v_len, raw_params)
    }
}

/// Whether one of `tokens` has the tag `tag`.
pub open spec fn has_tag(tokens: Seq<Seq<u8>>, tag: u8) -> bool {
    exists|i: int| 0 <= i < tokens.len() && (#[trigger] tokens[i]).len() > 0 && tokens[i][0] == tag
}

/// A parameter stays as it is over a run of tokens that has no token for
/// it.
proof fn lemma_parameter_needs_token(params: Params, tokens: Seq<Seq<u8>>)
    ensures
        params.apply_all(tokens) matches Ok(next) ==> {
            &&& !has_tag(tokens, TAG_WIDTH) ==> next.width == params.width
            &&& !has_tag(tokens, TAG_HEIGHT) ==> next.height == params.height
            &&& !has_tag(tokens, TAG_FRAMERATE) ==> next.framerate == params.framerate
            &&& !has_tag(tokens, TAG_ASPECT) ==> next.pixel_aspect == params.pixel_aspect
            &&& !has_tag(tokens, TAG_COLORSPACE) ==> next.colorspace == params.colorspace
        },
    decreases tokens.len(),
{
    if tokens.len() > 0 {
        let rest = tokens.drop_first();
        assert forall|tag: u8| has_tag(rest, tag) implies has_tag(tokens, tag) by {
            let i = choose|i: int| 0 <= i < rest.len() && (#[trigger] rest[i]).len() > 0 && rest[i][0]
                == tag;
            assert(tokens[i + 1] == rest[i]);
        }
        assert(tokens[0].len() > 0 ==> has_tag(tokens, tokens[0][0]));
        match params.apply(tokens[0]) {
            Ok(next) => {
                lemma_parameter_needs_token(next, rest);
            },
            Err(_) => {},
        }
    }
}

/// A header line that is accepted and has no frame rate token declares 25
/// frames a second; one without a pixel aspect token declares square
/// pixels; one without a colorspace token declares 4:2:0.
pub proof fn lemma_defaults(line: Seq<u8>, limit: nat)
    requires
        header_of_line(line, limit) is Ok,
    ensures
        !has_tag(split(line.skip(file_magic().len() as int), FIELD_SEP), TAG_FRAMERATE)
            ==> header_of_line(line, limit)->Ok_0.framerate == (Ratio { num: 25, den: 1 }),
        !has_tag(split(line.skip(file_magic().len() as int), FIELD_SEP), TAG_ASPECT)
            ==> header_of_line(line, limit)->Ok_0.pixel_aspect == (Ratio { num: 1, den: 1 }),
        !has_tag(split(line.skip(file_magic().len() as int), FIELD_SEP), TAG_COLORSPACE)
            ==> header_of_line(line, limit)->Ok_0.colorspace == Colorspace::C420,
{
    lemma_parameter_needs_token(
        Params::initial(),
        split(line.skip(file_magic().len() as int), FIELD_SEP),
    );
}

/// A header line without a width token, or without a height token, is not
/// accepted. Where it has the magic and each of its tokens is in order, the
/// error is a general parse error.
pub proof fn lemma_missing_dimension(line: Seq<u8>, limit: nat)
    requires
        !has_tag(split(line.skip(file_magic().len() as int), FIELD_SEP), TAG_WIDTH) || !has_tag(
            split(line.skip(file_magic().len() as int), FIELD_SEP),
            TAG_HEIGHT,
        ),
    ensures
        header_of_line(line, limit) is Err,
        file_magic().is_prefix_of(line) && Params::of_raw(line.skip(file_magic().len() as int))
            is Ok ==> header_of_line(line, limit) == Err::<HeaderView, Error>(
            Error::ParseError(ParseError::General),
        ),
{
    lemma_parameter_needs_token(
        Params::initial(),
        split(line.skip(file_magic().len() as int), FIELD_SEP),
    );
}

/// A header line that names a colorspace which is not in the table is
/// refused as an unknown colorspace, provided it has the magic and the
/// tokens before that name are in order.
pub proof fn lemma_unknown_colorspace(line: Seq<u8>, limit: nat, at: int)
    requires
        file_magic().is_prefix_of(line),
        0 <= at < split(line.skip(file_magic().len() as int), FIELD_SEP).len(),
        Params::initial().apply_all(
            split(line.skip(file_magic().len() as int), FIELD_SEP).take(at),
        ) is Ok,
        split(line.skip(file_magic().len() as int), FIELD_SEP)[at].len() > 0,
        split(line.skip(file_magic().len() as int), FIELD_SEP)[at][0] == TAG_COLORSPACE,
        Colorspace::with_tag(
            split(line.skip(file_magic().len() as int), FIELD_SEP)[at].drop_first(),
        ) is None,
    ensures
        header_of_line(line, limit) == Err::<HeaderView, Error>(Error::UnknownColorspace),
{
    let tokens = split(line.skip(file_magic().len() as int), FIELD_SEP);
    lemma_apply_all_concat(Params::initial(), tokens.take(at), tokens.skip(at));
    assert(tokens.take(at) + tokens.skip(at) =~= tokens);
    assert(tokens.skip(at)[0] == tokens[at]);
}

/// A stream whose first `MAX_PARAMS_SIZE` bytes hold no terminator has no
/// prologue: reading one is a general parse error.
pub proof fn lemma_unterminated_prologue(stream: Seq<u8>, limit: nat)
    requires
        stream.len() >= MAX_PARAMS_SIZE,
        forall|j: int| 0 <= j < MAX_PARAMS_SIZE ==> stream[j] != TERMINATOR,
    ensures
        prologue(stream, limit) == Err::<HeaderView, Error>(Error::ParseError(ParseError::General)),
{
    lemma_unterminated_line(stream);
}

} // verus!

//! What is written can be read back.
//!
//! The laws here relate the bytes that the encoder writes to what the
//! decoder reads from them. They are stated over the same functions as the
//! contracts of `EncoderBuilder::write_header`, `Encoder::write_frame`,
//! `Decoder::new_with_limits` and `Decoder::read_frame`.

use vstd::prelude::*;
use crate::bytes::{
    file_magic, frame_magic, join, lemma_concat_lacks, lemma_first_index_of_is, lemma_join_lacks,
    lemma_magics, lemma_split_join, FIELD_SEP, MAX_PARAMS_SIZE, TERMINATOR,
};
use crate::colorspace::{lemma_tag_is_alphanumeric, lemma_tags_differ, Colorspace};
use crate::decimal::{
    decimal_digits, lemma_decimal_digits_lack, lemma_decimal_digits_len, lemma_decimal_round_trip,
};
use crate::encoder::{
    header_line, header_tokens, leading_tokens, lemma_join_push, vendor_tokens, BuilderView,
};
use crate::error::Error;
use crate::frame::{
    first_frame, first_frame_used, frame_header, frame_params, frame_record, planes_of, FrameView,
};
use crate::header::{
    lemma_apply_all_concat, lemma_apply_all_passes, lemma_apply_all_push, prologue, HeaderView,
    Params, TAG_ASPECT, TAG_COLORSPACE, TAG_FRAMERATE, TAG_HEIGHT, TAG_WIDTH,
};
use crate::layout::frame_size;
use crate::ratio::{lemma_ratio_round_trip, lemma_rendered_lacks, lemma_rendered_len, Ratio};
use crate::scan::{line_end, line_used};

verus! {

/// Whether `config` can be written as a prologue that a decoder accepts
/// under `limit`: width and height are not zero and fit a machine word, the
/// frame is within the limit, no vendor extension holds a space or a
/// terminator, and the line with its terminator is no longer than
/// `MAX_PARAMS_SIZE`.
pub open spec fn readable(config: BuilderView, limit: nat) -> bool {
    &&& 0 < config.width <= usize::MAX
    &&& 0 < config.height <= usize::MAX
    &&& frame_size(config.width, config.height, config.colorspace) <= limit
    &&& forall|i: int|
        0 <= i < config.vendor_extensions.len() ==> {
            &&& !(#[trigger] config.vendor_extensions[i]).contains(FIELD_SEP)
            &&& !config.vendor_extensions[i].contains(TERMINATOR)
        }
    &&& header_line(config).len() <= MAX_PARAMS_SIZE
}

/// What a decoder makes of the prologue that was written for `config`.
pub open spec fn declared(config: BuilderView) -> HeaderView {
    HeaderView {
        width: config.width,
        height: config.height,
        framerate: config.framerate,
        pixel_aspect: config.pixel_aspect,
        colorspace: config.colorspace,
        raw_params: join(header_tokens(config), FIELD_SEP),
    }
}

/// A configuration without vendor extensions whose width and height are
/// not zero and whose frame is within `limit` can always be written as a
/// prologue that a decoder accepts: its header line has at most 150 bytes.
pub proof fn lemma_plain_config_is_readable(config: BuilderView, limit: nat)
    requires
        0 < config.width <= usize::MAX,
        0 < config.height <= usize::MAX,
        frame_size(config.width, config.height, config.colorspace) <= limit,
        config.vendor_extensions.len() == 0,
    ensures
        readable(config, limit),
        header_line(config).len() <= 150,
{
    let width = seq![TAG_WIDTH] + decimal_digits(config.width);
    let height = seq![TAG_HEIGHT] + decimal_digits(config.height);
    let rate = seq![TAG_FRAMERATE] + config.framerate.rendered();
    let aspect = seq![TAG_ASPECT] + config.pixel_aspect.rendered();
    let name = seq![TAG_COLORSPACE] + config.colorspace.tag();
    let none = Seq::<Seq<u8>>::empty();
    let fixed = none.push(width).push(height).push(rate);
    lemma_magics();
    lemma_decimal_digits_len(config.width);
    lemma_decimal_digits_len(config.height);
    lemma_rendered_len(config.framerate);
    lemma_rendered_len(config.pixel_aspect);
    lemma_tag_is_alphanumeric(config.colorspace);
    assert(join(none.push(width), FIELD_SEP) == width);
    lemma_join_push(none.push(width), height);
    lemma_join_push(none.push(width).push(height), rate);
    assert(seq![width, height, rate] =~= fixed);
    assert(join(fixed, FIELD_SEP).len() <= 21 + 1 + 21 + 1 + 42);
    let leading = leading_tokens(config);
    if leading.len() == 3 {
        assert(leading == fixed);
    } else {
        assert(leading == fixed.push(aspect));
        lemma_join_push(fixed, aspect);
    }
    assert(join(leading, FIELD_SEP).len() <= 86 + 1 + 42);
    assert(header_tokens(config) =~= leading.push(name));
    lemma_join_push(leading, name);
    assert(join(header_tokens(config), FIELD_SEP).len() <= 129 + 1 + 9);
}

/// No token of a prologue holds a space or a terminator.
proof fn lemma_tokens_are_clean(config: BuilderView, byte: u8)
    requires
        byte == FIELD_SEP || byte == TERMINATOR,
        forall|i: int|
            0 <= i < config.vendor_extensions.len() ==> !(#[trigger]
                config.vendor_extensions[i]).contains(byte),
    ensures
        forall|i: int|
            0 <= i < header_tokens(config).len() ==> !(#[trigger]
                header_tokens(config)[i]).contains(byte),
        header_tokens(config).len() >= 1,
{
    let tokens = header_tokens(config);
    let leading = leading_tokens(config);
    let vendor = vendor_tokens(config.vendor_extensions);
    lemma_decimal_digits_lack(config.width, byte);
    lemma_decimal_digits_lack(config.height, byte);
    lemma_rendered_lacks(config.framerate, byte);
    lemma_rendered_lacks(config.pixel_aspect, byte);
    lemma_tag_is_alphanumeric(config.colorspace);
    assert forall|i: int| 0 <= i < tokens.len() implies !(#[trigger] tokens[i]).contains(byte) by {
        let token = tokens[i];
        if token.contains(byte) {
            let k = choose|k: int| 0 <= k < token.len() && token[k] == byte;
            if i < leading.len() {
                assert(token == leading[i]);
                assert(k > 0);
                assert(token.drop_first()[k - 1] == byte);
                if i == 0 {
                    assert(token.drop_first() =~= decimal_digits(config.width));
                } else if i == 1 {
                    assert(token.drop_first() =~= decimal_digits(config.height));
                } else if i == 2 {
                    assert(token.drop_first() =~= config.framerate.rendered());
                } else {
                    assert(token.drop_first() =~= config.pixel_aspect.rendered());
                }
            } else if i < leading.len() + vendor.len() {
                let extension = config.vendor_extensions[i - leading.len()];
                assert(token == vendor[i - leading.len()]);
                assert(token.drop_first() =~= extension);
                assert(k > 0);
                assert(extension[k - 1] == byte);
            } else {
                assert(token.drop_first() =~= config.colorspace.tag());
                assert(k > 0);
                assert(config.colorspace.tag()[k - 1] == byte);
            }
        }
    }
}

/// A width or height token sets the number that was written into it.
proof fn lemma_number_token(params: Params, n: nat)
    requires
        n <= usize::MAX,
    ensures
        params.apply(seq![TAG_WIDTH] + decimal_digits(n)) == Ok::<Params, Error>(
            Params { width: n as usize, ..params },
        ),
        params.apply(seq![TAG_HEIGHT] + decimal_digits(n)) == Ok::<Params, Error>(
            Params { height: n as usize, ..params },
        ),
{
    lemma_decimal_round_trip(n);
    assert((seq![TAG_WIDTH] + decimal_digits(n)).drop_first() =~= decimal_digits(n));
    assert((seq![TAG_HEIGHT] + decimal_digits(n)).drop_first() =~= decimal_digits(n));
}

/// A frame rate or pixel aspect token sets the ratio that was written into
/// it.
proof fn lemma_ratio_token(params: Params, ratio: Ratio)
    ensures
        params.apply(seq![TAG_FRAMERATE] + ratio.rendered()) == Ok::<Params, Error>(
            Params { framerate: ratio, ..params },
        ),
        params.apply(seq![TAG_ASPECT] + ratio.rendered()) == Ok::<Params, Error>(
            Params { pixel_aspect: ratio, ..params },
        ),
{
    lemma_ratio_round_trip(ratio);
    assert((seq![TAG_FRAMERATE] + ratio.rendered()).drop_first() =~= ratio.rendered());
    assert((seq![TAG_ASPECT] + ratio.rendered()).drop_first() =~= ratio.rendered());
}

/// A colorspace token sets the colorspace whose name was written into it.
proof fn lemma_colorspace_token(params: Params, colorspace: Colorspace)
    ensures
        params.apply(seq![TAG_COLORSPACE] + colorspace.tag()) == Ok::<Params, Error>(
            Params { colorspace: Some(colorspace), ..params },
        ),
{
    lemma_tags_differ();
    assert((seq![TAG_COLORSPACE] + colorspace.tag()).drop_first() =~= colorspace.tag());
}

/// The leading tokens of a prologue set width, height, frame rate and pixel
/// aspect.
proof fn lemma_leading_tokens_set(config: BuilderView)
    requires
        config.width <= usize::MAX,
        config.height <= usize::MAX,
    ensures
        Params::initial().apply_all(leading_tokens(config)) == Ok::<Params, Error>(
            Params {
                width: config.width as usize,
                height: config.height as usize,
                framerate: config.framerate,
                pixel_aspect: config.pixel_aspect,
                colorspace: None,
            },
        ),
{
    let start = Params::initial();
    let with_width = Params { width: config.width as usize, ..start };
    let with_height = Params { height: config.height as usize, ..with_width };
    let with_rate = Params { framerate: config.framerate, ..with_height };
    let width = seq![TAG_WIDTH] + decimal_digits(config.width);
    let height = seq![TAG_HEIGHT] + decimal_digits(config.height);
    let rate = seq![TAG_FRAMERATE] + config.framerate.rendered();
    let aspect = seq![TAG_ASPECT] + config.pixel_aspect.rendered();
    let none = Seq::<Seq<u8>>::empty();
    lemma_number_token(start, config.width);
    lemma_number_token(with_width, config.height);
    lemma_ratio_token(with_height, config.framerate);
    lemma_ratio_token(with_rate, config.pixel_aspect);
    lemma_apply_all_push(start, none, width);
    lemma_apply_all_push(start, none.push(width), height);
    lemma_apply_all_push(start, none.push(width).push(height), rate);
    lemma_apply_all_push(start, none.push(width).push(height).push(rate), aspect);
    assert(seq![width, height, rate] =~= none.push(width).push(height).push(rate));
}

/// The tokens of a prologue set what the prologue was written for.
proof fn lemma_tokens_set_config(config: BuilderView)
    requires
        config.width <= usize::MAX,
        config.height <= usize::MAX,
    ensures
        Params::initial().apply_all(header_tokens(config)) == Ok::<Params, Error>(
            Params {
                width: config.width as usize,
                height: config.height as usize,
                framerate: config.framerate,
                pixel_aspect: config.pixel_aspect,
                colorspace: Some(config.colorspace),
            },
        ),
{
    let leading = leading_tokens(config);
    let vendor = vendor_tokens(config.vendor_extensions);
    let last = seq![TAG_COLORSPACE] + config.colorspace.tag();
    let start = Params::initial();
    let set = Params {
        width: config.width as usize,
        height: config.height as usize,
        framerate: config.framerate,
        pixel_aspect: config.pixel_aspect,
        colorspace: None,
    };
    lemma_leading_tokens_set(config);
    lemma_apply_all_passes(set, vendor);
    lemma_colorspace_token(set, config.colorspace);
    lemma_apply_all_concat(start, leading, vendor);
    lemma_apply_all_push(start, leading + vendor, last);
    assert(header_tokens(config) =~= (leading + vendor).push(last));
}

/// A decoder that is given the prologue written for a configuration,
/// followed by anything, reads that configuration from it and stops right
/// behind the prologue.
pub proof fn lemma_prologue_round_trip(config: BuilderView, rest: Seq<u8>, limit: nat)
    requires
        readable(config, limit),
    ensures
        prologue(header_line(config) + rest, limit) == Ok::<HeaderView, Error>(declared(config)),
        line_used(header_line(config) + rest) == header_line(config).len(),
{
    let tokens = header_tokens(config);
    let joined = join(tokens, FIELD_SEP);
    let line = file_magic() + joined;
    let stream = header_line(config) + rest;
    lemma_magics();
    lemma_tokens_are_clean(config, TERMINATOR);
    lemma_tokens_are_clean(config, FIELD_SEP);
    lemma_join_lacks(tokens, FIELD_SEP, TERMINATOR);
    lemma_concat_lacks(file_magic(), joined, TERMINATOR);
    assert forall|j: int| 0 <= j < line.len() implies stream[j] != TERMINATOR by {
        assert(stream[j] == line[j]);
    }
    assert(stream[line.len() as int] == TERMINATOR);
    lemma_first_index_of_is(stream, TERMINATOR, line.len() as int);
    assert(line_end(stream) == Ok::<nat, Error>(line.len()));
    assert(stream.take(line.len() as int) =~= line);
    assert(file_magic().is_prefix_of(line));
    assert(line.skip(file_magic().len() as int) =~= joined);
    lemma_split_join(tokens, FIELD_SEP);
    lemma_tokens_set_config(config);
}

/// Whether `frame` can be written as a record that a decoder accepts: its
/// raw parameters hold no terminator, and its header line with the
/// terminator is no longer than `MAX_PARAMS_SIZE`.
pub open spec fn recordable(frame: FrameView) -> bool {
    &&& frame.raw_params matches Some(bytes) ==> !bytes.contains(TERMINATOR)
    &&& frame_header(frame.raw_params).len() <= MAX_PARAMS_SIZE
}

/// A decoder that is given the record written for a frame, followed by
/// anything, reads that frame from it, plane for plane and with its raw
/// parameters, and stops right behind the record.
pub proof fn lemma_frame_round_trip(frame: FrameView, rest: Seq<u8>)
    requires
        recordable(frame),
    ensures
        first_frame(frame_record(frame) + rest, frame.y.len(), frame.u.len(), frame.v.len())
            == Ok::<FrameView, Error>(frame),
        first_frame_used(frame_record(frame) + rest, frame.y.len(), frame.u.len(), frame.v.len())
            == frame_record(frame).len(),
{
    lemma_magics();
    let stream = frame_record(frame) + rest;
    let header = frame_header(frame.raw_params);
    let line = header.drop_last();
    assert forall|j: int| 0 <= j < line.len() implies stream[j] != TERMINATOR by {
        assert(stream[j] == header[j]);
        match frame.raw_params {
            Some(bytes) => {
                if j > 5 {
                    assert(header[j] == bytes[j - 6]);
                }
            },
            None => {},
        }
    }
    assert(stream[line.len() as int] == header[line.len() as int]);
    lemma_first_index_of_is(stream, TERMINATOR, line.len() as int);
    assert(line_end(stream) == Ok::<nat, Error>(line.len()));
    assert(stream.take(line.len() as int) =~= line);
    assert(frame_magic().is_prefix_of(line)) by {
        assert(line.subrange(0, 5) =~= frame_magic());
    }
    match frame.raw_params {
        Some(bytes) => {
            assert(line[5] == FIELD_SEP);
            assert(line.skip(6) =~= bytes);
        },
        None => {},
    }
    assert(frame_params(line) == Ok::<Option<Seq<u8>>, Error>(frame.raw_params));
    let body = stream.skip(line.len() + 1 as int);
    assert(body =~= frame.y + frame.u + frame.v + rest);
    let (y, u, v) = planes_of(body, frame.y.len(), frame.u.len(), frame.v.len());
    assert(y =~= frame.y);
    assert(u =~= frame.u);
    assert(v =~= frame.v);
}

/// The records of a run of frames, one behind the other.
pub open spec fn records(frames: Seq<FrameView>) -> Seq<u8>
    decreases frames.len(),
{
    if frames.len() == 0 {
        Seq::empty()
    } else {
        frame_record(frames[0]) + records(frames.drop_first())
    }
}

/// What is left of `stream` once `count` frames have been read from it, one
/// after the other, each read taking what `first_frame_used` says.
pub open spec fn after_frames(stream: Seq<u8>, y_len: nat, u_len: nat, v_len: nat, count: nat) -> Seq<
    u8,
>
    decreases count,
{
    if count == 0 {
        stream
    } else {
        let rest = after_frames(stream, y_len, u_len, v_len, (count - 1) as nat);
        rest.skip(first_frame_used(rest, y_len, u_len, v_len) as int)
    }
}

/// Whether every frame of `frames` can be written as a record and has
/// planes of the given sizes.
pub open spec fn all_recordable(frames: Seq<FrameView>, y_len: nat, u_len: nat, v_len: nat) -> bool {
    forall|i: int|
        0 <= i < frames.len() ==> {
            &&& recordable(#[trigger] frames[i])
            &&& frames[i].y.len() == y_len
            &&& frames[i].u.len() == u_len
            &&& frames[i].v.len() == v_len
        }
}

/// Reading `count` frames from the records of a run of frames leaves the
/// records of the frames behind them.
proof fn lemma_after_frames(frames: Seq<FrameView>, y_len: nat, u_len: nat, v_len: nat, count: nat)
    requires
        all_recordable(frames, y_len, u_len, v_len),
        count <= frames.len(),
    ensures
        after_frames(records(frames), y_len, u_len, v_len, count) == records(
            frames.skip(count as int),
        ),
    decreases count,
{
    if count == 0 {
        assert(frames.skip(0) =~= frames);
    } else {
        lemma_after_frames(frames, y_len, u_len, v_len, (count - 1) as nat);
        let left = frames.skip(count - 1);
        assert(left[0] == frames[count - 1]);
        assert(left.drop_first() =~= frames.skip(count as int));
        lemma_frame_round_trip(left[0], records(left.drop_first()));
        assert(records(left).skip(frame_record(left[0]).len() as int) =~= records(
            left.drop_first(),
        ));
    }
}

/// A stream that was written can be read back: a decoder that is given the
/// prologue for a configuration and the records of a run of frames reads
/// that configuration, then the frames in their order, each with the planes
/// and raw parameters that were written, and then finds the end of the
/// stream.
pub proof fn lemma_stream_round_trip(config: BuilderView, frames: Seq<FrameView>, limit: nat)
    requires
        readable(config, limit),
        all_recordable(
            frames,
            declared(config).plane_sizes().0,
            declared(config).plane_sizes().1,
            declared(config).plane_sizes().2,
        ),
    ensures
        prologue(header_line(config) + records(frames), limit) == Ok::<HeaderView, Error>(
            declared(config),
        ),
        (header_line(config) + records(frames)).skip(
            line_used(header_line(config) + records(frames)) as int,
        ) == records(frames),
        forall|k: nat|
            k < frames.len() ==> first_frame(
                #[trigger] after_frames(
                    records(frames),
                    declared(config).plane_sizes().0,
                    declared(config).plane_sizes().1,
                    declared(config).plane_sizes().2,
                    k,
                ),
                declared(config).plane_sizes().0,
                declared(config).plane_sizes().1,
                declared(config).plane_sizes().2,
            ) == Ok::<FrameView, Error>(frames[k as int]),
        first_frame(
            after_frames(
                records(frames),
                declared(config).plane_sizes().0,
                declared(config).plane_sizes().1,
                declared(config).plane_sizes().2,
                frames.len(),
            ),
            declared(config).plane_sizes().0,
            declared(config).plane_sizes().1,
            declared(config).plane_sizes().2,
        ) == Err::<FrameView, Error>(Error::EOF),
{
    let sizes = declared(config).plane_sizes();
    let stream = header_line(config) + records(frames);
    lemma_prologue_round_trip(config, records(frames), limit);
    assert(stream.skip(header_line(config).len() as int) =~= records(frames));
    assert forall|k: nat| k < frames.len() implies first_frame(
        #[trigger] after_frames(records(frames), sizes.0, sizes.1, sizes.2, k),
        sizes.0,
        sizes.1,
        sizes.2,
    ) == Ok::<FrameView, Error>(frames[k as int]) by {
        lemma_after_frames(frames, sizes.0, sizes.1, sizes.2, k);
        let left = frames.skip(k as int);
        assert(left[0] == frames[k as int]);
        lemma_frame_round_trip(left[0], records(left.drop_first()));
    }
    lemma_after_frames(frames, sizes.0, sizes.1, sizes.2, frames.len());
    assert(frames.skip(frames.len() as int) =~= Seq::<FrameView>::empty());
    assert(line_end(Seq::<u8>::empty()) == Err::<nat, Error>(Error::EOF));
}

} // verus!

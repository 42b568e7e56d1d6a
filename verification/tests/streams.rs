use y4m::frame::parse_frame_header;
use y4m::{
    decode, encode, Colorspace, Decoder, Encoder, EncoderBuilder, Error, Frame, Limits, ParseError,
    Ratio, VendorExtensionString,
};

fn written(builder: EncoderBuilder) -> Vec<u8> {
    builder.write_header(Vec::new()).unwrap().into_inner()
}

#[test]
fn decodes_one_frame_then_reports_eof() {
    let mut stream: Vec<u8> = b"YUV4MPEG2 W2 H2 F25:1 C420\nFRAME\n".to_vec();
    stream.extend_from_slice(&[1, 2, 3, 4, 5, 6]);
    let mut decoder = decode(&stream).unwrap();
    assert_eq!(decoder.get_width(), 2);
    assert_eq!(decoder.get_height(), 2);
    assert_eq!(decoder.get_framerate(), Ratio::new(25, 1));
    assert_eq!(decoder.get_pixel_aspect(), Ratio::new(1, 1));
    assert_eq!(decoder.get_colorspace(), Colorspace::C420);
    assert_eq!(decoder.get_bit_depth(), 8);
    assert_eq!(decoder.get_bytes_per_sample(), 1);
    assert_eq!(decoder.get_raw_params(), b"W2 H2 F25:1 C420");
    {
        let frame = decoder.read_frame().unwrap();
        assert_eq!(frame.get_y_plane().len(), 4);
        assert_eq!(frame.get_u_plane().len(), 1);
        assert_eq!(frame.get_v_plane().len(), 1);
        assert_eq!(frame.get_y_plane(), &[1, 2, 3, 4]);
        assert_eq!(frame.get_u_plane(), &[5]);
        assert_eq!(frame.get_v_plane(), &[6]);
        assert!(frame.get_raw_params().is_none());
    }
    assert!(matches!(decoder.read_frame(), Err(Error::EOF)));
    assert!(matches!(decoder.read_frame(), Err(Error::EOF)));
}

#[test]
fn limit_is_checked_when_the_decoder_is_made() {
    let stream = b"YUV4MPEG2 W1000 H1000 C444\n";
    let res = Decoder::new_with_limits(&stream[..], Limits { bytes: 10 });
    assert!(matches!(res, Err(Error::OutOfMemory)));
    let res = Decoder::new_with_limits(&stream[..], Limits { bytes: 3_000_000 });
    assert!(res.is_ok());
    assert!(Decoder::new(&stream[..]).is_ok());
    let big = b"YUV4MPEG2 W100000 H100000 C444\n";
    assert!(matches!(Decoder::new(&big[..]), Err(Error::OutOfMemory)));
}

#[test]
fn prologue_without_terminator_in_1024_bytes_is_a_parse_error() {
    let mut stream = b"YUV4MPEG2 W2 H2 X".to_vec();
    stream.resize(1024, b'x');
    assert!(matches!(decode(&stream), Err(Error::ParseError(ParseError::General))));
    stream.push(b'\n');
    assert!(matches!(decode(&stream), Err(Error::ParseError(ParseError::General))));
    stream.extend_from_slice(b"FRAME\n123456");
    assert!(matches!(decode(&stream), Err(Error::ParseError(ParseError::General))));
}

#[test]
fn prologue_of_1023_bytes_is_read() {
    let mut stream = b"YUV4MPEG2 W2 H2 X".to_vec();
    stream.resize(1023, b'x');
    stream.push(b'\n');
    let decoder = decode(&stream).unwrap();
    assert_eq!(decoder.get_raw_params().len(), 1013);
}

#[test]
fn stream_that_ends_in_the_prologue_is_eof() {
    assert!(matches!(decode(b""), Err(Error::EOF)));
    assert!(matches!(decode(b"YUV4MPEG2 W2 H2"), Err(Error::EOF)));
    let stream = vec![b'x'; 1023];
    assert!(matches!(decode(&stream), Err(Error::EOF)));
}

#[test]
fn prologue_errors_come_through_the_decoder() {
    assert!(matches!(decode(b"YUV4MPEG2 W2 H2 Cxyz\n"), Err(Error::UnknownColorspace)));
    assert!(matches!(decode(b"YUV4MPEG2 H2 C420\n"), Err(Error::ParseError(ParseError::General))));
    assert!(matches!(decode(b"YUV4MPEG2 W2 C420\n"), Err(Error::ParseError(ParseError::General))));
    assert!(matches!(decode(b"\n"), Err(Error::ParseError(ParseError::InvalidY4M))));
    assert!(matches!(decode(b"RIFF W2 H2\n"), Err(Error::ParseError(ParseError::InvalidY4M))));
    assert!(matches!(decode(b"YUV4MPEG2 W2x H2\n"), Err(Error::ParseError(ParseError::Int))));
}

#[test]
fn frames_come_one_after_the_other() {
    let mut stream = b"YUV4MPEG2 W2 H1 Cmono\n".to_vec();
    stream.extend_from_slice(b"FRAME\nab");
    stream.extend_from_slice(b"FRAME Ip\ncd");
    stream.extend_from_slice(b"FRAME \nef");
    let mut decoder = decode(&stream).unwrap();
    {
        let frame = decoder.read_frame().unwrap();
        assert_eq!(frame.get_y_plane(), b"ab");
        assert_eq!(frame.get_u_plane(), b"");
        assert_eq!(frame.get_v_plane(), b"");
        assert_eq!(frame.get_raw_params(), None);
    }
    {
        let frame = decoder.read_frame().unwrap();
        assert_eq!(frame.get_y_plane(), b"cd");
        assert_eq!(frame.get_raw_params(), Some(&b"Ip"[..]));
    }
    {
        let frame = decoder.read_frame().unwrap();
        assert_eq!(frame.get_y_plane(), b"ef");
        assert_eq!(frame.get_raw_params(), Some(&b""[..]));
    }
    assert!(matches!(decoder.read_frame(), Err(Error::EOF)));
    assert_eq!(decoder.get_width(), 2);
    assert_eq!(decoder.get_header().get_frame_size(), 2);
}

#[test]
fn frame_header_must_start_with_the_magic() {
    for line in [&b""[..], b"FRAM", b"frame", b"FRAMEx", b"FRAMEIp", b" FRAME", b"YUV4MPEG2 W2 H2"] {
        assert!(
            matches!(parse_frame_header(line), Err(Error::ParseError(ParseError::InvalidY4M))),
            "{:?}",
            line
        );
        let mut stream = b"YUV4MPEG2 W1 H1 Cmono\n".to_vec();
        stream.extend_from_slice(line);
        stream.extend_from_slice(b"\nx");
        let mut decoder = decode(&stream).unwrap();
        assert!(matches!(decoder.read_frame(), Err(Error::ParseError(ParseError::InvalidY4M))));
    }
    assert_eq!(parse_frame_header(b"FRAME").unwrap(), None);
    assert_eq!(parse_frame_header(b"FRAME ").unwrap(), Some(Vec::new()));
    assert_eq!(parse_frame_header(b"FRAME Ip XQ=1").unwrap(), Some(b"Ip XQ=1".to_vec()));
}

#[test]
fn frame_that_is_cut_short_is_eof() {
    let mut decoder = decode(b"YUV4MPEG2 W2 H2 C420\nFRAME\n12345").unwrap();
    assert!(matches!(decoder.read_frame(), Err(Error::EOF)));
    assert!(matches!(decoder.read_frame(), Err(Error::EOF)));
    let mut decoder = decode(b"YUV4MPEG2 W2 H2 C420\nFRAME").unwrap();
    assert!(matches!(decoder.read_frame(), Err(Error::EOF)));
    let mut decoder = decode(b"YUV4MPEG2 W2 H2 C420\nFRAME\n").unwrap();
    assert!(matches!(decoder.read_frame(), Err(Error::EOF)));
}

#[test]
fn frame_header_without_terminator_in_1024_bytes_is_a_parse_error() {
    let mut stream = b"YUV4MPEG2 W1 H1 Cmono\nFRAME ".to_vec();
    stream.resize(stream.len() + 1018, b'x');
    stream.extend_from_slice(b"\ny");
    let mut decoder = decode(&stream).unwrap();
    assert!(matches!(decoder.read_frame(), Err(Error::ParseError(ParseError::General))));
    let mut stream = b"YUV4MPEG2 W1 H1 Cmono\nFRAME ".to_vec();
    stream.resize(stream.len() + 1017, b'x');
    stream.extend_from_slice(b"\ny");
    let mut decoder = decode(&stream).unwrap();
    let frame = decoder.read_frame().unwrap();
    assert_eq!(frame.get_raw_params().unwrap().len(), 1017);
    assert_eq!(frame.get_y_plane(), b"y");
}

#[test]
fn frame_keeps_what_it_was_made_of() {
    let y = [1u8, 2, 3, 4];
    let u = [5u8];
    let v = [6u8, 7];
    let frame = Frame::new([&y, &u, &v], Some(vec![b'I', b'p']));
    assert_eq!(frame.get_y_plane(), &y);
    assert_eq!(frame.get_u_plane(), &u);
    assert_eq!(frame.get_v_plane(), &v);
    assert_eq!(frame.get_raw_params(), Some(&b"Ip"[..]));
    let bare = Frame::new([&y, &[], &[]], None);
    assert_eq!(bare.get_u_plane(), &[] as &[u8]);
    assert_eq!(bare.get_raw_params(), None);
}

#[test]
fn encoder_writes_the_prologue() {
    assert_eq!(written(encode(2, 2, Ratio::new(25, 1))), b"YUV4MPEG2 W2 H2 F25:1 C420\n".to_vec());
    assert_eq!(
        written(EncoderBuilder::new(1920, 1080, Ratio::new(30000, 1001)).with_colorspace(Colorspace::C444p12)),
        b"YUV4MPEG2 W1920 H1080 F30000:1001 C444p12\n".to_vec()
    );
    assert_eq!(
        written(encode(0, 0, Ratio::new(0, 0)).with_colorspace(Colorspace::Cmono)),
        b"YUV4MPEG2 W0 H0 F0:0 Cmono\n".to_vec()
    );
}

#[test]
fn encoder_writes_the_pixel_aspect_unless_it_is_one_to_one() {
    let builder = encode(4, 4, Ratio::new(50, 1)).with_pixel_aspect(Ratio::new(4, 3));
    assert_eq!(written(builder), b"YUV4MPEG2 W4 H4 F50:1 A4:3 C420\n".to_vec());
    let builder = encode(4, 4, Ratio::new(50, 1)).with_pixel_aspect(Ratio::new(1, 1));
    assert_eq!(written(builder), b"YUV4MPEG2 W4 H4 F50:1 C420\n".to_vec());
    let builder = encode(4, 4, Ratio::new(50, 1)).with_pixel_aspect(Ratio::new(1, 2));
    assert_eq!(written(builder), b"YUV4MPEG2 W4 H4 F50:1 A1:2 C420\n".to_vec());
    let builder = encode(4, 4, Ratio::new(50, 1)).with_pixel_aspect(Ratio::new(2, 1));
    assert_eq!(written(builder), b"YUV4MPEG2 W4 H4 F50:1 A2:1 C420\n".to_vec());
    let builder = encode(4, 4, Ratio::new(50, 1)).with_pixel_aspect(Ratio::new(2, 2));
    assert_eq!(written(builder), b"YUV4MPEG2 W4 H4 F50:1 A2:2 C420\n".to_vec());
}

#[test]
fn encoder_writes_vendor_extensions_in_order() {
    let builder = encode(4, 4, Ratio::new(50, 1))
        .append_vendor_extension(VendorExtensionString::new(b"COLORRANGE=FULL".to_vec()).unwrap())
        .with_colorspace(Colorspace::C422)
        .append_vendor_extension(VendorExtensionString::new(b"".to_vec()).unwrap())
        .with_pixel_aspect(Ratio::new(16, 9))
        .append_vendor_extension(VendorExtensionString::new(b"B".to_vec()).unwrap());
    assert_eq!(
        written(builder),
        b"YUV4MPEG2 W4 H4 F50:1 A16:9 XCOLORRANGE=FULL X XB C422\n".to_vec()
    );
}

#[test]
fn encoder_names_every_colorspace() {
    let names: [(Colorspace, &[u8]); 14] = [
        (Colorspace::Cmono, b"Cmono"),
        (Colorspace::Cmono12, b"Cmono12"),
        (Colorspace::C420, b"C420"),
        (Colorspace::C420p10, b"C420p10"),
        (Colorspace::C420p12, b"C420p12"),
        (Colorspace::C420jpeg, b"C420jpeg"),
        (Colorspace::C420paldv, b"C420paldv"),
        (Colorspace::C420mpeg2, b"C420mpeg2"),
        (Colorspace::C422, b"C422"),
        (Colorspace::C422p10, b"C422p10"),
        (Colorspace::C422p12, b"C422p12"),
        (Colorspace::C444, b"C444"),
        (Colorspace::C444p10, b"C444p10"),
        (Colorspace::C444p12, b"C444p12"),
    ];
    for (colorspace, name) in names {
        let mut expected = b"YUV4MPEG2 W1 H1 F1:1 ".to_vec();
        expected.extend_from_slice(name);
        expected.push(b'\n');
        assert_eq!(written(encode(1, 1, Ratio::new(1, 1)).with_colorspace(colorspace)), expected);
    }
}

#[test]
fn encoder_appends_to_what_the_writer_holds() {
    let encoder = encode(1, 1, Ratio::new(1, 1)).write_header(b"junk".to_vec()).unwrap();
    assert_eq!(encoder.into_inner(), b"junkYUV4MPEG2 W1 H1 F1:1 C420\n".to_vec());
}

#[test]
fn encoder_says_whether_the_frame_fits() {
    assert!(encode(1920, 1080, Ratio::new(25, 1)).frame_fits());
    assert!(encode(0, usize::MAX, Ratio::new(25, 1)).frame_fits());
    assert!(!encode(usize::MAX, usize::MAX, Ratio::new(25, 1)).frame_fits());
    assert!(!encode(usize::MAX, 1, Ratio::new(25, 1)).with_colorspace(Colorspace::C444).frame_fits());
    assert!(encode(usize::MAX, 1, Ratio::new(25, 1)).with_colorspace(Colorspace::Cmono).frame_fits());
}

fn small_encoder() -> Encoder {
    let mut encoder = encode(2, 2, Ratio::new(25, 1)).write_header(Vec::new()).unwrap();
    assert_eq!(encoder.take_written(), b"YUV4MPEG2 W2 H2 F25:1 C420\n".to_vec());
    encoder
}

#[test]
fn encoder_writes_frame_records() {
    let mut encoder = small_encoder();
    let frame = Frame::new([b"abcd", b"e", b"f"], None);
    encoder.write_frame(&frame).unwrap();
    assert_eq!(encoder.take_written(), b"FRAME\nabcdef".to_vec());
    let frame = Frame::new([b"ABCD", b"E", b"F"], Some(b"Ip XQ".to_vec()));
    encoder.write_frame(&frame).unwrap();
    let frame = Frame::new([b"1234", b"5", b"6"], Some(Vec::new()));
    encoder.write_frame(&frame).unwrap();
    assert!(encoder.flush().is_ok());
    assert_eq!(encoder.into_inner(), b"FRAME Ip XQ\nABCDEFFRAME \n123456".to_vec());
}

#[test]
fn short_y_plane_is_bad_input_and_writes_nothing() {
    let mut encoder = encode(2, 2, Ratio::new(25, 1))
        .with_colorspace(Colorspace::C420)
        .write_header(Vec::new())
        .unwrap();
    let frame = Frame::new([b"abc", b"e", b"f"], None);
    assert!(matches!(encoder.write_frame(&frame), Err(Error::BadInput)));
    assert_eq!(encoder.into_inner(), b"YUV4MPEG2 W2 H2 F25:1 C420\n".to_vec());
}

#[test]
fn any_plane_of_another_size_is_bad_input() {
    let mut encoder = small_encoder();
    let planes: [[&[u8]; 3]; 8] = [
        [b"abc", b"e", b"f"],
        [b"abcde", b"e", b"f"],
        [b"abcd", b"", b"f"],
        [b"abcd", b"ee", b"f"],
        [b"abcd", b"e", b""],
        [b"abcd", b"e", b"ff"],
        [b"", b"", b""],
        [b"e", b"abcd", b"f"],
    ];
    for planes in planes {
        let frame = Frame::new(planes, Some(b"Ip".to_vec()));
        assert!(matches!(encoder.write_frame(&frame), Err(Error::BadInput)));
    }
    assert_eq!(encoder.take_written(), Vec::<u8>::new());
    let frame = Frame::new([b"abcd", b"e", b"f"], None);
    assert!(encoder.write_frame(&frame).is_ok());
    assert_eq!(encoder.into_inner(), b"FRAME\nabcdef".to_vec());
}

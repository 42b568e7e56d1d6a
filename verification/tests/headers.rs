use y4m::header::Params;
use y4m::{Colorspace, Error, Header, Limits, LineScan, ParseError, Ratio, ScanStep};

fn parse(line: &[u8]) -> Result<Header, Error> {
    Header::parse(line, Limits::default())
}

#[test]
fn default_limit_is_one_gibibyte() {
    assert_eq!(Limits::default().bytes, 1024 * 1024 * 1024);
    assert_eq!(Limits::default().bytes, 1073741824);
}

#[test]
fn line_scan_collects_up_to_the_terminator() {
    let mut scan = LineScan::new();
    assert!(matches!(scan.step(Some(b'A')), ScanStep::More));
    assert!(matches!(scan.step(Some(b' ')), ScanStep::More));
    assert!(matches!(scan.step(Some(b'B')), ScanStep::More));
    assert_eq!(scan.line(), b"A B");
    assert!(matches!(scan.step(Some(b'\n')), ScanStep::Done));
    assert_eq!(scan.line(), b"A B");
    scan.clear();
    assert_eq!(scan.line(), b"");
    assert!(matches!(scan.step(Some(b'\n')), ScanStep::Done));
    assert_eq!(scan.line(), b"");
}

#[test]
fn line_scan_reports_the_end_of_the_stream() {
    let mut scan = LineScan::new();
    assert!(matches!(scan.step(None), ScanStep::Failed(Error::EOF)));
    assert!(matches!(scan.step(Some(b'x')), ScanStep::More));
    assert!(matches!(scan.step(None), ScanStep::Failed(Error::EOF)));
    assert_eq!(scan.line(), b"x");
}

#[test]
fn line_scan_gives_up_after_1024_bytes() {
    let mut scan = LineScan::new();
    for _ in 0..1023 {
        assert!(matches!(scan.step(Some(b'x')), ScanStep::More));
    }
    assert!(matches!(
        scan.step(Some(b'x')),
        ScanStep::Failed(Error::ParseError(ParseError::General))
    ));
    assert_eq!(scan.line().len(), 1024);
    assert!(matches!(
        scan.step(Some(b'\n')),
        ScanStep::Failed(Error::ParseError(ParseError::General))
    ));
    assert_eq!(scan.line().len(), 1024);
}

#[test]
fn line_scan_takes_a_terminator_as_byte_1024() {
    let mut scan = LineScan::new();
    for _ in 0..1023 {
        assert!(matches!(scan.step(Some(b'x')), ScanStep::More));
    }
    assert!(matches!(scan.step(Some(b'\n')), ScanStep::Done));
    assert_eq!(scan.line().len(), 1023);
}

#[test]
fn header_with_all_tokens() {
    let header = parse(b"YUV4MPEG2 W1920 H1080 F30000:1001 Ip A4:3 C422p10 XYSCSS=422P10").unwrap();
    assert_eq!(header.get_width(), 1920);
    assert_eq!(header.get_height(), 1080);
    assert_eq!(header.get_framerate(), Ratio::new(30000, 1001));
    assert_eq!(header.get_pixel_aspect(), Ratio::new(4, 3));
    assert_eq!(header.get_colorspace(), Colorspace::C422p10);
    assert_eq!(header.get_bit_depth(), 10);
    assert_eq!(header.get_bytes_per_sample(), 2);
    assert_eq!(header.get_raw_params(), &b"W1920 H1080 F30000:1001 Ip A4:3 C422p10 XYSCSS=422P10"[..]);
    assert_eq!(header.get_plane_sizes(), (1920 * 1080 * 2, 960 * 1080 * 2, 960 * 1080 * 2));
    assert_eq!(header.get_frame_size(), 1920 * 1080 * 4);
}

#[test]
fn header_defaults() {
    let header = parse(b"YUV4MPEG2 W4 H2").unwrap();
    assert_eq!(header.get_framerate(), Ratio::new(25, 1));
    assert_eq!(header.get_pixel_aspect(), Ratio::new(1, 1));
    assert_eq!(header.get_colorspace(), Colorspace::C420);
    assert_eq!(header.get_plane_sizes(), (8, 2, 2));
    assert_eq!(header.get_raw_params(), b"W4 H2");
}

#[test]
fn header_tokens_in_any_order_and_with_empty_tokens_between() {
    let header = parse(b"YUV4MPEG2   Cmono  H3 W5 ").unwrap();
    assert_eq!(header.get_width(), 5);
    assert_eq!(header.get_height(), 3);
    assert_eq!(header.get_colorspace(), Colorspace::Cmono);
    assert_eq!(header.get_raw_params(), b"  Cmono  H3 W5 ");
}

#[test]
fn header_later_token_wins() {
    let header = parse(b"YUV4MPEG2 W1 W6 H2 H4 C444 C420 F1:1 F50:1 A1:2 A2:1").unwrap();
    assert_eq!(header.get_width(), 6);
    assert_eq!(header.get_height(), 4);
    assert_eq!(header.get_colorspace(), Colorspace::C420);
    assert_eq!(header.get_framerate(), Ratio::new(50, 1));
    assert_eq!(header.get_pixel_aspect(), Ratio::new(2, 1));
}

#[test]
fn header_passes_over_unknown_tags() {
    let header = parse(b"YUV4MPEG2 W2 H2 Ip XCOLORRANGE=FULL Zzz w9 h9 X").unwrap();
    assert_eq!(header.get_width(), 2);
    assert_eq!(header.get_height(), 2);
    assert_eq!(header.get_raw_params(), b"W2 H2 Ip XCOLORRANGE=FULL Zzz w9 h9 X");
}

#[test]
fn header_needs_the_magic() {
    for line in [&b""[..], b"YUV4MPEG2", b"YUV4MPEG", b"YUV4MPEG3 W2 H2", b"yuv4mpeg2 W2 H2", b"YUV4MPEG2W2 H2", b" YUV4MPEG2 W2 H2", b"FRAME"] {
        assert!(
            matches!(parse(line), Err(Error::ParseError(ParseError::InvalidY4M))),
            "{:?}",
            line
        );
    }
}

#[test]
fn header_needs_width_and_height() {
    for line in [&b"YUV4MPEG2 "[..], b"YUV4MPEG2 H2", b"YUV4MPEG2 W2", b"YUV4MPEG2 W2 C420 F25:1", b"YUV4MPEG2 W0 H2", b"YUV4MPEG2 W2 H0", b"YUV4MPEG2 W2 H2 W0", b"YUV4MPEG2 W0 H0 C444"] {
        assert!(
            matches!(parse(line), Err(Error::ParseError(ParseError::General))),
            "{:?}",
            line
        );
    }
}

#[test]
fn header_reports_unknown_colorspace() {
    assert!(matches!(parse(b"YUV4MPEG2 W2 H2 Cxyz"), Err(Error::UnknownColorspace)));
    assert!(matches!(parse(b"YUV4MPEG2 W2 H2 C"), Err(Error::UnknownColorspace)));
    assert!(matches!(parse(b"YUV4MPEG2 W2 H2 C411"), Err(Error::UnknownColorspace)));
    // The colorspace is looked up before width and height are looked at.
    assert!(matches!(parse(b"YUV4MPEG2 Cxyz"), Err(Error::UnknownColorspace)));
    assert!(matches!(parse(b"YUV4MPEG2 W0 Cxyz H0"), Err(Error::UnknownColorspace)));
}

#[test]
fn header_reports_the_first_bad_token() {
    assert!(matches!(parse(b"YUV4MPEG2 Wx H2 Cxyz"), Err(Error::ParseError(ParseError::Int))));
    assert!(matches!(parse(b"YUV4MPEG2 Cxyz Wx H2"), Err(Error::UnknownColorspace)));
    assert!(matches!(parse(b"YUV4MPEG2 W H2"), Err(Error::ParseError(ParseError::Int))));
    assert!(matches!(parse(b"YUV4MPEG2 W2 H-2"), Err(Error::ParseError(ParseError::Int))));
    assert!(matches!(parse(b"YUV4MPEG2 W2 H2 F25"), Err(Error::ParseError(ParseError::General))));
    assert!(matches!(parse(b"YUV4MPEG2 W2 H2 F25:x"), Err(Error::ParseError(ParseError::Int))));
    assert!(matches!(parse(b"YUV4MPEG2 W2 H2 A:"), Err(Error::ParseError(ParseError::General))));
    assert!(matches!(parse(b"YUV4MPEG2 W2 H2 A1:1:1"), Err(Error::ParseError(ParseError::Int))));
    let mut line = b"YUV4MPEG2 W2 H".to_vec();
    line.push(0xFF);
    assert!(matches!(parse(&line), Err(Error::ParseError(ParseError::Utf8))));
}

#[test]
fn header_holds_the_frame_against_the_limit() {
    let line = b"YUV4MPEG2 W1000 H1000 C444";
    assert!(matches!(Header::parse(line, Limits { bytes: 10 }), Err(Error::OutOfMemory)));
    assert!(matches!(Header::parse(line, Limits { bytes: 2_999_999 }), Err(Error::OutOfMemory)));
    let header = Header::parse(line, Limits { bytes: 3_000_000 }).unwrap();
    assert_eq!(header.get_frame_size(), 3_000_000);
    assert!(matches!(parse(b"YUV4MPEG2 W100000 H100000 C444"), Err(Error::OutOfMemory)));
    let huge = format!("YUV4MPEG2 W{} H{} C444p12", usize::MAX, usize::MAX);
    assert!(matches!(
        Header::parse(huge.as_bytes(), Limits { bytes: usize::MAX }),
        Err(Error::OutOfMemory)
    ));
    // Width and height are looked at before the limit.
    assert!(matches!(
        Header::parse(b"YUV4MPEG2 W0 H1000", Limits { bytes: 0 }),
        Err(Error::ParseError(ParseError::General))
    ));
}

#[test]
fn header_cuts_a_frame_buffer_into_planes() {
    let header = parse(b"YUV4MPEG2 W3 H3 C420").unwrap();
    let buf: Vec<u8> = (0..17).collect();
    let frame = header.frame(&buf, Some(b"Ip".to_vec()));
    assert_eq!(frame.get_y_plane(), &[0, 1, 2, 3, 4, 5, 6, 7, 8]);
    assert_eq!(frame.get_u_plane(), &[9, 10, 11, 12]);
    assert_eq!(frame.get_v_plane(), &[13, 14, 15, 16]);
    assert_eq!(frame.get_raw_params(), Some(&b"Ip"[..]));
}

#[test]
fn params_take_one_token_at_a_time() {
    let params = Params::new();
    assert_eq!(params.width, 0);
    assert_eq!(params.height, 0);
    assert_eq!(params.framerate, Ratio::new(25, 1));
    assert_eq!(params.pixel_aspect, Ratio::new(1, 1));
    assert_eq!(params.colorspace, None);
    let params = params.take_token(b"W640").unwrap();
    assert_eq!(params.width, 640);
    let params = params.take_token(b"").unwrap();
    let params = params.take_token(b"Q").unwrap();
    let params = params.take_token(b"C444").unwrap();
    assert_eq!(params.width, 640);
    assert_eq!(params.colorspace, Some(Colorspace::C444));
    assert!(matches!(params.take_token(b"C"), Err(Error::UnknownColorspace)));
    let params = Params::parse(b"H480 F60:1").unwrap();
    assert_eq!((params.width, params.height), (0, 480));
    assert_eq!(params.framerate, Ratio::new(60, 1));
    let params = Params::parse(b"").unwrap();
    assert_eq!((params.width, params.height), (0, 0));
}

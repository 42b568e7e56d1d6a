use y4m::colorspace::Subsampling;
use y4m::layout::checked_plane_sizes;
use y4m::{get_plane_sizes, Colorspace, Error, VendorExtensionString};

fn all_colorspaces() -> Vec<(Colorspace, &'static str, usize, usize)> {
    vec![
        (Colorspace::Cmono, "mono", 8, 1),
        (Colorspace::Cmono12, "mono12", 12, 2),
        (Colorspace::C420, "420", 8, 1),
        (Colorspace::C420p10, "420p10", 10, 2),
        (Colorspace::C420p12, "420p12", 12, 2),
        (Colorspace::C420jpeg, "420jpeg", 8, 1),
        (Colorspace::C420paldv, "420paldv", 8, 1),
        (Colorspace::C420mpeg2, "420mpeg2", 8, 1),
        (Colorspace::C422, "422", 8, 1),
        (Colorspace::C422p10, "422p10", 10, 2),
        (Colorspace::C422p12, "422p12", 12, 2),
        (Colorspace::C444, "444", 8, 1),
        (Colorspace::C444p10, "444p10", 10, 2),
        (Colorspace::C444p12, "444p12", 12, 2),
    ]
}

#[test]
fn every_colorspace_has_its_depth_and_sample_size() {
    for (colorspace, _, bits, bytes) in all_colorspaces() {
        assert_eq!(colorspace.get_bit_depth(), bits);
        assert_eq!(colorspace.get_bytes_per_sample(), bytes);
    }
}

#[test]
fn every_colorspace_is_found_by_its_name() {
    for (colorspace, name, _, _) in all_colorspaces() {
        assert_eq!(colorspace.get_name(), name);
        assert_eq!(Colorspace::from_tag(name.as_bytes()), Some(colorspace));
        assert!(colorspace.is_named(name.as_bytes()));
    }
    assert!(!Colorspace::C420.is_named(b"422"));
}

#[test]
fn names_outside_the_table_are_not_found() {
    for name in [&b""[..], b"xyz", b"42", b"4200", b"420P10", b"MONO", b"mono1", b"420p14", b"411", b"C420", b"420 "] {
        assert_eq!(Colorspace::from_tag(name), None, "{:?}", name);
    }
}

#[test]
fn subsampling_classes() {
    assert_eq!(Colorspace::Cmono12.get_subsampling(), Subsampling::Mono);
    assert_eq!(Colorspace::C420paldv.get_subsampling(), Subsampling::S420);
    assert_eq!(Colorspace::C422p10.get_subsampling(), Subsampling::S422);
    assert_eq!(Colorspace::C444p12.get_subsampling(), Subsampling::S444);
}

#[test]
fn plane_sizes_of_a_three_by_three_frame() {
    assert_eq!(get_plane_sizes(3, 3, Colorspace::C420), (9, 4, 4));
    assert_eq!(get_plane_sizes(3, 3, Colorspace::C422), (9, 6, 6));
    assert_eq!(get_plane_sizes(3, 3, Colorspace::C444), (9, 9, 9));
    assert_eq!(get_plane_sizes(3, 3, Colorspace::Cmono), (9, 0, 0));
}

#[test]
fn plane_sizes_round_chroma_up() {
    assert_eq!(get_plane_sizes(1, 1, Colorspace::C420), (1, 1, 1));
    assert_eq!(get_plane_sizes(5, 7, Colorspace::C420jpeg), (35, 12, 12));
    assert_eq!(get_plane_sizes(5, 7, Colorspace::C422), (35, 21, 21));
    assert_eq!(get_plane_sizes(4, 6, Colorspace::C420mpeg2), (24, 6, 6));
    assert_eq!(get_plane_sizes(4, 6, Colorspace::C422), (24, 12, 12));
    assert_eq!(get_plane_sizes(1920, 1080, Colorspace::C420), (2073600, 518400, 518400));
}

#[test]
fn plane_sizes_count_two_bytes_for_deep_samples() {
    assert_eq!(get_plane_sizes(3, 3, Colorspace::C420p10), (18, 8, 8));
    assert_eq!(get_plane_sizes(3, 3, Colorspace::C420p12), (18, 8, 8));
    assert_eq!(get_plane_sizes(3, 3, Colorspace::C422p10), (18, 12, 12));
    assert_eq!(get_plane_sizes(3, 3, Colorspace::C422p12), (18, 12, 12));
    assert_eq!(get_plane_sizes(3, 3, Colorspace::C444p10), (18, 18, 18));
    assert_eq!(get_plane_sizes(3, 3, Colorspace::C444p12), (18, 18, 18));
    assert_eq!(get_plane_sizes(3, 3, Colorspace::Cmono12), (18, 0, 0));
}

#[test]
fn plane_sizes_of_an_empty_frame_are_zero() {
    assert_eq!(get_plane_sizes(0, 7, Colorspace::C420), (0, 0, 0));
    assert_eq!(get_plane_sizes(7, 0, Colorspace::C422), (0, 0, 0));
    assert_eq!(get_plane_sizes(0, 0, Colorspace::C444), (0, 0, 0));
}

#[test]
fn checked_plane_sizes_agree_where_the_frame_fits() {
    for (colorspace, _, _, _) in all_colorspaces() {
        for (width, height) in [(1usize, 1usize), (2, 2), (3, 3), (5, 7), (16, 9), (640, 480)] {
            assert_eq!(
                checked_plane_sizes(width, height, colorspace),
                Some(get_plane_sizes(width, height, colorspace))
            );
        }
    }
}

#[test]
fn checked_plane_sizes_see_what_does_not_fit() {
    assert_eq!(checked_plane_sizes(usize::MAX, 2, Colorspace::Cmono), None);
    assert_eq!(checked_plane_sizes(usize::MAX, 1, Colorspace::Cmono12), None);
    assert_eq!(checked_plane_sizes(usize::MAX, 1, Colorspace::C420), None);
    assert_eq!(checked_plane_sizes(usize::MAX / 2, 1, Colorspace::C444), None);
    assert_eq!(
        checked_plane_sizes(usize::MAX, 1, Colorspace::Cmono),
        Some((usize::MAX, 0, 0))
    );
    assert_eq!(
        checked_plane_sizes(usize::MAX / 3, 1, Colorspace::C444),
        Some((usize::MAX / 3, usize::MAX / 3, usize::MAX / 3))
    );
}

#[test]
fn vendor_extension_keeps_bytes_without_a_space() {
    let extension = VendorExtensionString::new(b"COLORRANGE=FULL".to_vec()).unwrap();
    assert_eq!(extension.value(), b"COLORRANGE=FULL");
    let copy = extension.clone();
    assert_eq!(copy.value(), b"COLORRANGE=FULL");
    assert_eq!(extension.into_bytes(), b"COLORRANGE=FULL".to_vec());
    let empty = VendorExtensionString::new(Vec::new()).unwrap();
    assert_eq!(empty.value(), b"");
    let binary = VendorExtensionString::new(vec![0, 0xFF, b'\n', b'\t']).unwrap();
    assert_eq!(binary.value(), &[0, 0xFF, b'\n', b'\t']);
}

#[test]
fn vendor_extension_refuses_a_space_anywhere() {
    for bytes in [&b" "[..], b" A", b"A ", b"A B", b"AB  ", b"COLORRANGE = FULL"] {
        assert!(
            matches!(VendorExtensionString::new(bytes.to_vec()), Err(Error::BadInput)),
            "{:?}",
            bytes
        );
    }
}

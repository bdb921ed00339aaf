use sqzer::error::Error;
use sqzer::format::Format;
use sqzer::image::{reset_exif_orientation, u16_to_u8, ColorType, Image, Orientation, Samples};
use sqzer::params::{DecodeOpts, Preset, Resize};

#[test]
fn extension_round_trips() {
    for &f in Format::ALL.iter() {
        assert_eq!(Format::from_extension(f.extension()), Some(f));
        assert_eq!(
            Format::from_extension(&format!(".{}", f.extension().to_uppercase())),
            Some(f)
        );
    }
    assert_eq!(Format::from_extension("jpeg"), Some(Format::Jpeg));
    assert_eq!(Format::from_extension("tif"), Some(Format::Tiff));
    assert_eq!(Format::from_extension("bmp"), None);
}

#[test]
fn rejects_zero_dimension() {
    assert!(Image::from_u8(0, 4, ColorType::Gray, vec![]).is_err());
    assert!(Image::from_u8(4, 0, ColorType::Gray, vec![]).is_err());
}

#[test]
fn rejects_wrong_sample_count() {
    assert!(Image::from_u8(2, 2, ColorType::Rgb, vec![0; 11]).is_err());
    assert!(Image::from_u8(2, 2, ColorType::Rgb, vec![0; 12]).is_ok());
}

#[test]
fn rejects_overflowing_dimensions() {
    assert!(Image::from_u8(u32::MAX, u32::MAX, ColorType::Rgba, vec![]).is_err());
}

#[test]
fn u16_rounds_to_u8() {
    assert_eq!(u16_to_u8(0), 0);
    assert_eq!(u16_to_u8(0xFFFF), 0xFF);
    assert_eq!(u16_to_u8(0x8000), 0x80);
    assert_eq!(u16_to_u8(0x0080), 0);
    assert_eq!(u16_to_u8(0x0081), 1);
}

#[test]
fn to_u8_borrows_when_already_u8() {
    let img = Image::from_u8(1, 1, ColorType::Rgb, vec![1, 2, 3]).unwrap();
    assert!(matches!(img.to_u8(Format::Png).unwrap(), std::borrow::Cow::Borrowed(_)));
}

#[test]
fn to_u8_converts_u16() {
    let img = Image::from_u16(1, 1, ColorType::Gray, vec![0xFFFF]).unwrap();
    let out = img.to_u8(Format::Png).unwrap();
    assert!(matches!(out, std::borrow::Cow::Owned(_)));
    assert_eq!(out.samples().as_u8(), Some(&[0xFF][..]));
}

#[test]
fn to_u8_refuses_float() {
    let img = Image::new(1, 1, ColorType::Gray, Samples::F32(vec![0.5f32.to_bits()])).unwrap();
    assert!(matches!(
        img.to_u8(Format::Jpeg),
        Err(Error::Unsupported {
            format: Format::Jpeg,
            ..
        })
    ));
}

#[test]
fn without_alpha_drops_last_channel() {
    let img = Image::from_u8(2, 1, ColorType::Rgba, vec![1, 2, 3, 4, 5, 6, 7, 8]).unwrap();
    let out = img.without_alpha();
    assert_eq!(out.color(), ColorType::Rgb);
    assert_eq!(out.samples().as_u8(), Some(&[1, 2, 3, 5, 6, 7][..]));

    let gray = Image::from_u16(1, 1, ColorType::GrayAlpha, vec![9, 10]).unwrap();
    assert_eq!(gray.without_alpha().samples().as_u16(), Some(&[9][..]));

    let opaque = Image::from_u8(1, 1, ColorType::Rgb, vec![1, 2, 3]).unwrap();
    assert!(matches!(opaque.without_alpha(), std::borrow::Cow::Borrowed(_)));
}

#[test]
fn orientation_from_exif_bounds() {
    assert_eq!(Orientation::from_exif(1), Some(Orientation::Normal));
    assert_eq!(Orientation::from_exif(8), Some(Orientation::Rotate270));
    assert_eq!(Orientation::from_exif(0), None);
    assert_eq!(Orientation::from_exif(9), None);
}

/// 3x2 gray image, one distinct value per pixel:
/// ```text
/// 1 2 3
/// 4 5 6
/// ```
fn six() -> Image {
    Image::from_u8(3, 2, ColorType::Gray, vec![1, 2, 3, 4, 5, 6]).unwrap()
}

#[test]
fn orientation_normal_is_identity() {
    assert_eq!(six().apply_orientation(Orientation::Normal), six());
}

#[test]
fn orientation_flips_and_rotations() {
    let cases: [(Orientation, (u32, u32), &[u8]); 7] = [
        (Orientation::FlipHorizontal, (3, 2), &[3, 2, 1, 6, 5, 4]),
        (Orientation::Rotate180, (3, 2), &[6, 5, 4, 3, 2, 1]),
        (Orientation::FlipVertical, (3, 2), &[4, 5, 6, 1, 2, 3]),
        (Orientation::Transpose, (2, 3), &[1, 4, 2, 5, 3, 6]),
        (Orientation::Rotate90, (2, 3), &[4, 1, 5, 2, 6, 3]),
        (Orientation::Transverse, (2, 3), &[6, 3, 5, 2, 4, 1]),
        (Orientation::Rotate270, (2, 3), &[3, 6, 2, 5, 1, 4]),
    ];
    for (o, (w, h), expected) in cases {
        let out = six().apply_orientation(o);
        assert_eq!((out.width(), out.height()), (w, h), "{o:?} size");
        assert_eq!(out.samples().as_u8(), Some(expected), "{o:?} samples");
    }
}

#[test]
fn orientation_composes_like_two_applications() {
    for a in Orientation::ALL {
        for b in Orientation::ALL {
            let twice = six().apply_orientation(a).apply_orientation(b);
            let once = six().apply_orientation(a.followed_by(b));
            assert_eq!(twice, once, "{a:?} then {b:?}");
        }
        assert_eq!(a.followed_by(Orientation::Normal), a);
        assert_eq!(Orientation::Normal.followed_by(a), a);
    }
    assert_eq!(
        Orientation::Normal.followed_by(Orientation::Rotate90),
        Orientation::Rotate90
    );
    assert_eq!(
        Orientation::Rotate90.followed_by(Orientation::Rotate90),
        Orientation::Rotate180
    );
    assert_eq!(
        Orientation::Rotate90.followed_by(Orientation::FlipHorizontal),
        Orientation::Transpose
    );
    assert_eq!(
        Orientation::Rotate90.followed_by(Orientation::FlipVertical),
        Orientation::Transverse
    );
}

/// A minimal TIFF with one IFD holding `Orientation = value` and an
/// `Artist` entry after it, in either byte order.
fn tiff(value: u16, big: bool) -> Vec<u8> {
    let u16b = |v: u16| if big { v.to_be_bytes() } else { v.to_le_bytes() };
    let u32b = |v: u32| if big { v.to_be_bytes() } else { v.to_le_bytes() };
    let mut t = Vec::new();
    t.extend_from_slice(if big { b"MM" } else { b"II" });
    t.extend_from_slice(&u16b(42));
    t.extend_from_slice(&u32b(8));
    t.extend_from_slice(&u16b(2));
    t.extend_from_slice(&u16b(0x013B));
    t.extend_from_slice(&u16b(2));
    t.extend_from_slice(&u32b(4));
    t.extend_from_slice(b"me\0\0");
    t.extend_from_slice(&u16b(0x0112));
    t.extend_from_slice(&u16b(3));
    t.extend_from_slice(&u32b(1));
    t.extend_from_slice(&u16b(value));
    t.extend_from_slice(&[0, 0]);
    t.extend_from_slice(&u32b(0));
    t
}

#[test]
fn exif_orientation_is_reset_when_applied() {
    for big in [false, true] {
        let img = Image::from_u8(3, 2, ColorType::Gray, vec![1, 2, 3, 4, 5, 6])
            .unwrap()
            .with_exif(Some(tiff(6, big)));
        let out = img.apply_orientation(Orientation::Rotate90);
        assert_eq!(out.exif(), Some(&tiff(1, big)[..]), "big endian {big}");
        let img = Image::from_u8(1, 1, ColorType::Gray, vec![1])
            .unwrap()
            .with_exif(Some(tiff(6, big)));
        assert_eq!(
            img.apply_orientation(Orientation::Normal).exif(),
            Some(&tiff(6, big)[..])
        );
    }
    let mut junk = b"not a tiff".to_vec();
    assert!(!reset_exif_orientation(&mut junk));
    assert_eq!(junk, b"not a tiff");
    for offset in [0x0000_1000u32, u32::MAX - 1] {
        let mut hostile = b"II\x2a\x00".to_vec();
        hostile.extend_from_slice(&offset.to_le_bytes());
        hostile.extend_from_slice(&[0xFF; 16]);
        let before = hostile.clone();
        assert!(!reset_exif_orientation(&mut hostile));
        assert_eq!(hostile, before);
    }
}

#[test]
fn exif_prefix_is_stripped_and_strip_metadata_keeps_icc() {
    let mut prefixed = b"Exif\0\0".to_vec();
    prefixed.extend_from_slice(&tiff(1, false));
    let mut img = Image::from_u8(1, 1, ColorType::Gray, vec![1])
        .unwrap()
        .with_exif(Some(prefixed))
        .with_xmp(Some(b"<x/>".to_vec()))
        .with_icc(Some(vec![9]));
    assert_eq!(img.exif(), Some(&tiff(1, false)[..]));
    assert_eq!(img.metadata().xmp.as_deref(), Some(&b"<x/>"[..]));
    img.strip_metadata();
    assert_eq!(
        (img.exif(), img.xmp(), img.icc()),
        (None, None, Some(&[9u8][..]))
    );
    let img = Image::from_u16(1, 1, ColorType::GrayAlpha, vec![1, 2])
        .unwrap()
        .with_xmp(Some(b"<x/>".to_vec()));
    assert_eq!(img.to_u8(Format::Png).unwrap().xmp(), Some(&b"<x/>"[..]));
    assert_eq!(img.without_alpha().xmp(), Some(&b"<x/>"[..]));
}

#[test]
fn orientation_keeps_channels_together_and_icc() {
    let img = Image::from_u16(2, 1, ColorType::Rgb, vec![1, 2, 3, 4, 5, 6])
        .unwrap()
        .with_icc(Some(vec![9]));
    let out = img.apply_orientation(Orientation::Rotate90);
    assert_eq!((out.width(), out.height()), (1, 2));
    assert_eq!(out.samples().as_u16(), Some(&[1, 2, 3, 4, 5, 6][..]));
    assert_eq!(out.icc(), Some(&[9][..]));
    let f = Image::new(
        2,
        1,
        ColorType::Gray,
        Samples::F32(vec![0.25f32.to_bits(), 0.75f32.to_bits()]),
    )
    .unwrap();
    assert_eq!(
        f.apply_orientation(Orientation::FlipHorizontal)
            .samples()
            .as_f32(),
        Some(&[0.75f32.to_bits(), 0.25f32.to_bits()][..])
    );
}

#[test]
fn preset_names_round_trip() {
    for &p in Preset::ALL.iter() {
        assert_eq!(Preset::from_name(p.name()), Some(p));
        assert_eq!(Preset::from_name(&p.name().to_uppercase()), Some(p));
    }
    assert_eq!(Preset::from_name("fast"), None);
}

#[test]
fn only_the_thumbnail_preset_resizes() {
    for &p in Preset::ALL.iter() {
        let expected = if p == Preset::Thumbnail {
            Resize {
                max_width: Some(512),
                max_height: Some(512),
            }
        } else {
            Resize::none()
        };
        assert_eq!(p.resize(), expected, "{p:?}");
    }
}

#[test]
fn fit_keeps_the_aspect_ratio_inside_both_bounds() {
    let both = |w, h| Resize {
        max_width: Some(w),
        max_height: Some(h),
    };
    let width = |w| Resize {
        max_width: Some(w),
        max_height: None,
    };
    let height = |h| Resize {
        max_width: None,
        max_height: Some(h),
    };
    assert_eq!(width(1600).fit(4000, 3000), Some((1600, 1200)));
    assert_eq!(height(600).fit(4000, 3000), Some((800, 600)));
    assert_eq!(both(1600, 600).fit(4000, 3000), Some((800, 600)));
    assert_eq!(both(400, 3000).fit(4000, 3000), Some((400, 300)));
    assert_eq!(both(512, 512).fit(3000, 4000), Some((384, 512)));
    assert_eq!(width(100).fit(300, 200), Some((100, 67)));
    assert_eq!(width(2).fit(3, 1), Some((2, 1)));
    assert_eq!(width(10).fit(10_000, 3), Some((10, 1)));
    assert_eq!(height(10).fit(3, 10_000), Some((1, 10)));
    assert_eq!(width(0).fit(8, 8), Some((1, 1)));
    assert_eq!(
        both(65_535, 65_535).fit(u32::MAX, u32::MAX),
        Some((65_535, 65_535))
    );
}

#[test]
fn fit_never_enlarges() {
    let r = Resize {
        max_width: Some(1600),
        max_height: Some(1600),
    };
    assert_eq!(r.fit(1600, 1200), None);
    assert_eq!(r.fit(640, 480), None);
    assert_eq!(r.fit(1, 1), None);
    assert_eq!(Resize::none().fit(4000, 3000), None);
    assert_eq!(r.fit(3200, 100), Some((1600, 50)));
}

#[test]
fn pixel_budget() {
    let opts = DecodeOpts {
        max_pixels: 100,
        ..Default::default()
    };
    assert!(opts.check_pixels(10, 10).is_ok());
    assert!(opts.check_pixels(10, 11).is_err());
}

use sqzer::codecs::avif::{interleave, keep_channels, shuffle_gbr, widen, AvifDecoder};
use sqzer::codecs::exif::{exif_app1, orientation, xmp_app1, xmp_id};
use sqzer::codecs::exr::ExrDecoder;
use sqzer::codecs::gif::{frame_count, GifDecoder};
use sqzer::codecs::heif::{header, probe};
use sqzer::codecs::jpeg::JpegDecoder;
use sqzer::codecs::jxl::JxlDecoder;
use sqzer::codecs::layout::widen_gray;
use sqzer::codecs::libavif::YuvFormat;
use sqzer::codecs::mozjpeg::JpegChroma;
use sqzer::codecs::native_heif::{finish, unpremultiply, Frame};
use sqzer::codecs::opts::{parse_bool, parse_percent, parse_u8};
use sqzer::codecs::png::{has_actl_chunk, signature, PngDecoder};
use sqzer::codecs::raster::{is_bmp, is_ico, is_pnm, is_qoi, is_tga};
use sqzer::codecs::svg::root_is_svg;
use sqzer::codecs::tiff::TiffDecoder;
use sqzer::codecs::webp::WebPDecoder;
use sqzer::codecs::{jpegli, libavif, libjxl, libwebp, mozjpeg, ravif};
use sqzer::error::Error;
use sqzer::format::{Format, FormatInfo};
use sqzer::image::{ColorType, Image, Orientation, Samples};
use sqzer::params::{DecodeOpts, Subsampling};

#[test]
fn lib_widen_hits_the_endpoints() {
    let mut v = [0u16, 1023];
    sqzer::heif_dl::widen(&mut v, 10);
    assert_eq!(v, [0, 65535]);
    let mut v = [0u16, 4095];
    sqzer::heif_dl::widen(&mut v, 12);
    assert_eq!(v, [0, 65535]);
    let mut v = [0u16, 65535];
    sqzer::heif_dl::widen(&mut v, 16);
    assert_eq!(v, [0, 65535]);
}

#[test]
fn version_floor_is_1_17() {
    assert_eq!(sqzer::heif_dl::MIN_VERSION, 0x0111_0000);
}

#[test]
fn errors_read_as_prose() {
    assert_eq!(
        sqzer::heif_dl::Error::TooLarge {
            pixels: 10,
            limit: 4
        }
        .message(),
        "image has 10 pixels, limit is 4"
    );
    assert_eq!(sqzer::heif_dl::Error::Unavailable("gone".into()).message(), "gone");
}

fn ftyp_avif(major: [u8; 4], compatible: &[&[u8; 4]]) -> Vec<u8> {
    let size = u32::try_from(16 + 4 * compatible.len()).unwrap();
    let mut b = size.to_be_bytes().to_vec();
    b.extend_from_slice(b"ftyp");
    b.extend_from_slice(&major);
    b.extend_from_slice(&[0; 4]);
    for c in compatible {
        b.extend_from_slice(*c);
    }
    b.extend_from_slice(b"trailing bytes of the next box");
    b
}

#[test]
fn probe_reads_brands() {
    let still = AvifDecoder
        .probe(&ftyp_avif(*b"avif", &[b"mif1", b"miaf"]))
        .unwrap();
    assert_eq!((still.format, still.animated), (Format::Avif, false));
    let seq = AvifDecoder.probe(&ftyp_avif(*b"avis", &[b"avif"])).unwrap();
    assert!(seq.animated);
    let compat = AvifDecoder.probe(&ftyp_avif(*b"mif1", &[b"avif"])).unwrap();
    assert!(!compat.animated);
    assert!(AvifDecoder.probe(&ftyp_avif(*b"heic", &[b"mif1"])).is_none());
    assert!(AvifDecoder.probe(b"\0\0\0\x0cftyp").is_none());
}

#[test]
fn avif_unpremultiply_recovers_colour() {
    assert_eq!(interleave(&[100u8], &[128u8], 1, true), vec![199, 128]);
    assert_eq!(interleave(&[100u8], &[128u8], 1, false), vec![100, 128]);
    assert_eq!(interleave(&[7u8, 9], &[255u8], 2, true), vec![7, 9, 255]);
    assert_eq!(interleave(&[7u8, 9], &[0u8], 2, true), vec![7, 9, 0]);
    assert_eq!(
        interleave(&[0x4000u16], &[0x8000u16], 1, true),
        vec![0x8000, 0x8000]
    );
}

#[test]
fn avif_widen_hits_the_endpoints() {
    let mut v = [0u16, 1023];
    widen(&mut v, 10);
    assert_eq!(v, [0, 0xFFFF]);
    let mut v = [4095u16];
    widen(&mut v, 12);
    assert_eq!(v, [0xFFFF]);
}

#[test]
fn gbr_shuffle_interleaves_rgb() {
    let out = shuffle_gbr(&[1u8, 2, 0], &[3, 4, 0], &[5, 6, 0], 2, 1, 3);
    assert_eq!(out, vec![5, 1, 3, 6, 2, 4]);
}

#[test]
fn keep_channels_takes_the_first() {
    assert_eq!(keep_channels(vec![1u8, 2, 3, 4, 5, 6], 1), vec![1, 4]);
    assert_eq!(keep_channels(vec![1u8, 2, 3], 3), vec![1, 2, 3]);
}

#[test]
fn mod_effort_inverts_to_speed() {
    assert_eq!(ravif::map_effort(0), 10);
    assert_eq!(ravif::map_effort(6), 4);
    assert_eq!(ravif::map_effort(9), 1);
    assert_eq!(ravif::map_effort(10), 1);
}

#[test]
fn avif_effort_inverts_to_speed() {
    assert_eq!(libavif::map_effort(0), 10);
    assert_eq!(libavif::map_effort(6), 4);
    assert_eq!(libavif::map_effort(10), 0);
    assert_eq!(libavif::map_effort(200), 0);
}

#[test]
fn avif_auto_subsampling_follows_quality() {
    assert!(matches!(
        libavif::map_subsampling(Subsampling::Auto, 75),
        YuvFormat::Yuv420
    ));
    assert!(matches!(
        libavif::map_subsampling(Subsampling::Auto, 90),
        YuvFormat::Yuv444
    ));
    assert!(matches!(
        libavif::map_subsampling(Subsampling::S422, 10),
        YuvFormat::Yuv422
    ));
}

/// A minimal little-endian TIFF with a single IFD holding one
/// `Orientation` entry.
fn tiff_with_orientation(value: u16) -> Vec<u8> {
    let mut t = Vec::new();
    t.extend_from_slice(b"II");
    t.extend_from_slice(&42u16.to_le_bytes());
    t.extend_from_slice(&8u32.to_le_bytes());
    t.extend_from_slice(&1u16.to_le_bytes());
    t.extend_from_slice(&0x0112u16.to_le_bytes());
    t.extend_from_slice(&3u16.to_le_bytes());
    t.extend_from_slice(&1u32.to_le_bytes());
    t.extend_from_slice(&value.to_le_bytes());
    t.extend_from_slice(&[0, 0]);
    t.extend_from_slice(&0u32.to_le_bytes());
    t
}

#[test]
fn reads_orientation_with_or_without_prefix() {
    let tiff = tiff_with_orientation(6);
    assert_eq!(orientation(&tiff), Some(Orientation::Rotate90));
    let mut prefixed = b"Exif\0\0".to_vec();
    prefixed.extend_from_slice(&tiff);
    assert_eq!(orientation(&prefixed), Some(Orientation::Rotate90));
}

#[test]
fn app1_payloads_carry_their_identifiers_and_refuse_oversize() {
    let xmp = xmp_app1(b"<x/>", Format::Jpeg).unwrap();
    assert!(xmp.starts_with(&xmp_id()) && xmp.ends_with(b"<x/>"));
    let exif = exif_app1(&tiff_with_orientation(1), Format::Jpeg).unwrap();
    assert!(exif.starts_with(b"Exif\0\0"));
    let big = vec![b'x'; 70_000];
    assert!(matches!(
        xmp_app1(&big, Format::Jpeg),
        Err(Error::Unsupported { .. })
    ));
    assert!(matches!(
        exif_app1(&big, Format::Jpeg),
        Err(Error::Unsupported { .. })
    ));
}

#[test]
fn garbage_is_none_not_an_error() {
    assert_eq!(orientation(b"not exif at all"), None);
    assert_eq!(orientation(&tiff_with_orientation(0)), None);
    assert_eq!(orientation(&tiff_with_orientation(42)), None);
}

#[test]
fn probe_is_the_magic_number() {
    assert!(ExrDecoder
        .probe(&[0x76, 0x2f, 0x31, 0x01, 2, 0, 0, 0])
        .is_some());
    assert!(ExrDecoder.probe(b"\x89PNG").is_none());
    assert!(ExrDecoder.probe(&[]).is_none());
    assert_eq!(ExrDecoder.dimensions(b"\x89PNG"), None);
}

#[test]
fn a_truncated_file_is_an_error() {
    let mut bytes = vec![0x76, 0x2f, 0x31, 0x01];
    bytes.extend_from_slice(&[2, 0, 0, 0, 0]);
    assert!(matches!(
        ExrDecoder.decode(&bytes, &DecodeOpts::default()),
        Err(Error::Codec(_))
    ));
}

/// A minimal GIF: 1 x 1 screen, no global palette, `n` image blocks each
/// carrying an empty data stream.
fn tiny(n: usize) -> Vec<u8> {
    let mut b = b"GIF89a\x01\x00\x01\x00\x00\x00\x00".to_vec();
    for _ in 0..n {
        b.extend_from_slice(&[0x2C, 0, 0, 0, 0, 1, 0, 1, 0, 0, 2, 0]);
    }
    b.push(0x3B);
    b
}

#[test]
fn probe_counts_frames_without_decoding() {
    assert_eq!(GifDecoder.probe(&tiny(1)).map(|i| i.animated), Some(false));
    assert_eq!(GifDecoder.probe(&tiny(2)).map(|i| i.animated), Some(true));
    assert_eq!(GifDecoder.probe(b"GIF89a"), None);
    assert_eq!(GifDecoder.probe(b"RIFF....WEBPVP8 "), None);
    assert_eq!(GifDecoder.dimensions(&tiny(1)), Some((1, 1)));
}

#[test]
fn a_truncated_walk_stops() {
    let mut b = tiny(1);
    b.truncate(15);
    assert_eq!(frame_count(&b, 2), 1);
}

fn bx(kind: [u8; 4], body: &[u8]) -> Vec<u8> {
    let mut b = u32::try_from(8 + body.len()).unwrap().to_be_bytes().to_vec();
    b.extend_from_slice(&kind);
    b.extend_from_slice(body);
    b
}

fn full(kind: [u8; 4], version: u8, flags: u32, body: &[u8]) -> Vec<u8> {
    let mut inner = vec![version];
    inner.extend_from_slice(&flags.to_be_bytes()[1..]);
    inner.extend_from_slice(body);
    bx(kind, &inner)
}

fn ftyp(major: [u8; 4], compatible: &[&[u8; 4]]) -> Vec<u8> {
    let mut body = major.to_vec();
    body.extend_from_slice(&[0, 0, 0, 0]);
    for c in compatible {
        body.extend_from_slice(*c);
    }
    bx(*b"ftyp", &body)
}

fn ispe(w: u32, h: u32) -> Vec<u8> {
    let mut body = w.to_be_bytes().to_vec();
    body.extend_from_slice(&h.to_be_bytes());
    full(*b"ispe", 0, 0, &body)
}

fn clap(w: u32, h: u32) -> Vec<u8> {
    let mut body = Vec::new();
    for v in [w, 1, h, 1, 0, 1, 0, 1] {
        body.extend_from_slice(&v.to_be_bytes());
    }
    bx(*b"clap", &body)
}

/// A HEIC skeleton: `ftyp`, then a `meta` with the given property boxes
/// all associated with primary item 1 in the order given.
fn heic(properties: &[Vec<u8>]) -> Vec<u8> {
    let mut file = ftyp(*b"heic", &[b"mif1", b"heic"]);
    let mut ipco = Vec::new();
    for p in properties {
        ipco.extend_from_slice(p);
    }
    let mut ipma = 1u32.to_be_bytes().to_vec();
    ipma.extend_from_slice(&1u16.to_be_bytes());
    ipma.push(u8::try_from(properties.len()).unwrap());
    for i in 1..=properties.len() {
        ipma.push(0x80 | u8::try_from(i).unwrap());
    }
    let iprp = bx(
        *b"iprp",
        &[bx(*b"ipco", &ipco), full(*b"ipma", 0, 0, &ipma)].concat(),
    );
    let pitm = full(*b"pitm", 0, 0, &1u16.to_be_bytes());
    file.extend_from_slice(&full(*b"meta", 0, 0, &[pitm, iprp].concat()));
    file
}

#[test]
fn probe_reads_hevc_brands_only() {
    let heic_info = probe(&ftyp(*b"heic", &[b"mif1", b"heic"]));
    assert_eq!(
        heic_info,
        Some(FormatInfo {
            format: Format::Heic,
            animated: false
        })
    );
    assert!(probe(&ftyp(*b"mif1", &[b"heic"])).is_some());
    assert_eq!(
        probe(&ftyp(*b"hevc", &[b"mif1", b"msf1"])).map(|i| i.animated),
        Some(true)
    );
    assert!(probe(&ftyp(*b"avif", &[b"mif1", b"miaf"])).is_none());
    assert!(probe(&ftyp(*b"isom", &[b"mp42"])).is_none());
    assert!(probe(b"\x89PNG\r\n\x1a\n").is_none());
    assert!(probe(b"").is_none());
}

#[test]
fn transforms_compose_in_file_order() {
    let h = header(&heic(&[ispe(64, 64), clap(48, 32)])).unwrap();
    assert_eq!(
        (h.width, h.height, h.orientation),
        (48, 32, Orientation::Normal)
    );
    let h = header(&heic(&[ispe(64, 64), clap(48, 32), bx(*b"irot", &[1])])).unwrap();
    assert_eq!(
        (h.width, h.height, h.orientation),
        (32, 48, Orientation::Rotate270)
    );
    let h = header(&heic(&[
        ispe(48, 32),
        bx(*b"imir", &[1]),
        bx(*b"irot", &[3]),
    ]))
    .unwrap();
    assert_eq!(
        h.orientation,
        Orientation::FlipHorizontal.followed_by(Orientation::Rotate90)
    );
    assert_eq!((h.width, h.height), (32, 48));
    let h = header(&heic(&[ispe(48, 32), bx(*b"imir", &[0])])).unwrap();
    assert_eq!(h.orientation, Orientation::FlipVertical);
    let h = header(&heic(&[ispe(48, 32), bx(*b"irot", &[2])])).unwrap();
    assert_eq!(
        (h.width, h.height, h.orientation),
        (48, 32, Orientation::Rotate180)
    );
}

#[test]
fn colour_box_yields_the_profile_bytes() {
    let mut colr = b"prof".to_vec();
    colr.extend_from_slice(b"not really a profile");
    let h = header(&heic(&[ispe(8, 8), bx(*b"colr", &colr)])).unwrap();
    assert_eq!(h.icc.as_deref(), Some(&b"not really a profile"[..]));
    let mut nclx = b"nclx".to_vec();
    nclx.extend_from_slice(&[0, 1, 0, 13, 0, 6, 0x80]);
    let h = header(&heic(&[ispe(8, 8), bx(*b"colr", &nclx)])).unwrap();
    assert_eq!(h.icc, None);
}

#[test]
fn malformed_containers_yield_none() {
    assert_eq!(header(&heic(&[clap(4, 4)])), None);
    let file = heic(&[ispe(8, 8)]);
    assert_eq!(header(&file[..file.len() - 10]), None);
    let mut file = ftyp(*b"heic", &[b"mif1"]);
    file.extend_from_slice(&[0, 0, 1, 0]);
    file.extend_from_slice(b"meta");
    assert_eq!(header(&file), None);
    let h = header(&heic(&[ispe(8, 8), clap(100, 100)])).unwrap();
    assert_eq!((h.width, h.height), (8, 8));
}

#[test]
fn jpeg_auto_subsampling_follows_quality() {
    assert_eq!(
        mozjpeg::map_subsampling(Subsampling::Auto, 75),
        JpegChroma::S420
    );
    assert_eq!(
        mozjpeg::map_subsampling(Subsampling::Auto, 90),
        JpegChroma::S444
    );
    assert_eq!(
        mozjpeg::map_subsampling(Subsampling::S422, 10),
        JpegChroma::S422
    );
}

#[test]
fn probe_needs_soi_and_a_marker() {
    assert!(JpegDecoder.probe(&[0xFF, 0xD8, 0xFF, 0xE0]).is_some());
    assert!(JpegDecoder.probe(&[0xFF, 0xD8]).is_none());
    assert!(JpegDecoder.probe(b"\x89PNG").is_none());
}

const CODESTREAM: [u8; 2] = [0xFF, 0x0A];
const CONTAINER: [u8; 12] = [
    0x00, 0x00, 0x00, 0x0C, b'J', b'X', b'L', b' ', 0x0D, 0x0A, 0x87, 0x0A,
];

#[test]
fn probe_accepts_both_signatures_only() {
    assert!(JxlDecoder.probe(&CODESTREAM).is_some());
    assert!(JxlDecoder.probe(&CONTAINER).is_some());
    assert!(JxlDecoder.probe(&[0xFF, 0xD8, 0xFF]).is_none());
    assert!(JxlDecoder.probe(&CONTAINER[..11]).is_none());
}

#[test]
fn truncated_header_is_a_codec_error() {
    assert!(matches!(
        JxlDecoder.decode(&CODESTREAM, &DecodeOpts::default()),
        Err(Error::Codec(_))
    ));
}

#[test]
fn gray_widens_and_keeps_alpha() {
    assert_eq!(widen_gray(&[7, 9], 1), vec![7, 7, 7, 9, 9, 9]);
    assert_eq!(widen_gray(&[7, 128], 2), vec![7, 7, 7, 128]);
}

#[test]
fn jpegli_auto_subsampling_follows_quality() {
    assert_eq!(jpegli::map_subsampling(Subsampling::Auto, 75), (2, 2));
    assert_eq!(jpegli::map_subsampling(Subsampling::Auto, 90), (1, 1));
    assert_eq!(jpegli::map_subsampling(Subsampling::S422, 10), (2, 1));
}

#[test]
fn effort_shifts_by_one() {
    assert_eq!(libjxl::map_effort(0), 1);
    assert_eq!(libjxl::map_effort(6), 7);
    assert_eq!(libjxl::map_effort(9), 10);
    assert_eq!(libjxl::map_effort(10), 10);
    assert_eq!(libjxl::map_effort(255), 10);
}

#[test]
fn effort_maps_onto_method() {
    assert_eq!(libwebp::map_effort(0), 0);
    assert_eq!(libwebp::map_effort(3), 2);
    assert_eq!(libwebp::map_effort(6), 4);
    assert_eq!(libwebp::map_effort(8), 5);
    assert_eq!(libwebp::map_effort(10), 6);
    assert_eq!(libwebp::map_effort(200), 6);
}

#[test]
fn booleans_accept_the_usual_spellings() {
    assert!(parse_bool("jpeg", "progressive", "on").unwrap());
    assert!(!parse_bool("jpeg", "progressive", "off").unwrap());
    let err = parse_bool("jpeg", "progressive", "maybe").unwrap_err();
    assert!(err.message().contains("jpeg:progressive"), "{err:?}");
}

#[test]
fn integers_are_bounded() {
    assert_eq!(parse_u8("jpeg", "smoothing", "7").unwrap(), 7);
    assert!(parse_u8("jpeg", "smoothing", "256").is_err());
    assert!(parse_u8("jpeg", "smoothing", "x").is_err());
}

#[test]
fn percentages_stop_at_100() {
    assert_eq!(parse_percent("webp", "alpha_quality", "100").unwrap(), 100);
    assert_eq!(parse_percent("webp", "alpha_quality", "0").unwrap(), 0);
    assert!(parse_percent("webp", "alpha_quality", "101").is_err());
    assert!(parse_percent("webp", "alpha_quality", "-1").is_err());
}

#[test]
fn probe_rejects_other_bytes() {
    assert!(PngDecoder.probe(b"\xFF\xD8\xFF").is_none());
    assert!(PngDecoder.probe(&signature()[..4]).is_none());
}

#[test]
fn actl_detection_stops_at_idat() {
    let mut bytes = signature().to_vec();
    bytes.extend_from_slice(&13u32.to_be_bytes());
    bytes.extend_from_slice(b"IHDR");
    bytes.extend_from_slice(&[0; 13 + 4]);
    bytes.extend_from_slice(&0u32.to_be_bytes());
    bytes.extend_from_slice(b"IDAT");
    bytes.extend_from_slice(&[0; 4]);
    bytes.extend_from_slice(&8u32.to_be_bytes());
    bytes.extend_from_slice(b"acTL");
    assert!(!has_actl_chunk(&bytes));

    let mut animated = signature().to_vec();
    animated.extend_from_slice(&8u32.to_be_bytes());
    animated.extend_from_slice(b"acTL");
    assert!(has_actl_chunk(&animated));
    assert_eq!(
        PngDecoder.probe(&animated),
        Some(FormatInfo {
            format: Format::Png,
            animated: true
        })
    );
}

#[test]
fn actl_detection_survives_truncation() {
    let mut bytes = signature().to_vec();
    bytes.extend_from_slice(&u32::MAX.to_be_bytes());
    bytes.extend_from_slice(b"tEXt");
    assert!(!has_actl_chunk(&bytes));
}

#[test]
fn tga_plausibility_rejects_the_other_formats() {
    for other in [
        &b"\xFF\xD8\xFF\xE0\x00\x10JFIF\0\x01\x01\0\0\x01\0\x01\0\0"[..],
        b"\x89PNG\r\n\x1A\n\0\0\0\rIHDR\0\0\0\x01\0\0\0\x01\x08",
        b"GIF89a\x01\0\x01\0\0\0\0\x2C\0\0\0\0\x01\0\x01\0\0\x02\0\x3B",
        b"RIFF\x10\0\0\0WEBPVP8L\x04\0\0\0\x2F\0\0\0",
        b"\0\0\0\x1Cftypavif\0\0\0\0avifmif1miaf",
        b"BM\x3A\0\0\0\0\0\0\0\x36\0\0\0\x28\0\0\0\x01\0\0\0\x01\0",
        b"\0\0\x01\0\x01\0\x30\x20\0\0\x01\0\x20\0\x68\x06\0\0\x16\0\0\0",
        b"qoif\0\0\0\x01\0\0\0\x01\x03\0",
        b"P6\n1 1\n255\n\0\0\0\0\0\0\0\0\0\0",
        b"II\x2A\0\x08\0\0\0\0\0\0\0\0\0\0\0\0\0\0\0",
        b"<svg xmlns=\"http://www.w3.org/2000/svg\"/>",
    ] {
        assert!(!is_tga(other), "{other:?}");
    }
}

#[test]
fn tga_plausibility_accepts_a_real_header() {
    let mut b = vec![0, 0, 2, 0, 0, 0, 0, 0, 0, 0, 0, 0, 1, 0, 1, 0, 24, 0];
    assert!(!is_tga(&b), "pixel data missing");
    b.extend_from_slice(&[1, 2, 3]);
    assert!(is_tga(&b));
    b[2] = 10;
    b.truncate(18);
    assert!(is_tga(&b));
    let mut f = vec![0u8; 26];
    f.extend_from_slice(b"TRUEVISION-XFILE.\0");
    assert!(is_tga(&f));
}

#[test]
fn magic_probes() {
    assert!(is_pnm(b"P4 1 1\n\x80"));
    assert!(is_pnm(b"P7\nWIDTH 1\n"));
    assert!(!is_pnm(b"P8 1 1\n"));
    assert!(!is_pnm(b"PNG"));
    assert!(is_ico(&[
        0, 0, 2, 0, 1, 0, 1, 1, 0, 0, 1, 0, 32, 0, 0, 0, 0, 0, 22, 0, 0, 0
    ]));
    assert!(!is_ico(&[
        0, 0, 3, 0, 1, 0, 1, 1, 0, 0, 1, 0, 32, 0, 0, 0, 0, 0, 22, 0, 0, 0
    ]));
    assert!(!is_qoi(b"qoif"));
    assert!(!is_bmp(b"BM"));
}

#[test]
fn sniff_finds_the_root_element() {
    assert!(root_is_svg(b"<svg xmlns=\"http://www.w3.org/2000/svg\"/>"));
    assert!(root_is_svg(
        b"\xEF\xBB\xBF<?xml version=\"1.0\"?>\n<!-- c -->\n<!DOCTYPE svg>\n<svg>"
    ));
    assert!(root_is_svg(b"  <svg\n"));
    assert!(!root_is_svg(b"<!DOCTYPE html><html><svg/></html>"));
    assert!(!root_is_svg(b"<svgfoo/>"));
    assert!(!root_is_svg(b"<?xml version=\"1.0\"?>"));
    assert!(!root_is_svg(b"P6\n"));
    assert!(!root_is_svg(b""));
}

#[test]
fn probe_accepts_both_byte_orders_and_bigtiff() {
    for magic in [b"II\x2A\x00", b"MM\x00\x2A", b"II\x2B\x00", b"MM\x00\x2B"] {
        assert!(TiffDecoder.probe(magic).is_some());
    }
    assert!(TiffDecoder.probe(b"II\x00\x2A").is_none());
    assert!(TiffDecoder.probe(b"II").is_none());
    assert!(TiffDecoder.dimensions(b"II\x2A\x00").is_none());
}

fn webp_header(chunk: [u8; 4], flags: u8) -> Vec<u8> {
    let mut b = b"RIFF\0\0\0\0WEBP".to_vec();
    b.extend_from_slice(&chunk);
    b.extend_from_slice(&[10, 0, 0, 0, flags, 0, 0, 0]);
    b
}

#[test]
fn probe_reads_the_animation_flag() {
    assert_eq!(
        WebPDecoder.probe(&webp_header(*b"VP8L", 0)),
        Some(FormatInfo {
            format: Format::WebP,
            animated: false
        })
    );
    assert_eq!(
        WebPDecoder.probe(&webp_header(*b"VP8X", 0x10)),
        Some(FormatInfo {
            format: Format::WebP,
            animated: false
        })
    );
    assert_eq!(
        WebPDecoder.probe(&webp_header(*b"VP8X", 0x12)),
        Some(FormatInfo {
            format: Format::WebP,
            animated: true
        })
    );
}

#[test]
fn probe_rejects_other_riff() {
    let mut wave = webp_header(*b"fmt ", 0);
    wave[8..12].copy_from_slice(b"WAVE");
    assert!(WebPDecoder.probe(&wave).is_none());
    assert!(WebPDecoder.probe(b"RIFF").is_none());
}

fn header_with(orientation: Orientation) -> sqzer::codecs::heif::Header {
    sqzer::codecs::heif::Header {
        width: 1,
        height: 2,
        orientation,
        icc: Some(vec![9]),
    }
}

#[test]
fn heif_unpremultiply_recovers_colour() {
    let img =
        Image::from_u8(1, 2, ColorType::Rgba, vec![64, 32, 0, 128, 10, 20, 30, 255]).unwrap();
    let out = unpremultiply(img);
    assert_eq!(
        out.samples().as_u8().unwrap(),
        &[128, 64, 0, 128, 10, 20, 30, 255]
    );
}

#[test]
fn finish_applies_orientation_only_where_the_binding_did_not() {
    let frame = |transformed| Frame {
        width: 2,
        height: 1,
        channels: 1,
        samples: Samples::U8(vec![1, 2]),
        premultiplied: false,
        transformed,
    };
    let header = header_with(Orientation::Rotate90);
    let os = finish(frame(false), &header).unwrap();
    assert_eq!((os.width(), os.height()), (1, 2));
    assert_eq!(os.samples().as_u8(), Some(&[1, 2][..]));
    assert_eq!(os.icc(), Some(&[9][..]));
    let lib = finish(frame(true), &header).unwrap();
    assert_eq!((lib.width(), lib.height()), (2, 1));
    assert_eq!(lib.icc(), Some(&[9][..]));
}

#[test]
fn finish_straightens_alpha_and_names_bad_layouts() {
    let header = header_with(Orientation::Normal);
    let out = finish(
        Frame {
            width: 1,
            height: 1,
            channels: 4,
            samples: Samples::U8(vec![64, 32, 0, 128]),
            premultiplied: true,
            transformed: false,
        },
        &header,
    )
    .unwrap();
    assert_eq!(out.samples().as_u8(), Some(&[128, 64, 0, 128][..]));
    let err = finish(
        Frame {
            width: 1,
            height: 1,
            channels: 5,
            samples: Samples::U8(vec![0; 5]),
            premultiplied: false,
            transformed: false,
        },
        &header,
    )
    .unwrap_err();
    assert!(matches!(err, Error::Codec(_)), "{err:?}");
}

#[test]
fn a_document_without_width_and_height_takes_its_view_box() {
    let svg = b"<svg xmlns=\"http://www.w3.org/2000/svg\" viewBox=\"0 0 10 5\"><rect width=\"1\" height=\"1\"/></svg>";
    assert_eq!(sqzer::codecs::svg::SvgDecoder.dimensions(svg), Some((10, 5)));
    let img = sqzer::codecs::svg::SvgDecoder.decode(svg, &sqzer::params::DecodeOpts::default()).unwrap();
    assert_eq!((img.width(), img.height()), (10, 5));
    assert_eq!(img.color(), sqzer::image::ColorType::Rgba);
}

#[test]
fn file_references_are_refused() {
    let svg = b"<svg xmlns=\"http://www.w3.org/2000/svg\" xmlns:xlink=\"http://www.w3.org/1999/xlink\" width=\"2\" height=\"2\"><image xlink:href=\"/etc/hostname\" width=\"2\" height=\"2\"/></svg>";
    let img = sqzer::codecs::svg::SvgDecoder.decode(svg, &sqzer::params::DecodeOpts::default()).unwrap();
    assert_eq!(img.color(), sqzer::image::ColorType::Rgba);
    assert!(img.samples().as_u8().unwrap().iter().all(|&b| b == 0));
}

#[test]
fn an_opaque_document_is_rgb_and_the_limit_applies() {
    let svg = b"<svg xmlns=\"http://www.w3.org/2000/svg\" width=\"4\" height=\"3\"><rect width=\"4\" height=\"3\" fill=\"#ff0000\"/></svg>";
    let img = sqzer::codecs::svg::SvgDecoder.decode(svg, &sqzer::params::DecodeOpts::default()).unwrap();
    assert_eq!((img.width(), img.height(), img.color()), (4, 3, sqzer::image::ColorType::Rgb));
    assert_eq!(&img.samples().as_u8().unwrap()[..6], &[255, 0, 0, 255, 0, 0]);
    let small = sqzer::params::DecodeOpts { max_pixels: 11, apply_orientation: true };
    assert!(matches!(
        sqzer::codecs::svg::SvgDecoder.decode(svg, &small),
        Err(sqzer::error::Error::TooLarge { pixels: 12, limit: 11 })
    ));
    assert!(matches!(
        sqzer::codecs::svg::SvgDecoder.decode(b"<svg", &sqzer::params::DecodeOpts::default()),
        Err(sqzer::error::Error::Codec(_))
    ));
}

#[test]
fn renderings_become_rgb_or_demultiplied_rgba() {
    let opaque = [1u8, 2, 3, 255, 4, 5, 6, 255];
    let img = sqzer::codecs::svg::svg_image(2, 1, &opaque).unwrap();
    assert_eq!(img.samples().as_u8().unwrap(), &[1, 2, 3, 4, 5, 6]);
    // Half-transparent red, premultiplied: 128 of 255 red at alpha 128.
    let half = [128u8, 0, 0, 128, 0, 0, 0, 0];
    let img = sqzer::codecs::svg::svg_image(2, 1, &half).unwrap();
    assert_eq!(img.color(), sqzer::image::ColorType::Rgba);
    assert_eq!(img.samples().as_u8().unwrap(), &[255, 0, 0, 128, 0, 0, 0, 0]);
    assert!(matches!(
        sqzer::codecs::svg::svg_image(1, 1, &[9, 0, 0, 8]),
        Err(sqzer::error::Error::Codec(_))
    ));
    assert!(matches!(
        sqzer::codecs::svg::svg_image(3, 1, &opaque),
        Err(sqzer::error::Error::InvalidInput(_))
    ));
}

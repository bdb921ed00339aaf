use sqzer::cli::output::Template;
use sqzer::codecs::png::{PngDecoder, PngEncoder};
use sqzer::codecs::raster::{decode_raster, RasterKind};
use sqzer::codecs::svg::SvgDecoder;
use sqzer::codecs::tiff::TiffDecoder;
use sqzer::codecs::webp::WebPDecoder;
use sqzer::error::Error;
use sqzer::format::Format;
use sqzer::image::{ColorType, Image, Samples};
use sqzer::params::DecodeOpts;

fn opts() -> DecodeOpts {
    DecodeOpts { max_pixels: 1 << 20, apply_orientation: true }
}

#[test]
fn png_encode_then_decode_keeps_8_bit_pixels() {
    let px = vec![1u8, 2, 3, 4, 5, 6, 7, 8, 9, 10, 11, 12];
    let img = Image::new(2, 2, ColorType::Rgb, Samples::U8(px.clone())).unwrap();
    for effort in [0u8, 2, 6, 10] {
        let bytes = PngEncoder.encode(&img, effort, &[]).unwrap();
        let back = PngDecoder.decode(&bytes, &opts()).unwrap();
        assert_eq!((back.width(), back.height(), back.color()), (2, 2, ColorType::Rgb));
        assert_eq!(back.samples().as_u8().unwrap(), px.as_slice());
    }
}

#[test]
fn png_encode_then_decode_keeps_16_bit_pixels_and_profile() {
    let px = vec![0u16, 0x0102, 0xFFFF, 0x8000];
    let img = Image::new(2, 1, ColorType::GrayAlpha, Samples::U16(px.clone()))
        .unwrap()
        .with_icc(Some(vec![9, 8, 7]));
    let bytes = PngEncoder.encode(&img, 6, &["jpeg:progressive".to_string()]).unwrap();
    let back = PngDecoder.decode(&bytes, &opts()).unwrap();
    assert_eq!(back.color(), ColorType::GrayAlpha);
    assert_eq!(back.samples().as_u16().unwrap(), px.as_slice());
    assert_eq!(back.icc(), Some(&[9u8, 8, 7][..]));
}

#[test]
fn png_encoder_refuses_its_own_options_and_floats() {
    let img = Image::new(1, 1, ColorType::Gray, Samples::U8(vec![0])).unwrap();
    let keys = ["avif:speed".to_string(), "png:zopfli".to_string(), "png:other".to_string()];
    match PngEncoder.encode(&img, 6, &keys) {
        Err(Error::InvalidParams(m)) => assert_eq!(m, "unknown png option `zopfli`"),
        other => panic!("{other:?}"),
    }
    let hdr = Image::new(1, 1, ColorType::Gray, Samples::F32(vec![0])).unwrap();
    match PngEncoder.encode(&hdr, 6, &[]) {
        Err(Error::Unsupported { format, what }) => {
            assert_eq!(format, Format::Png);
            assert_eq!(what, "float (HDR) samples");
        }
        other => panic!("{other:?}"),
    }
}

#[test]
fn png_decode_refuses_truncated_frame_data() {
    let img = Image::new(4, 4, ColorType::Rgba, Samples::U8(vec![200; 64])).unwrap();
    let bytes = PngEncoder.encode(&img, 6, &[]).unwrap();
    let cut = &bytes[..bytes.len() - 20];
    assert!(matches!(PngDecoder.decode(cut, &opts()), Err(Error::Codec(_))));
}

#[test]
fn webp_lossless_decodes_to_its_pixels() {
    let px = vec![10u8, 20, 30, 40, 50, 60, 70, 80, 90];
    let mut out = Vec::new();
    image_webp::WebPEncoder::new(&mut out)
        .encode(&px, 3, 1, image_webp::ColorType::Rgb8)
        .unwrap();
    let img = WebPDecoder.decode(&out, &opts()).unwrap();
    assert_eq!((img.width(), img.height(), img.color()), (3, 1, ColorType::Rgb));
    assert_eq!(img.samples().as_u8().unwrap(), px.as_slice());
    assert!(img.icc().is_none());
}

#[test]
fn webp_above_the_pixel_limit_is_too_large() {
    let mut out = Vec::new();
    image_webp::WebPEncoder::new(&mut out)
        .encode(&[0u8; 12], 2, 2, image_webp::ColorType::Rgb8)
        .unwrap();
    let small = DecodeOpts { max_pixels: 3, apply_orientation: true };
    assert!(matches!(
        WebPDecoder.decode(&out, &small),
        Err(Error::TooLarge { pixels: 4, limit: 3 })
    ));
}

#[test]
fn tiff_gray_and_rgb16_decode_to_their_samples() {
    let mut buf = std::io::Cursor::new(Vec::new());
    tiff::encoder::TiffEncoder::new(&mut buf)
        .unwrap()
        .write_image::<tiff::encoder::colortype::Gray8>(3, 2, &[1, 2, 3, 4, 5, 6])
        .unwrap();
    let img = TiffDecoder.decode(buf.get_ref(), &opts()).unwrap();
    assert_eq!((img.width(), img.height(), img.color()), (3, 2, ColorType::Gray));
    assert_eq!(img.samples().as_u8().unwrap(), &[1, 2, 3, 4, 5, 6]);

    let mut buf = std::io::Cursor::new(Vec::new());
    tiff::encoder::TiffEncoder::new(&mut buf)
        .unwrap()
        .write_image::<tiff::encoder::colortype::RGB16>(1, 1, &[1, 300, 65535])
        .unwrap();
    let img = TiffDecoder.decode(buf.get_ref(), &opts()).unwrap();
    assert_eq!(img.color(), ColorType::Rgb);
    assert_eq!(img.samples().as_u16().unwrap(), &[1, 300, 65535]);
}

#[test]
fn pnm_files_decode_through_image() {
    let mut pgm = b"P5\n2 1\n255\n".to_vec();
    pgm.extend_from_slice(&[7, 250]);
    let img = decode_raster(RasterKind::Pnm, &pgm, &opts()).unwrap();
    assert_eq!((img.width(), img.height(), img.color()), (2, 1, ColorType::Gray));
    assert_eq!(img.samples().as_u8().unwrap(), &[7, 250]);

    let mut deep = b"P5\n1 1\n65535\n".to_vec();
    deep.extend_from_slice(&[0x12, 0x34]);
    let img = decode_raster(RasterKind::Pnm, &deep, &opts()).unwrap();
    assert_eq!(img.samples().as_u16().unwrap(), &[0x1234]);

    let mut ppm = b"P6\n1 1\n255\n".to_vec();
    ppm.extend_from_slice(&[1, 2, 3]);
    let img = decode_raster(RasterKind::Pnm, &ppm, &opts()).unwrap();
    assert_eq!(img.color(), ColorType::Rgb);
    assert_eq!(img.samples().as_u8().unwrap(), &[1, 2, 3]);
}

#[test]
fn raster_errors_name_their_cause() {
    assert!(matches!(decode_raster(RasterKind::Qoi, b"not qoi at all", &opts()), Err(Error::Codec(_))));
    let mut pgm = b"P5\n4 4\n255\n".to_vec();
    pgm.extend_from_slice(&[0; 16]);
    let small = DecodeOpts { max_pixels: 15, apply_orientation: true };
    assert!(matches!(
        decode_raster(RasterKind::Pnm, &pgm, &small),
        Err(Error::TooLarge { pixels: 16, limit: 15 })
    ));
}

#[test]
fn svg_without_text_decodes_at_its_size() {
    let doc = br#"<svg xmlns="http://www.w3.org/2000/svg" width="3" height="2"><rect width="3" height="2" fill="red"/></svg>"#;
    assert_eq!(SvgDecoder.dimensions(doc), Some((3, 2)));
    let img = SvgDecoder.decode(doc, &opts()).unwrap();
    assert_eq!((img.width(), img.height(), img.color()), (3, 2, ColorType::Rgb));
    assert_eq!(&img.samples().as_u8().unwrap()[..3], &[255, 0, 0]);
    let small = DecodeOpts { max_pixels: 5, apply_orientation: true };
    assert!(matches!(
        SvgDecoder.decode(doc, &small),
        Err(Error::TooLarge { pixels: 6, limit: 5 })
    ));
}

#[test]
fn stray_closing_brace_before_a_placeholder_is_refused() {
    assert!(Template::new("}{stem}").is_err());
    assert!(Template::new("{stem}.{ext}").is_ok());
    assert!(Template::new("{nope}").unwrap_err().contains("{nope}"));
    assert!(Template::new("{stem").is_err());
    assert!(Template::new("stem}").is_err());
}

#[test]
fn backends_decode_through_the_first_claiming_decoder() {
    let img = Image::new(1, 1, ColorType::Gray, Samples::U8(vec![42])).unwrap();
    let bytes = PngEncoder.encode(&img, 6, &[]).unwrap();
    let (back, info) = sqzer::backends::decode(&bytes, &opts()).unwrap();
    assert_eq!(info.format, Format::Png);
    assert_eq!(back.samples().as_u8().unwrap(), &[42]);
    assert!(matches!(sqzer::backends::decode(b"nothing at all", &opts()), Err(Error::UnknownFormat)));
}

#[test]
fn backends_read_header_sizes_and_refuse_missing_encoders() {
    let img = Image::new(3, 2, ColorType::Rgb, Samples::U8(vec![9; 18])).unwrap();
    let bytes = sqzer::backends::encode(Format::Png, &img, 6, &[]).unwrap();
    assert_eq!(sqzer::backends::dimensions(&bytes), Some((3, 2)));
    assert_eq!(sqzer::backends::dimensions(b"not an image"), None);
    match sqzer::backends::encode(Format::Avif, &img, 6, &[]) {
        Err(Error::EncoderUnavailable { format, available_in }) => {
            assert_eq!(format, Format::Avif);
            assert_eq!(available_in, &["avif", "native-avif"][..]);
        }
        other => panic!("{other:?}"),
    }
    assert_eq!(sqzer::backends::encoders().len(), 1);
}

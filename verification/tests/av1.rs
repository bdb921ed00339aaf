use sqzer::codecs::av1::{to_rgb, Av1Frame, Av1Planes};
use sqzer::codecs::avif::{merge_alpha, AvifDecoder};
use sqzer::error::Error;
use sqzer::image::{ColorType, Samples};
use sqzer::params::DecodeOpts;

fn frame(layout: u8, matrix: u8, bits: u64, planes: Av1Planes, width: u32, stride: u32) -> Av1Frame {
    Av1Frame {
        width,
        height: 1,
        bits,
        layout,
        full_range: true,
        matrix,
        y_stride: stride,
        uv_stride: stride,
        planes,
    }
}

#[test]
fn gbr_pictures_shuffle_to_rgb() {
    let f = frame(3, 0, 8, Av1Planes::Eight { y: vec![1, 2, 0], u: vec![3, 4, 0], v: vec![5, 6, 0] }, 2, 3);
    let (color, samples) = to_rgb(&f).unwrap();
    assert_eq!(color, ColorType::Rgb);
    assert_eq!(samples.as_u8().unwrap(), &[5, 1, 3, 6, 2, 4]);
}

#[test]
fn deep_gbr_pictures_are_widened() {
    let f = frame(3, 0, 10, Av1Planes::Deep { y: vec![1023], u: vec![0], v: vec![512] }, 1, 2);
    let (_, samples) = to_rgb(&f).unwrap();
    assert_eq!(samples.as_u16().unwrap(), &[(512 << 6) | (512 >> 4), 0xFFFF, 0]);
}

#[test]
fn identity_with_subsampled_chroma_is_refused() {
    let f = frame(1, 0, 8, Av1Planes::Eight { y: vec![0, 0], u: vec![0], v: vec![0] }, 2, 2);
    match to_rgb(&f) {
        Err(Error::Codec(m)) => assert_eq!(m, "identity matrix with subsampled chroma"),
        other => panic!("{other:?}"),
    }
}

#[test]
fn odd_bit_depths_and_matrices_are_refused_by_name() {
    let f = frame(3, 1, 9, Av1Planes::Deep { y: vec![0], u: vec![0], v: vec![0] }, 1, 2);
    match to_rgb(&f) {
        Err(Error::Codec(m)) => assert_eq!(m, "unsupported AV1 bit depth 9"),
        other => panic!("{other:?}"),
    }
    let f = frame(3, 14, 8, Av1Planes::Eight { y: vec![0], u: vec![0], v: vec![0] }, 1, 1);
    match to_rgb(&f) {
        Err(Error::Codec(m)) => assert_eq!(m, "unsupported AV1 matrix coefficients ICtCp"),
        other => panic!("{other:?}"),
    }
}

#[test]
fn full_range_monochrome_keeps_its_luma() {
    let f = frame(0, 2, 8, Av1Planes::Eight { y: vec![0, 128, 255], u: vec![], v: vec![] }, 3, 3);
    let (color, samples) = to_rgb(&f).unwrap();
    assert_eq!(color, ColorType::Gray);
    assert_eq!(samples.as_u8().unwrap(), &[0, 128, 255]);
}

#[test]
fn alpha_is_merged_at_the_colour_depth() {
    let merged = merge_alpha(Samples::U8(vec![100]), &Samples::U8(vec![128]), 1, true);
    assert_eq!(merged.as_u8().unwrap(), &[199, 128]);
    let merged = merge_alpha(Samples::U8(vec![7, 9]), &Samples::U16(vec![0xFF00]), 2, false);
    assert_eq!(merged.as_u8().unwrap(), &[7, 9, 0xFF]);
    let merged = merge_alpha(Samples::U16(vec![1, 2, 3]), &Samples::U8(vec![2]), 3, false);
    assert_eq!(merged.as_u16().unwrap(), &[1, 2, 3, 514]);
}

#[test]
fn bytes_that_are_no_avif_are_a_codec_error() {
    let opts = DecodeOpts { max_pixels: 1 << 20, apply_orientation: true };
    assert!(matches!(AvifDecoder.decode(b"\0\0\0\x0cftypavif", &opts), Err(Error::Codec(_))));
}

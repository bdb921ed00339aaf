use sqzer::heif_dl::{check_loaded, decode_target, gray_with_alpha, not_found, plane_samples, Platform};
use sqzer::heif_imageio::{check_size, drop_filler, frame_of, plan_context};
use sqzer::heif_wic::{pack, Layout, WicFormat};
use sqzer::image::Samples;

#[test]
fn filler_is_dropped() {
    assert_eq!(
        drop_filler(Samples::U8(vec![1, 2, 3, 0, 4, 5, 6, 0])),
        Samples::U8(vec![1, 2, 3, 4, 5, 6])
    );
    assert_eq!(
        drop_filler(Samples::U16(vec![1, 2, 3, 0])),
        Samples::U16(vec![1, 2, 3])
    );
}

#[test]
fn opaque_frames_lose_the_filler_alpha() {
    let raw = pack(
        2,
        1,
        Layout {
            gray: false,
            deep: false,
            alpha: false,
        },
        vec![1, 2, 3, 255, 4, 5, 6, 255],
    );
    assert_eq!(raw.channels, 3);
    assert_eq!(raw.samples, Samples::U8(vec![1, 2, 3, 4, 5, 6]));
    let raw = pack(
        1,
        1,
        Layout {
            gray: false,
            deep: true,
            alpha: true,
        },
        vec![1, 0, 2, 0, 3, 0, 0xff, 0xff],
    );
    assert_eq!(raw.channels, 4);
    assert_eq!(raw.samples, Samples::U16(vec![1, 2, 3, 65535]));
}

#[test]
fn imageio_sizes_are_checked_in_order() {
    assert_eq!(check_size(4, 3, 12), Ok((4, 3)));
    assert_eq!(
        check_size(4, 3, 11),
        Err(sqzer::heif_imageio::Error::TooLarge {
            pixels: 12,
            limit: 11
        })
    );
    assert_eq!(
        check_size(0, 3, 12),
        Err(sqzer::heif_imageio::Error::Decode(
            "ImageIO reported an empty image".to_string()
        ))
    );
    assert_eq!(
        check_size(1 << 33, 1, u64::MAX),
        Err(sqzer::heif_imageio::Error::Decode(
            "ImageIO reported an oversized image".to_string()
        ))
    );
}

#[test]
fn imageio_context_follows_the_image() {
    let p = plan_context(10, false, false, true, false);
    assert!(p.gray && !p.device_rgb);
    assert_eq!((p.channels, p.bits, p.bytes_per_row, p.alpha_info, p.byte_order), (1, 8, 10, 0, 0));
    let p = plan_context(10, true, true, false, true);
    assert!(!p.gray && !p.device_rgb);
    assert_eq!((p.channels, p.bits, p.bytes_per_row, p.alpha_info, p.byte_order), (4, 16, 80, 1, 4096));
    let p = plan_context(3, false, false, false, false);
    assert!(p.device_rgb);
    assert_eq!((p.bytes_per_row, p.alpha_info), (12, 5));
    let f = frame_of(1, 1, false, false, Samples::U8(vec![9, 8, 7, 0]));
    assert_eq!((f.channels, f.samples), (3, Samples::U8(vec![9, 8, 7])));
    let f = frame_of(1, 1, false, true, Samples::U8(vec![9, 8, 7, 6]));
    assert!(f.premultiplied);
    assert_eq!(f.channels, 4);
}

#[test]
fn libheif_targets_and_planes() {
    assert_eq!(decode_target(true, true, true), (2, 0));
    assert_eq!(decode_target(false, false, false), (1, 10));
    assert_eq!(decode_target(false, true, false), (1, 11));
    assert_eq!(decode_target(false, false, true), (1, 14));
    assert_eq!(decode_target(false, true, true), (1, 15));
    // Two rows of one gray pixel, each row padded to four bytes.
    let data = [7u8, 0, 0, 0, 9];
    assert_eq!(
        plane_samples(&data, 4, 1, 2, 1, false, 8).unwrap(),
        Samples::U8(vec![7, 9])
    );
    // A 10-bit sample widened to 16 bits.
    let data = [0xFFu8, 0x03];
    assert_eq!(
        plane_samples(&data, 2, 1, 1, 1, true, 10).unwrap(),
        Samples::U16(vec![0xFFFF])
    );
    assert!(matches!(
        plane_samples(&[0u8; 8], 2, 1, 2, 3, false, 8),
        Err(sqzer::heif_dl::Error::Decode(_))
    ));
    assert_eq!(
        gray_with_alpha(Samples::U8(vec![1, 2]), 2, 1, Samples::U8(vec![3, 4]), 2, 1).unwrap(),
        Samples::U8(vec![1, 3, 2, 4])
    );
    assert_eq!(
        gray_with_alpha(Samples::U8(vec![1, 2]), 2, 1, Samples::U8(vec![3]), 1, 1)
            .unwrap_err()
            .message(),
        "alpha plane is 1x1, luma plane is 2x1"
    );
}

#[test]
fn layouts_are_classified() {
    let l = Layout::of(WicFormat::Bgra32);
    assert!(!l.gray && !l.deep && l.alpha);
    let l = Layout::of(WicFormat::Bgr24);
    assert!(!l.gray && !l.deep && !l.alpha);
    let l = Layout::of(WicFormat::Gray8);
    assert!(l.gray && !l.deep && !l.alpha);
    let l = Layout::of(WicFormat::Rgba64);
    assert!(!l.gray && l.deep && l.alpha);
    let l = Layout::of(WicFormat::Gray16);
    assert!(l.gray && l.deep && !l.alpha);
    let l = Layout::of(WicFormat::Rgb48);
    assert!(!l.gray && l.deep && !l.alpha);
    let l = Layout::of(WicFormat::Rgba1010102);
    assert!(!l.gray && l.deep && l.alpha);
    // Unknown: 8-bit RGBA, the conversion that always works.
    let l = Layout::of(WicFormat::Other);
    assert!(!l.gray && !l.deep && l.alpha);
}

#[test]
fn loaded_libraries_are_judged_by_version_and_plugins() {
    let p = "/usr/lib/libheif.so.1";
    assert_eq!(
        check_loaded(0x0110_0000, p, 1, None, Platform::Other),
        Err("libheif 1.16.0 at /usr/lib/libheif.so.1 is older than 1.17, the oldest sqzer supports".to_string())
    );
    assert_eq!(
        check_loaded(0x0112_0300, p, 0, Some("no plugin dir"), Platform::Other),
        Err("libheif 1.18.3 at /usr/lib/libheif.so.1 has no HEVC decoder plugin (Debian/Ubuntu: apt install libheif1 \
             libheif-plugin-libde265; Fedora: libheif-freeworld from RPM Fusion); plugin loading failed: no plugin dir"
            .to_string())
    );
    assert_eq!(
        check_loaded(0x0112_0000, "heif.dll", 0, None, Platform::Windows),
        Err("libheif 1.18.0 at heif.dll has no HEVC decoder plugin (put a libheif build's heif.dll on PATH)".to_string())
    );
    assert_eq!(check_loaded(0x0113_0200, p, 2, Some("ignored"), Platform::Other), Ok((1, 19, 2)));
    assert_eq!(check_loaded(0x0111_0000, p, 1, None, Platform::MacOs), Ok((1, 17, 0)));
    assert_eq!(
        not_found(Platform::MacOs),
        "libheif.1.dylib not found (brew install libheif, or point SQZER_LIBHEIF at it)"
    );
}

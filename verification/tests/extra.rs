use sqzer::metric::check_dimensions;
use sqzer::cli::report::{exit_code, worker_count};
use exr::image::write::WritableImage;
use sqzer::cli::budget::PixelBudget;
use sqzer::cli::config::split_codec_opt;
use sqzer::cli::inputs::{has_glob_chars, resolve, rimage_hint, GlobEntry, Input, Lookup};
use sqzer::cli::job::{stdin_destination, write_step, WriteStep};
use sqzer::cli::native_set::{left_out, NativeSet, TargetKind};
use sqzer::cli::output::{replace_text, PlaceError, Template};
use sqzer::cli::report::{Status, Tally};
use sqzer::codecs::exr::ExrDecoder;
use sqzer::codecs::gif::{gif_image, GifDecoder};
use sqzer::codecs::jpeg::JpegDecoder;
use sqzer::codecs::jxl::jxl_layout;
use sqzer::codecs::png::{png_image, PngDecoder};
use sqzer::codecs::tiff::{expand_palette, TiffDecoder};
use sqzer::codecs::webp::WebPDecoder;
use sqzer::error::Error;
use sqzer::format::Format;
use sqzer::image::{ColorType, Orientation, Samples};
use sqzer::params::DecodeOpts;

fn png_bytes(w: u32, h: u32, color: png::ColorType, depth: png::BitDepth, data: &[u8]) -> Vec<u8> {
    let mut buf = Vec::new();
    {
        let mut enc = png::Encoder::new(&mut buf, w, h);
        enc.set_color(color);
        enc.set_depth(depth);
        let mut writer = enc.write_header().unwrap();
        writer.write_image_data(data).unwrap();
    }
    buf
}

#[test]
fn png_decodes_what_it_was_given() {
    let bytes = png_bytes(2, 1, png::ColorType::Rgb, png::BitDepth::Eight, &[1, 2, 3, 4, 5, 6]);
    let img = PngDecoder.decode(&bytes, &DecodeOpts::default()).unwrap();
    assert_eq!((img.width(), img.height(), img.color()), (2, 1, ColorType::Rgb));
    assert_eq!(img.samples().as_u8(), Some(&[1, 2, 3, 4, 5, 6][..]));
    let bytes = png_bytes(1, 1, png::ColorType::Grayscale, png::BitDepth::Sixteen, &[0x12, 0x34]);
    let img = PngDecoder.decode(&bytes, &DecodeOpts::default()).unwrap();
    assert_eq!(img.samples().as_u16(), Some(&[0x1234][..]));
    let small = DecodeOpts {
        max_pixels: 1,
        apply_orientation: true,
    };
    let bytes = png_bytes(2, 1, png::ColorType::Rgb, png::BitDepth::Eight, &[1, 2, 3, 4, 5, 6]);
    assert!(matches!(
        PngDecoder.decode(&bytes, &small),
        Err(Error::TooLarge { pixels: 2, limit: 1 })
    ));
    assert!(matches!(PngDecoder.decode(b"\x89PNG\r\n\x1a\n", &DecodeOpts::default()), Err(Error::Codec(_))));
}

#[test]
fn png_frames_become_images_by_depth() {
    let img = png_image(1, 1, ColorType::Gray, 16, None, vec![0xAB, 0xCD]).unwrap();
    assert_eq!(img.samples().as_u16(), Some(&[0xABCD][..]));
    let err = png_image(1, 1, ColorType::Gray, 4, None, vec![0]).unwrap_err();
    assert_eq!(err.message(), "codec error: bit depth Four survived EXPAND");
    let img = png_image(1, 1, ColorType::Gray, 8, Some(vec![7]), vec![9]).unwrap();
    assert_eq!(img.icc(), Some(&[7][..]));
}

#[test]
fn gif_decodes_the_first_frame() {
    let mut buf = Vec::new();
    {
        let palette = [0u8, 0, 0, 255, 255, 255];
        let mut enc = gif::Encoder::new(&mut buf, 2, 1, &palette).unwrap();
        let frame = gif::Frame {
            width: 2,
            height: 1,
            buffer: std::borrow::Cow::Borrowed(&[0, 1]),
            ..gif::Frame::default()
        };
        enc.write_frame(&frame).unwrap();
    }
    let img = GifDecoder.decode(&buf, &DecodeOpts::default()).unwrap();
    assert_eq!(img.color(), ColorType::Rgb);
    assert_eq!(img.samples().as_u8(), Some(&[0, 0, 0, 255, 255, 255][..]));
    assert!(matches!(
        GifDecoder.decode(b"not a gif", &DecodeOpts::default()),
        Err(Error::Codec(m)) if m == "not a GIF"
    ));
}

#[test]
fn gif_frames_are_drawn_onto_the_screen() {
    // A 1 x 1 frame at (1, 0) on a 2 x 2 screen.
    let img = gif_image(2, 2, 1, 0, 1, 1, None, vec![9, 8, 7, 255]).unwrap();
    assert_eq!(img.color(), ColorType::Rgba);
    assert_eq!(
        img.samples().as_u8(),
        Some(&[0, 0, 0, 0, 9, 8, 7, 255, 0, 0, 0, 0, 0, 0, 0, 0][..])
    );
    // A frame hanging off the screen is clipped.
    let img = gif_image(1, 1, 0, 0, 2, 1, Some(0), vec![1, 2, 3, 4, 5, 6, 7, 8]).unwrap();
    assert_eq!(img.samples().as_u8(), Some(&[1, 2, 3, 4][..]));
}

#[test]
fn tiff_decodes_what_it_was_given() {
    let mut buf = std::io::Cursor::new(Vec::new());
    {
        let mut enc = tiff::encoder::TiffEncoder::new(&mut buf).unwrap();
        enc.write_image::<tiff::encoder::colortype::RGB8>(2, 1, &[1, 2, 3, 4, 5, 6])
            .unwrap();
    }
    let bytes = buf.into_inner();
    let img = TiffDecoder.decode(&bytes, &DecodeOpts::default()).unwrap();
    assert_eq!((img.width(), img.height(), img.color()), (2, 1, ColorType::Rgb));
    assert_eq!(img.samples().as_u8(), Some(&[1, 2, 3, 4, 5, 6][..]));
    assert_eq!(TiffDecoder.dimensions(&bytes), Some((2, 1)));
}

#[test]
fn palette_indices_go_through_the_colour_map() {
    // Two entries: red plane, green plane, blue plane.
    let map = vec![10, 20, 30, 40, 50, 60];
    assert_eq!(
        expand_palette(Some(map.clone()), &[1, 0, 7]).unwrap(),
        vec![20, 40, 60, 10, 30, 50, 20, 40, 60]
    );
    assert_eq!(
        expand_palette(None, &[0]).unwrap_err().message(),
        "codec error: palette TIFF without a colour map"
    );
    assert_eq!(
        expand_palette(Some(vec![1, 2]), &[0]).unwrap_err().message(),
        "codec error: empty TIFF colour map"
    );
}

#[test]
fn webp_decodes_what_it_was_given() {
    let mut buf = Vec::new();
    image_webp::WebPEncoder::new(&mut buf)
        .encode(&[1, 2, 3, 4, 5, 6], 2, 1, image_webp::ColorType::Rgb8)
        .unwrap();
    let img = WebPDecoder.decode(&buf, &DecodeOpts::default()).unwrap();
    assert_eq!((img.width(), img.height(), img.color()), (2, 1, ColorType::Rgb));
    assert_eq!(img.samples().as_u8(), Some(&[1, 2, 3, 4, 5, 6][..]));
}

#[test]
fn exr_decodes_float_samples() {
    let image = exr::image::Image::from_channels(
        (2usize, 1usize),
        exr::image::SpecificChannels::rgb(|_: exr::math::Vec2<usize>| (0.5f32, 0.25f32, 1.0f32)),
    );
    let mut buf = std::io::Cursor::new(Vec::new());
    image.write().to_buffered(&mut buf).unwrap();
    let bytes = buf.into_inner();
    assert_eq!(ExrDecoder.dimensions(&bytes), Some((2, 1)));
    let img = ExrDecoder.decode(&bytes, &DecodeOpts::default()).unwrap();
    assert_eq!(img.color(), ColorType::Rgb);
    let px = [0.5f32.to_bits(), 0.25f32.to_bits(), 1.0f32.to_bits()];
    assert_eq!(
        img.samples().as_f32(),
        Some(&[px[0], px[1], px[2], px[0], px[1], px[2]][..])
    );
}

#[test]
fn jpeg_garbage_is_a_codec_error() {
    assert!(matches!(
        JpegDecoder.decode(&[0xFF, 0xD8, 0xFF], &DecodeOpts::default()),
        Err(Error::Codec(_))
    ));
    assert_eq!(JpegDecoder.dimensions(b"\x89PNG"), None);
}

#[test]
fn jxl_layouts_follow_the_pixel_format() {
    assert_eq!(jxl_layout(2, true, false, Some(8)).unwrap(), (ColorType::Rgb, true, false));
    assert_eq!(jxl_layout(1, true, true, Some(12)).unwrap(), (ColorType::GrayAlpha, false, true));
    assert_eq!(jxl_layout(3, false, false, None).unwrap(), (ColorType::Rgba, false, true));
    assert_eq!(
        jxl_layout(4, false, false, Some(8)).unwrap_err().message(),
        "codec error: CMYK JPEG XL is not supported"
    );
}

#[test]
fn orientation_laws_on_every_pair() {
    for a in Orientation::ALL {
        for b in Orientation::ALL {
            for c in Orientation::ALL {
                assert_eq!(
                    a.followed_by(b).followed_by(c),
                    a.followed_by(b.followed_by(c))
                );
            }
        }
        assert_eq!(a.followed_by(Orientation::Normal), a);
        assert_eq!(a.swaps_axes(), a.followed_by(a).followed_by(a).swaps_axes());
    }
}

#[test]
fn a_released_reservation_gives_its_pixels_back() {
    let mut b = PixelBudget::new(100);
    let before = b.used();
    let r = b.reserve(40).unwrap();
    b.release(r);
    assert_eq!(b.used(), before);
    let _held = b.reserve(70).unwrap();
    assert!(b.reserve(40).is_none());
}

#[test]
fn tallies_merge_in_any_order() {
    let mut a = Tally::default();
    a.add(Status::Written, Some(10), None);
    let mut b = Tally::default();
    b.add(Status::Failed, None, None);
    b.add(Status::Planned, None, None);
    assert_eq!(a.merge(b), b.merge(a));
    assert_eq!(a.merge(b).total(), a.total() + b.total());
    assert_eq!(a.merge(b).output_bytes, 0);
    assert_eq!(Status::default(), Status::Failed);
    assert_eq!(Status::Skipped.name(), "skipped");
}

#[test]
fn rimage_hints_name_the_rewrite_exactly() {
    let argv: Vec<String> = ["oxipng", "-s", "_o", "--quantization", "a.png"]
        .iter()
        .map(ToString::to_string)
        .collect();
    assert_eq!(
        rimage_hint(&argv, false).unwrap(),
        "`sqzer oxipng` is rimage syntax. try:\n    sqzer -f png --suffix _o --codec-opt png:colors= a.png\nsee the README for the flag mapping"
    );
    assert!(rimage_hint(&argv, true).is_none());
    assert_eq!(
        rimage_hint(&["jxl".to_string()], false).unwrap(),
        "`sqzer jxl` is rimage syntax. try:\n    sqzer -f jxl\nsee the README for the flag mapping"
    );
}

#[test]
fn every_lookup_has_its_message() {
    let args: Vec<String> = ["a*", "b*", "c", "d", "dir"].iter().map(ToString::to_string).collect();
    let r = resolve(
        &args,
        &[
            Lookup::Glob(None),
            Lookup::Glob(Some(vec![])),
            Lookup::Missing(None),
            Lookup::Missing(Some("permission denied".to_string())),
            Lookup::Dir(vec![]),
        ],
        true,
    );
    let why: Vec<&str> = r.failures.iter().map(|(_, w)| w.as_str()).collect();
    assert_eq!(
        why,
        vec!["is not a valid glob", "no files match", "no such file", "permission denied", "no images under it"]
    );
    assert!(r.inputs.is_empty());
    assert!(has_glob_chars("x[1]") && !has_glob_chars("plain"));
}

#[test]
fn globs_and_trees_share_one_list_without_duplicates() {
    let entries = vec![
        GlobEntry {
            path: "p/a.png".to_string(),
            is_dir: false,
            tree: vec![],
        },
        GlobEntry {
            path: "p/sub".to_string(),
            is_dir: true,
            tree: vec!["p/sub/b.png".to_string(), "p/a.png".to_string()],
        },
    ];
    let r = resolve(
        &["p/*".to_string(), "p/a.png".to_string()],
        &[Lookup::Glob(Some(entries)), Lookup::File],
        true,
    );
    assert_eq!(
        r.inputs,
        vec![
            Input::File("p/a.png".to_string()),
            Input::InTree {
                root: "p/sub".to_string(),
                path: "p/sub/b.png".to_string()
            },
        ]
    );
    assert_eq!(r.inputs[1].relative_dir(), "");
}

#[test]
fn template_messages_are_exact() {
    assert_eq!(
        Template::new("{stem").unwrap_err(),
        "unclosed `{` in template `{stem`"
    );
    assert_eq!(Template::new("a}").unwrap_err(), "stray `}` in template `a}`");
    assert_eq!(Template::new("}{stem}").unwrap_err(), "stray `}` in template `}{stem}`");
    assert!(Template::new("{stem}}{ext}").is_err());
    assert_eq!(
        Template::new("{x}").unwrap_err(),
        "unknown placeholder `{x}` in template; one of {stem} {ext} {width} {height} {format} {quality} {dir} {name}"
    );
    assert_eq!(replace_text("aXbXXc", "X", "yy"), "ayybyyyyc");
    assert_eq!(replace_text("aaa", "aa", "b"), "ba");
}

#[test]
fn placement_errors_read_as_prose() {
    assert_eq!(
        PlaceError::OverwritesInput.message(),
        "output would overwrite input; use -o, --suffix or --in-place"
    );
    assert_eq!(
        PlaceError::InPlaceChangesFormat {
            from: Format::Jpeg,
            to: Format::Avif
        }
        .message(),
        "--in-place would turn JPEG into AVIF; drop -f or use -o"
    );
}

#[test]
fn writes_are_skipped_refused_or_backed_up() {
    assert_eq!(
        write_step("a.jpg", false, false, false, 20, 10, false, false),
        WriteStep::Skip(
            "output (20 bytes) is larger than input (10 bytes); --force writes it anyway".to_string()
        )
    );
    assert_eq!(
        write_step("a.jpg", false, false, false, 5, 10, false, true),
        WriteStep::Refuse("output exists; --force overwrites it".to_string())
    );
    assert_eq!(
        write_step("d/a.jpg", false, true, true, 5, 10, true, true),
        WriteStep::Refuse("backup d/a@backup.jpg exists; --force overwrites it".to_string())
    );
    assert_eq!(
        write_step("d/a.jpg", true, true, true, 50, 10, true, true),
        WriteStep::BackUpThenWrite("d/a@backup.jpg".to_string())
    );
    assert_eq!(write_step("a.jpg", true, false, false, 50, 10, false, true), WriteStep::Write);
    assert_eq!(stdin_destination(None, false, Format::Png), None);
    assert_eq!(stdin_destination(Some("o.png"), true, Format::Png), Some("o.png".to_string()));
    assert_eq!(stdin_destination(Some("out"), false, Format::WebP), Some("out/stdin.webp".to_string()));
}

#[test]
fn native_builds_say_why_a_feature_is_missing() {
    let musl = NativeSet {
        native: true,
        jxl: false,
        jpegli: false,
        heic: false,
        target: TargetKind::Other,
    };
    assert!(left_out("native-jxl", musl).unwrap().contains("musl"));
    assert!(left_out("native-heif", musl).unwrap().contains("libheif"));
    assert!(left_out("native-avif", musl).is_none());
    let windows = NativeSet {
        target: TargetKind::Windows,
        ..musl
    };
    assert!(left_out("native-jpegli", windows).unwrap().ends_with("on Windows"));
    let portable = NativeSet {
        native: false,
        ..musl
    };
    assert!(left_out("native-jxl", portable).is_none());
}

#[test]
fn codec_options_split_in_three() {
    let (c, k, v) = split_codec_opt("jpeg:progressive=false").unwrap();
    assert_eq!((c.as_str(), k.as_str(), v.as_str()), ("jpeg", "progressive", "false"));
    let (c, k, v) = split_codec_opt("a:b=c=d").unwrap();
    assert_eq!((c.as_str(), k.as_str(), v.as_str()), ("a", "b", "c=d"));
    let (_, _, v) = split_codec_opt("a:b=").unwrap();
    assert_eq!(v, "");
    let err = split_codec_opt("jpeg:progressive").unwrap_err();
    assert_eq!(err.code, 2);
    assert_eq!(
        err.message,
        "`jpeg:progressive`: a codec option is `codec:key=value`, for example `jpeg:progressive=false`"
    );
    assert!(split_codec_opt(":k=v").is_err());
    assert!(split_codec_opt("c:=v").is_err());
}

#[test]
fn samples_report_their_format() {
    let s = Samples::U16(vec![1, 2, 3]);
    assert_eq!(s.len(), 3);
    assert!(s.as_u8().is_none());
}

#[test]
fn metric_inputs_must_match_in_size() {
    let a = sqzer::image::Image::from_u8(32, 24, sqzer::image::ColorType::Rgb, vec![0; 32 * 24 * 3]).unwrap();
    let b = sqzer::image::Image::from_u8(24, 32, sqzer::image::ColorType::Rgb, vec![0; 32 * 24 * 3]).unwrap();
    match check_dimensions(&a, &b) {
        Err(sqzer::error::Error::InvalidInput(m)) => {
            assert_eq!(m, "metric inputs differ in size: reference 32x24, candidate 24x32")
        }
        other => panic!("unexpected: {other:?}"),
    }
    assert!(check_dimensions(&a, &a).is_ok());
}

#[test]
fn exit_codes_and_worker_counts() {
    let mut t = Tally::default();
    t.add(Status::Written, Some(10), Some(5));
    t.add(Status::Skipped, Some(10), Some(20));
    assert_eq!(exit_code(&t, 0), 0);
    assert_eq!(exit_code(&t, 1), 1);
    t.add(Status::Failed, None, None);
    assert_eq!(exit_code(&t, 0), 1);
    assert_eq!(worker_count(8, 3), 3);
    assert_eq!(worker_count(2, 30), 2);
    assert_eq!(worker_count(0, 5), 1);
    assert_eq!(worker_count(4, 0), 1);
}

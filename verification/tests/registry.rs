use sqzer::cli::listing::{render, render_unavailable};
use sqzer::cli::report::Need;
use sqzer::cli::config::{check_codec_opt, check_formats, TargetMode};
use sqzer::cli::native_set::{NativeSet, TargetKind};
use sqzer::codecs::jpeg::JpegDecoder;
use sqzer::codecs::jxl::JxlDecoder;
use sqzer::codecs::png::PngDecoder;
use sqzer::error::Error;
use sqzer::format::{CodecOption, DecoderCaps, EncoderCaps, Format, FormatInfo, Tier};
use sqzer::registry::{decode_pick, encoder_pick, has_decoder, has_encoder, identify, probe, DecoderState, Sniff};

fn decoder_caps(format: Format, name: &'static str) -> DecoderCaps {
    DecoderCaps { format, name, animation: false, tier: Tier::Native }
}

/// What a decoder recognising `FAKE` says about `bytes`.
fn fake(caps: DecoderCaps, bytes: &[u8], unavailable: Option<&str>) -> Sniff {
    let info = if bytes.starts_with(b"FAKE") {
        Some(FormatInfo { format: caps.format, animated: false })
    } else {
        None
    };
    Sniff { caps, info, unavailable: unavailable.map(|s| s.to_string()) }
}

fn sniff_heic(bytes: &[u8]) -> Option<FormatInfo> {
    if bytes.starts_with(b"HEIC") {
        Some(FormatInfo { format: Format::Heic, animated: false })
    } else {
        None
    }
}

fn encoder_caps(format: Format, name: &'static str, tier: Tier) -> EncoderCaps {
    EncoderCaps {
        format,
        name,
        lossy: true,
        lossless: false,
        alpha: false,
        animation: false,
        bit_depth: &[8],
        hdr: false,
        effort_min: 0,
        effort_max: 10,
        exif: false,
        xmp: false,
        tier,
        options: &[],
    }
}

#[test]
fn missing_encoder_names_features() {
    match encoder_pick(&[], Format::WebP) {
        Err(Error::EncoderUnavailable { format: Format::WebP, available_in }) => {
            assert_eq!(available_in, &["webp-lossless", "native-webp"])
        }
        Err(other) => panic!("unexpected error: {}", other.message()),
        Ok(_) => panic!("unexpected encoder"),
    }
}

#[test]
fn last_registered_encoder_wins() {
    let encoders = [
        encoder_caps(Format::Jpeg, "portable", Tier::Portable),
        encoder_caps(Format::Jpeg, "native", Tier::Native),
    ];
    let formats: Vec<Format> = encoders.iter().map(|e| e.format).collect();
    let owner = encoder_pick(&formats, Format::Jpeg).unwrap();
    assert_eq!(encoders[owner].name, "native");
    assert!(has_encoder(&formats, Format::Jpeg));
    assert!(!has_encoder(&formats, Format::Png));
}

#[test]
fn decode_dispatches_on_probe() {
    let gif = DecoderCaps { format: Format::Gif, name: "fake", animation: false, tier: Tier::Portable };
    assert!(matches!(decode_pick(&[fake(gif.clone(), b"nope", None)], None), Err(Error::UnknownFormat)));
    let (i, info) = decode_pick(&[fake(gif.clone(), b"FAKE!", None)], None).unwrap();
    assert_eq!(i, 0);
    assert_eq!(info.format, Format::Gif);
    let state = [DecoderState { caps: gif, unavailable: None }];
    assert!(has_decoder(&state, Format::Gif));
    assert!(!has_decoder(&state, Format::Png));
}

#[test]
fn unavailable_decoder_is_skipped_for_the_next_one() {
    let sniffs = [
        fake(decoder_caps(Format::Heic, "os"), b"FAKE!", Some("no codec pack")),
        fake(decoder_caps(Format::Heic, "loader"), b"FAKE!", None),
    ];
    let (info, i) = probe(&sniffs).unwrap();
    assert_eq!(info.format, Format::Heic);
    assert_eq!(sniffs[i].caps.name, "loader");
    assert!(decode_pick(&sniffs, None).is_ok());
    let state = [
        DecoderState { caps: decoder_caps(Format::Heic, "os"), unavailable: Some("no codec pack".to_string()) },
        DecoderState { caps: decoder_caps(Format::Heic, "loader"), unavailable: None },
    ];
    assert!(has_decoder(&state, Format::Heic));
}

#[test]
fn nothing_usable_names_every_reason() {
    let sniffs = [
        fake(decoder_caps(Format::Heic, "os"), b"FAKE!", Some("no codec pack")),
        fake(decoder_caps(Format::Heic, "loader"), b"FAKE!", Some("libheif.so.1 not found")),
    ];
    assert!(probe(&sniffs).is_none(), "probe hides the unusable");
    assert_eq!(identify(&sniffs, None).map(|i| i.format), Some(Format::Heic));
    let state = [
        DecoderState { caps: decoder_caps(Format::Heic, "os"), unavailable: Some("no codec pack".to_string()) },
        DecoderState { caps: decoder_caps(Format::Heic, "loader"), unavailable: Some("libheif.so.1 not found".to_string()) },
    ];
    assert!(!has_decoder(&state, Format::Heic));
    let err = decode_pick(&sniffs, None).unwrap_err();
    match &err {
        Error::DecoderUnavailable { format: Format::Heic, available_in, reason: Some(reason) } => {
            assert_eq!(*available_in, Format::Heic.decoder_features());
            assert_eq!(reason, "os: no codec pack; loader: libheif.so.1 not found");
        }
        other => panic!("unexpected error: {other:?}"),
    }
    assert_eq!(
        err.message(),
        "no usable HEIC decoder on this machine: os: no codec pack; loader: libheif.so.1 not found"
    );
}

#[test]
fn sniffer_turns_unknown_into_unavailable() {
    assert!(probe(&[]).is_none());
    assert_eq!(identify(&[], sniff_heic(b"HEIC")).map(|i| i.format), Some(Format::Heic));
    assert_eq!(identify(&[], sniff_heic(b"nope")), None);
    let err = decode_pick(&[], sniff_heic(b"HEIC")).unwrap_err();
    assert!(
        matches!(
            err,
            Error::DecoderUnavailable { format: Format::Heic, available_in: &["native-heif"], reason: None }
        ),
        "{err:?}"
    );
    assert_eq!(err.message(), "no decoder for HEIC in this build (enable one of: native-heif)");
    assert!(matches!(decode_pick(&[], sniff_heic(b"nope")), Err(Error::UnknownFormat)));
    // A decoder that recognises the bytes is asked before any sniffer.
    let mut bytes = b"FAKE".to_vec();
    bytes.extend_from_slice(b"HEIC");
    let sniffs = [fake(decoder_caps(Format::Heic, "loader"), &bytes, None)];
    assert!(decode_pick(&sniffs, sniff_heic(&bytes)).is_ok());
}

#[test]
fn a_recognising_decoder_that_cannot_run_names_its_format_over_a_sniffer() {
    let sniffs = [
        fake(decoder_caps(Format::Png, "other"), b"nope", None),
        fake(decoder_caps(Format::Jxl, "loader"), b"FAKE", Some("missing")),
    ];
    match decode_pick(&sniffs, Some(FormatInfo { format: Format::Heic, animated: false })) {
        Err(Error::DecoderUnavailable { format: Format::Jxl, available_in, reason: Some(r) }) => {
            assert!(available_in.is_empty());
            assert_eq!(r, "loader: missing");
        }
        other => panic!("unexpected: {:?}", other.map(|p| p.0)),
    }
}

fn portable_set() -> NativeSet {
    NativeSet { native: false, jxl: false, jpegli: false, heic: false, target: TargetKind::Other }
}

#[test]
fn unavailable_decoders_are_listed_with_their_reason() {
    let decoders = [DecoderState {
        caps: DecoderCaps { format: Format::Heic, name: "libheif", animation: false, tier: Tier::Native },
        unavailable: Some("libheif.so.1 not found".to_string()),
    }];
    let text = render("0.1.0", &decoders, &[], portable_set(), false);
    assert!(text.contains("HEIC     decode  libheif (native, unavailable)"), "{text}");
    assert!(text.contains("\n                 libheif: libheif.so.1 not found"), "{text}");
}

static PNG_OPTIONS: [CodecOption; 1] =
    [CodecOption { key: "interlace", default: "false", help: "Adam7 interlacing: true or false" }];

#[test]
fn listing_names_backends_modes_and_options() {
    let decoders = [
        DecoderState { caps: JpegDecoder.caps(), unavailable: None },
        DecoderState { caps: PngDecoder.caps(), unavailable: None },
        DecoderState { caps: JxlDecoder.caps(), unavailable: None },
    ];
    let mut png = encoder_caps(Format::Png, "oxipng", Tier::Portable);
    png.lossy = false;
    png.lossless = true;
    png.exif = true;
    png.xmp = true;
    png.options = &PNG_OPTIONS;
    let mut webp = encoder_caps(Format::WebP, "image-webp", Tier::Portable);
    webp.lossy = false;
    webp.lossless = true;
    let encoders = [encoder_caps(Format::Jpeg, "mozjpeg-rs", Tier::Portable), png, webp];
    let text = render("1.2.3", &decoders, &encoders, portable_set(), true);
    let lines: Vec<&str> = text.lines().collect();
    assert_eq!(lines[0], "sqzer 1.2.3 - tiers in this build: portable");
    assert_eq!(lines[1], "");
    assert_eq!(
        lines[2],
        "JPEG     decode  zune-jpeg (portable)         encode  mozjpeg-rs (portable), lossy, metadata: none"
    );
    assert_eq!(
        lines[3],
        "PNG      decode  png (portable)               encode  oxipng (portable), lossless, metadata: EXIF and XMP"
    );
    assert_eq!(lines[4], "         option  png:interlace=false");
    assert_eq!(lines[5], "                 Adam7 interlacing: true or false");
    assert_eq!(
        lines[6],
        "WebP     decode  none                         encode  image-webp (portable), lossless only; lossy needs `native-webp`, metadata: none"
    );
    assert!(text.contains("JPEG XL  decode  jxl-oxide (portable)         encode  none; needs `native-jxl`"), "{text}");
    assert!(text.contains("HEIC     decode  none; needs `native-heif`    encode  none\n"), "{text}");
    assert!(!render("1.2.3", &decoders, &encoders, portable_set(), false).contains("option"));
    assert!(!text.ends_with('\n'));
}

#[test]
fn a_native_build_says_why_a_backend_is_missing() {
    let set = NativeSet { native: true, jxl: false, jpegli: true, heic: false, target: TargetKind::Other };
    let text = render("1.0.0", &[], &[], set, false);
    assert!(text.starts_with("sqzer 1.0.0 - tiers in this build: none\n\n"), "{text}");
    assert!(text.contains("JPEG XL  decode  none                         encode  none; the static musl build has no C++ toolchain for libjxl yet"), "{text}");
    assert!(text.contains("HEIC     decode  none; a static musl binary cannot load libheif"), "{text}");
    assert!(!text.contains("needs `native-jxl`"), "{text}");
    let tiers = render(
        "1.0.0",
        &[DecoderState { caps: decoder_caps(Format::Heic, "x"), unavailable: None }],
        &[encoder_caps(Format::Avif, "y", Tier::Agpl), encoder_caps(Format::Png, "z", Tier::Portable)],
        set,
        false,
    );
    assert!(tiers.starts_with("sqzer 1.0.0 - tiers in this build: agpl, native, portable\n"), "{tiers}");
}

/// The encoders of a portable build.
fn portable_encoders() -> Vec<EncoderCaps> {
    let mut png = encoder_caps(Format::Png, "oxipng", Tier::Portable);
    png.lossy = false;
    png.lossless = true;
    let mut webp = encoder_caps(Format::WebP, "image-webp", Tier::Portable);
    webp.lossy = false;
    webp.lossless = true;
    vec![encoder_caps(Format::Jpeg, "mozjpeg-rs", Tier::Portable), png, webp, encoder_caps(Format::Avif, "ravif", Tier::Portable)]
}

#[test]
fn unavailable_renderer_names_the_fix() {
    let reg = portable_encoders();
    let text = render_unavailable(Format::Jxl, Need::Any, &reg);
    assert!(text.starts_with("no JPEG XL encoder in this build"), "{text}");
    assert!(text.contains("mozjpeg-rs"), "{text}");
    assert!(text.contains("`native-jxl`"), "{text}");
    assert!(text.contains("--list-codecs"), "{text}");
    let text = render_unavailable(Format::WebP, Need::Lossy, &reg);
    assert!(text.contains("for lossy output"), "{text}");
    assert!(text.contains("`native-webp`"), "{text}");
    assert!(text.contains("drop -q"), "{text}");
    let text = render_unavailable(Format::Jpeg, Need::Lossless, &reg);
    assert!(text.contains("no build offers lossless JPEG"), "{text}");
}

#[test]
fn unavailable_report_reads_line_by_line() {
    let reg = portable_encoders();
    assert_eq!(
        render_unavailable(Format::Jxl, Need::Any, &reg),
        "no JPEG XL encoder in this build\n  this build encodes: JPEG (mozjpeg-rs, portable), PNG lossless (oxipng, portable), \
         WebP lossless (image-webp, portable), AVIF (ravif, portable)\n  JPEG XL needs the `native-jxl` feature, or a native \
         build from the releases page\n  run `sqzer --list-codecs` for the full list"
    );
    assert_eq!(
        render_unavailable(Format::WebP, Need::Lossy, &reg).lines().nth(2),
        Some("  image-webp writes lossless only; lossy WebP needs the `native-webp` feature, or a native build from the releases page")
    );
    assert_eq!(
        render_unavailable(Format::Png, Need::Lossy, &reg).lines().nth(2),
        Some("  oxipng writes lossless only; no build offers lossy PNG")
    );
    assert_eq!(
        render_unavailable(Format::Jpeg, Need::Lossless, &reg).lines().nth(3),
        Some("  or drop --lossless for lossy output")
    );
    assert_eq!(
        render_unavailable(Format::Gif, Need::Any, &[]),
        "no GIF encoder in this build\n  this build encodes nothing\n  no build offers a GIF encoder\n  run `sqzer --list-codecs` for the full list"
    );
}

static JPEG_OPTIONS: [CodecOption; 2] = [
    CodecOption { key: "progressive", default: "true", help: "progressive scan: true or false" },
    CodecOption { key: "trellis", default: "true", help: "trellis quantisation: true or false" },
];

static AVIF_OPTIONS: [CodecOption; 1] = [CodecOption { key: "bit_depth", default: "auto", help: "8, 10 or auto" }];

/// A portable build's encoders, with their options.
fn portable_with_options() -> Vec<EncoderCaps> {
    let mut reg = portable_encoders();
    reg[0].options = &JPEG_OPTIONS;
    reg[3].options = &AVIF_OPTIONS;
    reg
}

#[test]
fn unknown_codec_opts_are_usage_errors() {
    let reg = portable_with_options();
    for (bad, needle) in [
        ("jpeg:nope=1", "unknown jpeg option `nope`"),
        ("jpeg:progressive", "codec:key=value"),
        ("bmp:x=1", "unknown codec `bmp`"),
        ("jxl:effort=7", "no JPEG XL encoder in this build"),
    ] {
        let err = check_codec_opt(bad, &reg).unwrap_err();
        assert_eq!(err.code, 2, "{bad}");
        assert!(err.message.contains(needle), "{bad}: {}", err.message);
    }
    assert_eq!(
        check_codec_opt("jpeg:nope=1", &reg).unwrap_err().message,
        "`jpeg:nope=1`: unknown jpeg option `nope`; mozjpeg-rs accepts jpeg:progressive, jpeg:trellis. \
         `sqzer --list-codecs -v` describes each"
    );
    assert_eq!(
        check_codec_opt("png:x=1", &reg).unwrap_err().message,
        "`png:x=1`: unknown png option `x`; oxipng takes no options. `sqzer --list-codecs -v` describes each"
    );
    assert_eq!(
        check_codec_opt("gif:x=1", &reg).unwrap_err().message,
        "`gif:x=1`: unknown codec `gif`; one of jpeg, png, webp, avif, jxl"
    );
}

#[test]
fn codec_opts_name_their_codec() {
    let reg = portable_with_options();
    let (codec, key, value) = check_codec_opt("JPG:progressive=false", &reg).unwrap();
    assert_eq!((codec.as_str(), key.as_str(), value.as_str()), ("jpeg", "progressive", "false"));
    let (codec, key, value) = check_codec_opt("avif:bit_depth=", &reg).unwrap();
    assert_eq!((codec.as_str(), key.as_str(), value.as_str()), ("avif", "bit_depth", ""));
}

#[test]
fn a_format_this_build_cannot_write_is_exit_3() {
    let reg = portable_encoders();
    let readers = [
        DecoderState { caps: PngDecoder.caps(), unavailable: None },
        DecoderState { caps: JpegDecoder.caps(), unavailable: None },
    ];
    let err = check_formats(&[Format::Jxl], TargetMode::Perceptual, &reg, &readers).unwrap_err();
    assert_eq!(err.code, 3);
    assert!(err.message.contains("no JPEG XL encoder"), "{}", err.message);
    let err = check_formats(&[Format::WebP], TargetMode::Quality, &reg, &readers).unwrap_err();
    assert_eq!(err.code, 3);
    assert!(err.message.contains("for lossy output"), "{}", err.message);
    let err = check_formats(&[Format::Jpeg], TargetMode::Lossless, &reg, &readers).unwrap_err();
    assert_eq!(err.code, 3);
    assert!(err.message.contains("for lossless output"), "{}", err.message);
    // Lossless WebP under a perceptual target is fine: it meets it.
    assert!(check_formats(&[Format::WebP], TargetMode::Perceptual, &reg, &readers).is_ok());
    // A lossy format that cannot be read back cannot be scored.
    let err = check_formats(&[Format::Png, Format::Avif], TargetMode::Perceptual, &reg, &readers).unwrap_err();
    assert_eq!(
        err.message,
        "a perceptual target needs a AVIF decoder to score the output, and this build has none\n  pass -q for an explicit quality, or --lossless"
    );
    assert!(check_formats(&[Format::Jpeg, Format::Avif], TargetMode::Quality, &reg, &readers).is_ok());
    assert!(check_formats(&[], TargetMode::Lossless, &[], &[]).is_ok());
}

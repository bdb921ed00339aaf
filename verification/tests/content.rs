use sqzer::content::{classify, content_name, sample_stats, Content, MAX_GRAPHIC_COLORS, SAMPLED_COLUMNS, SAMPLED_ROWS};
use sqzer::image::{ColorType, Image, Samples};

/// A deterministic pseudo-random image: every pixel differs from its
/// neighbours, like sensor noise.
fn noise(w: u32, h: u32) -> Image {
    let mut state: u32 = 0x1234_5678;
    let samples = (0..w * h * 3)
        .map(|_| {
            state ^= state << 13;
            state ^= state >> 17;
            state ^= state << 5;
            (state & 0xFF) as u8
        })
        .collect();
    Image::from_u8(w, h, ColorType::Rgb, samples).unwrap()
}

/// A smooth gradient: thousands of colours, no identical neighbours.
fn gradient(w: u32, h: u32) -> Image {
    let mut samples = Vec::with_capacity((w * h * 3) as usize);
    for y in 0..h {
        for x in 0..w {
            samples.extend([
                (x * 255 / (w - 1)) as u8,
                (y * 255 / (h - 1)) as u8,
                ((x + y) * 255 / (w + h - 2)) as u8,
            ]);
        }
    }
    Image::from_u8(w, h, ColorType::Rgb, samples).unwrap()
}

/// A gradient with a flat band across the lower half, like a screenshot
/// with a photo in it.
fn half_flat(w: u32, h: u32) -> Image {
    let parts = gradient(w, h).into_parts();
    let mut samples = parts.3.as_u8().unwrap().to_vec();
    let band = (h / 2) as usize * w as usize * 3;
    samples[band..].fill(200);
    Image::from_u8(w, h, ColorType::Rgb, samples).unwrap()
}

fn share(img: &Image) -> f64 {
    let s = sample_stats(img);
    if s.pairs == 0 {
        0.0
    } else {
        s.flat as f64 / s.pairs as f64
    }
}

#[test]
fn flat_and_few_colour_images_are_graphics() {
    let flat = Image::from_u8(64, 64, ColorType::Rgb, vec![7; 64 * 64 * 3]).unwrap();
    assert_eq!(classify(&flat), Content::Graphic);
    let tiny = Image::from_u8(1, 1, ColorType::Gray, vec![0]).unwrap();
    assert_eq!(classify(&tiny), Content::Graphic);
    // Sixteen-colour checkerboard: no identical neighbours, few colours.
    let samples = (0..256u32 * 256)
        .flat_map(|i| {
            let c = ((i % 256 + i / 256) % 16) as u8 * 16;
            [c, 255 - c, c / 2]
        })
        .collect();
    let checker = Image::from_u8(256, 256, ColorType::Rgb, samples).unwrap();
    assert_eq!(classify(&checker), Content::Graphic);
}

#[test]
fn continuous_tone_is_a_photo() {
    assert_eq!(classify(&noise(300, 200)), Content::Photo);
    assert_eq!(classify(&gradient(300, 200)), Content::Photo);
    // The 48 x 32 test pattern of the fixtures: ramps on two axes.
    assert_eq!(classify(&gradient(48, 32)), Content::Photo);
}

#[test]
fn flat_share_decides_at_one_half() {
    let img = half_flat(200, 200);
    let stats = sample_stats(&img);
    assert!(stats.colors > MAX_GRAPHIC_COLORS);
    assert!(share(&img) > 0.45 && share(&img) < 0.55);
    assert_eq!(classify(&img), Content::Graphic);
}

#[test]
fn sampling_bounds_the_work_and_agrees_with_the_full_scan() {
    let big = noise(4000, 300);
    let stats = sample_stats(&big);
    assert!(stats.pairs <= SAMPLED_ROWS * SAMPLED_COLUMNS);
    assert_eq!(classify(&big), Content::Photo);
    assert_eq!(classify(&noise(4000, 3)), Content::Photo);
}

#[test]
fn every_sample_type_is_accepted() {
    let wide = Image::from_u16(8, 8, ColorType::Rgba, vec![0x1234; 8 * 8 * 4]).unwrap();
    assert_eq!(classify(&wide), Content::Graphic);
    let hdr = Image::new(8, 8, ColorType::Gray, Samples::F32(vec![0.5f32.to_bits(); 64])).unwrap();
    assert_eq!(classify(&hdr), Content::Graphic);
}

#[test]
fn sample_counts_follow_the_steps() {
    // 4000 wide: every second pixel, 2000 a row; 300 high: every fifth
    // row, 60 rows.
    let s = sample_stats(&noise(4000, 300));
    assert_eq!(s.pairs, 60 * 1999);
    // Small images are scanned whole.
    let s = sample_stats(&gradient(10, 4));
    assert_eq!(s.pairs, 4 * 9);
    assert_eq!(s.flat, 0);
    let flat = Image::from_u8(5, 3, ColorType::Gray, vec![9; 15]).unwrap();
    let s = sample_stats(&flat);
    assert_eq!((s.colors, s.pairs, s.flat), (1, 12, 12));
}

#[test]
fn colour_count_saturates_past_the_limit() {
    let s = sample_stats(&noise(300, 200));
    assert_eq!(s.colors, MAX_GRAPHIC_COLORS + 1);
}

#[test]
fn content_names() {
    assert_eq!(content_name(Content::Photo), "photo");
    assert_eq!(content_name(Content::Graphic), "graphic");
}

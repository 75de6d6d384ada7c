use image::{ImageBuffer, Luma};
use spectral_noise::raster::quantize_sample;
use spectral_noise::{
    blue_noise, convert_to_gray_image, green_noise, normalize_histogram, purple_noise, red_noise,
    white_noise, white_noise_float, GrayImage, NoiseError, NoiseField, Request, Shaping, Strategy,
};

const BLUR_DENOM: u64 = 1 << 40;

/// Blurs a field with the `image` crate, as a caller of the library would.
fn blur(field: &NoiseField, sigma: u32) -> NoiseField {
    let denom = field.denom() as f32;
    let values: Vec<f32> = field.samples().iter().map(|&s| s as f32 / denom).collect();
    let img: ImageBuffer<Luma<f32>, Vec<f32>> =
        ImageBuffer::from_raw(field.width(), field.height(), values).unwrap();
    let blurred = image::imageops::blur(&img, f32::from_bits(sigma));
    assert_eq!(blurred.dimensions(), (field.width(), field.height()));
    let samples: Vec<i64> = blurred
        .as_raw()
        .iter()
        .map(|&v| (f64::from(v) * BLUR_DENOM as f64).round() as i64)
        .collect();
    NoiseField::from_samples(field.width(), field.height(), BLUR_DENOM, samples).unwrap()
}

/// Takes a shaping through its rounds and counts them.
fn run(mut shaping: Shaping) -> (GrayImage, u32) {
    let mut rounds = 0;
    loop {
        match shaping.request() {
            Request::Done => return (shaping.finish(), rounds),
            Request::Blur { sigma } => {
                let blurred = blur(shaping.field(), sigma);
                shaping.supply(&blurred);
            }
            Request::BlurBand { low_sigma, high_sigma } => {
                let low = blur(shaping.field(), low_sigma);
                let high = blur(shaping.field(), high_sigma);
                shaping.supply_band(&low, &high);
            }
        }
        rounds += 1;
    }
}

/// The gray levels of a normalized field of `n` pixels, in rising order.
fn uniform_levels(n: u64) -> Vec<u8> {
    (0..n as i64).map(|k| quantize_sample(k, n)).collect()
}

/// The mean difference between the gray levels of neighbours in a row.
fn roughness(levels: &[u8], width: usize) -> f64 {
    let mut sum = 0.0;
    let mut count = 0.0;
    for row in levels.chunks(width) {
        for pair in row.windows(2) {
            sum += (pair[0] as f64 - pair[1] as f64).abs();
            count += 1.0;
        }
    }
    sum / count
}

fn assert_shaped(made: Result<Shaping, NoiseError>, width: u32, height: u32, iterations: u32) -> Vec<u8> {
    let (img, rounds) = run(made.unwrap());
    assert_eq!(rounds, iterations);
    assert_eq!(img.dimensions(), (width, height));
    let levels = img.into_raw();
    let mut sorted = levels.clone();
    sorted.sort_unstable();
    assert_eq!(sorted, uniform_levels(u64::from(width) * u64::from(height)));
    levels
}

#[test]
fn red_noise_is_as_large_as_asked_and_uniform() {
    assert_shaped(red_noise(40, 24, 3, 1.5f32.to_bits()), 40, 24, 3);
}

#[test]
fn blue_noise_is_as_large_as_asked_and_uniform() {
    assert_shaped(blue_noise(24, 40, 3, 1.5f32.to_bits()), 24, 40, 3);
}

#[test]
fn green_noise_is_as_large_as_asked_and_uniform() {
    assert_shaped(green_noise(32, 32, 2, 1.0f32.to_bits(), 3.0f32.to_bits()), 32, 32, 2);
}

#[test]
fn purple_noise_is_as_large_as_asked_and_uniform() {
    assert_shaped(purple_noise(32, 16, 2, 1.0f32.to_bits(), 3.0f32.to_bits()), 32, 16, 2);
}

#[test]
fn a_turned_band_still_gives_a_texture() {
    assert_shaped(green_noise(16, 16, 1, 3.0f32.to_bits(), 1.0f32.to_bits()), 16, 16, 1);
    assert_shaped(purple_noise(16, 16, 1, 2.0f32.to_bits(), 2.0f32.to_bits()), 16, 16, 1);
}

#[test]
fn one_pixel_can_be_shaped() {
    let levels = assert_shaped(red_noise(1, 1, 2, 1.0f32.to_bits()), 1, 1, 2);
    assert_eq!(levels, vec![0]);
}

#[test]
fn without_rounds_nothing_is_blurred() {
    for made in [
        red_noise(20, 10, 0, 1.0f32.to_bits()),
        blue_noise(20, 10, 0, 1.0f32.to_bits()),
        green_noise(20, 10, 0, 1.0f32.to_bits(), 2.0f32.to_bits()),
        purple_noise(20, 10, 0, 1.0f32.to_bits(), 2.0f32.to_bits()),
    ] {
        let shaping = made.unwrap();
        let raw = convert_to_gray_image(shaping.field()).into_raw();
        let (img, rounds) = run(shaping);
        assert_eq!(rounds, 0);
        assert_eq!(img.dimensions(), (20, 10));
        assert_eq!(img.into_raw(), raw);
    }
}

#[test]
fn red_noise_is_smoother_than_white_noise() {
    let white = white_noise(64, 64).unwrap().into_raw();
    let red = assert_shaped(red_noise(64, 64, 3, 2.0f32.to_bits()), 64, 64, 3);
    assert!(roughness(&red, 64) < 0.6 * roughness(&white, 64));
}

#[test]
fn blue_noise_is_rougher_than_red_noise() {
    let red = assert_shaped(red_noise(64, 64, 3, 2.0f32.to_bits()), 64, 64, 3);
    let blue = assert_shaped(blue_noise(64, 64, 3, 2.0f32.to_bits()), 64, 64, 3);
    assert!(roughness(&blue, 64) > roughness(&red, 64));
}

#[test]
fn a_fixed_field_gives_the_same_texture_each_time() {
    let samples: Vec<i64> = (0..24 * 24).map(|i: i64| (i * 7919 + 13) % (1 << 24)).collect();
    let texture = |strategy: Strategy| {
        let seed = NoiseField::from_samples(24, 24, 1 << 24, samples.clone()).unwrap();
        run(Shaping::start(strategy, seed, 3).unwrap()).0.into_raw()
    };
    let low_sigma = 1.0f32.to_bits();
    let high_sigma = 2.5f32.to_bits();
    for strategy in [
        Strategy::Red { sigma: low_sigma },
        Strategy::Blue { sigma: low_sigma },
        Strategy::Green { low_sigma, high_sigma },
        Strategy::Purple { low_sigma, high_sigma },
    ] {
        assert_eq!(texture(strategy), texture(strategy));
    }
}

#[test]
fn a_drawn_field_can_be_normalized() {
    let mut field = white_noise_float(16, 16).unwrap();
    normalize_histogram(&mut field);
    assert_eq!(field.denom(), 256);
    let mut seen = field.samples().clone();
    seen.sort_unstable();
    assert_eq!(seen, (0..256).collect::<Vec<i64>>());
}

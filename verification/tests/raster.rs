use spectral_noise::field::{NoiseField, RAW_DENOM};
use spectral_noise::raster::{convert_to_gray_image, quantize, quantize_sample};

#[test]
fn sixteenths_become_their_gray_levels() {
    let samples: Vec<i64> = (0..16).collect();
    let field = NoiseField::from_samples(4, 4, 16, samples).unwrap();
    let img = convert_to_gray_image(&field);
    assert_eq!(img.get_pixel(0, 0), Some(0));
    assert_eq!(img.get_pixel(3, 3), Some(239));
    for y in 0..4u32 {
        for x in 0..4u32 {
            let value = (y * 4 + x) as f32 / 16.0;
            let expected = (value * 255.0).round() as u8;
            assert_eq!(img.get_pixel(x, y), Some(expected));
        }
    }
}

#[test]
fn raw_sixteenths_become_the_same_gray_levels() {
    let samples: Vec<i64> = (0..16).map(|k: i64| k << 20).collect();
    let field = NoiseField::from_samples(4, 4, RAW_DENOM, samples).unwrap();
    let levels = quantize(&field);
    assert_eq!(
        levels,
        vec![0, 16, 32, 48, 64, 80, 96, 112, 128, 143, 159, 175, 191, 207, 223, 239]
    );
}

#[test]
fn a_gray_level_is_the_nearest_whole_number() {
    assert_eq!(quantize_sample(1, 2), 128);
    assert_eq!(quantize_sample(1, 3), 85);
    assert_eq!(quantize_sample(2, 3), 170);
    assert_eq!(quantize_sample(1, 255), 1);
    assert_eq!(quantize_sample(254, 255), 254);
    assert_eq!(quantize_sample(1, 1000), 0);
    assert_eq!(quantize_sample(2, 1000), 1);
    assert_eq!(quantize_sample(999, 1000), 255);
    assert_eq!(quantize_sample(997, 1000), 254);
}

#[test]
fn a_half_is_rounded_upwards() {
    assert_eq!(quantize_sample(1, 510), 1);
    assert_eq!(quantize_sample(3, 510), 2);
    assert_eq!(quantize_sample(509, 510), 255);
    assert_eq!(quantize_sample(1, 6), 43);
}

#[test]
fn gray_levels_stay_within_the_byte() {
    assert_eq!(quantize_sample(0, 16), 0);
    assert_eq!(quantize_sample(-1, 16), 0);
    assert_eq!(quantize_sample(i64::MIN, 16), 0);
    assert_eq!(quantize_sample(16, 16), 255);
    assert_eq!(quantize_sample(17, 16), 255);
    assert_eq!(quantize_sample(i64::MAX, 16), 255);
    assert_eq!(quantize_sample(i64::MAX, u64::MAX), 127);
    assert_eq!(quantize_sample(5, 0), 255);
    assert_eq!(quantize_sample(0, 0), 0);
}

#[test]
fn gray_levels_match_rounding_in_floating_point() {
    for denom in [2u64, 7, 16, 100, 4096, 65536] {
        for sample in 0..denom as i64 {
            let exact = (255.0 * sample as f64 / denom as f64 + 0.5).floor() as u8;
            assert_eq!(quantize_sample(sample, denom), exact);
        }
    }
}

#[test]
fn an_image_is_as_large_as_its_field() {
    let field = NoiseField::from_samples(3, 2, 4, vec![0, 1, 2, 3, 4, -1]).unwrap();
    let img = convert_to_gray_image(&field);
    assert_eq!(img.width(), 3);
    assert_eq!(img.height(), 2);
    assert_eq!(img.into_raw(), vec![0, 64, 128, 191, 255, 0]);
}

#[test]
fn an_image_knows_both_dimensions() {
    let field = NoiseField::from_samples(5, 2, 4, vec![0; 10]).unwrap();
    let img = convert_to_gray_image(&field);
    assert_eq!(img.dimensions(), (5, 2));
    let field = NoiseField::from_samples(2, 5, 4, vec![0; 10]).unwrap();
    let img = convert_to_gray_image(&field);
    assert_eq!(img.dimensions(), (2, 5));
}

#[test]
fn pixels_are_laid_out_row_after_row() {
    let field = NoiseField::from_samples(3, 2, 255, vec![10, 20, 30, 40, 50, 60]).unwrap();
    let img = convert_to_gray_image(&field);
    assert_eq!(img.get_pixel(0, 0), Some(10));
    assert_eq!(img.get_pixel(1, 0), Some(20));
    assert_eq!(img.get_pixel(2, 0), Some(30));
    assert_eq!(img.get_pixel(0, 1), Some(40));
    assert_eq!(img.get_pixel(1, 1), Some(50));
    assert_eq!(img.get_pixel(2, 1), Some(60));
}

#[test]
fn there_is_no_pixel_outside_the_image() {
    let field = NoiseField::from_samples(3, 2, 255, vec![10, 20, 30, 40, 50, 60]).unwrap();
    let img = convert_to_gray_image(&field);
    assert_eq!(img.get_pixel(3, 0), None);
    assert_eq!(img.get_pixel(0, 2), None);
    assert_eq!(img.get_pixel(2, 2), None);
    assert_eq!(img.get_pixel(u32::MAX, u32::MAX), None);
}

#[test]
fn a_field_is_quantized_pixel_by_pixel() {
    let field = NoiseField::from_samples(2, 2, 4, vec![3, 0, 2, 1]).unwrap();
    assert_eq!(quantize(&field), vec![191, 0, 128, 64]);
}

#[test]
fn converting_twice_gives_the_same_image() {
    let samples: Vec<i64> = (0..64).map(|i: i64| (i * 37) % 64).collect();
    let field = NoiseField::from_samples(8, 8, 64, samples).unwrap();
    let first = convert_to_gray_image(&field).into_raw();
    let second = convert_to_gray_image(&field).into_raw();
    assert_eq!(first, second);
}

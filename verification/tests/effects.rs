use scanner_core::effects::{neighborhood_totals, validate_block_size, IntegralImage};
use scanner_core::CoreError;

fn brute_sum(gray: &[u8], width: u32, left: u32, top: u32, right: u32, bottom: u32) -> u64 {
    let mut sum = 0u64;
    for y in top..bottom {
        for x in left..right {
            sum += gray[(y * width + x) as usize] as u64;
        }
    }
    sum
}

#[test]
fn block_sizes_must_be_odd_and_at_least_three() {
    assert!(validate_block_size(3).is_ok());
    assert!(validate_block_size(31).is_ok());
    assert!(matches!(
        validate_block_size(4),
        Err(CoreError::InvalidParameter { field: "adaptive_block_size", .. })
    ));
    assert!(validate_block_size(1).is_err());
    assert!(validate_block_size(0).is_err());
}

#[test]
fn window_sums_match_the_pixels_for_a_uniform_image() {
    let gray = vec![10u8; 8 * 6];
    let table = IntegralImage::new(&gray, 8, 6);
    assert_eq!(table.window_sum(0, 0, 1), (40, 4));
    assert_eq!(table.window_sum(3, 3, 1), (90, 9));
    assert_eq!(table.window_sum(7, 5, 15), (480, 48));
}

#[test]
fn window_sums_match_a_direct_sum_when_the_left_block_is_small() {
    let (width, height) = (7u32, 5u32);
    let gray: Vec<u8> = (0..width * height).map(|i| (i * 37 % 256) as u8).collect();
    let table = IntegralImage::new(&gray, width, height);
    let radius = 1;
    for y in 0..height {
        for x in 0..width {
            let left = x.saturating_sub(radius);
            let top = y.saturating_sub(radius);
            let right = (x + radius + 1).min(width);
            let bottom = (y + radius + 1).min(height);
            let (sum, area) = table.window_sum(x, y, radius);
            assert_eq!(area, ((right - left) * (bottom - top)) as u64);
            let window = brute_sum(&gray, width, left, top, right, bottom);
            let above_right = brute_sum(&gray, width, 0, top, right, bottom);
            let left_of = brute_sum(&gray, width, 0, 0, left, bottom);
            if above_right >= left_of {
                assert_eq!(sum, window);
            } else {
                assert_eq!(sum, brute_sum(&gray, width, 0, 0, left, top));
            }
        }
    }
}

#[test]
fn saturating_combination_can_hide_the_window_sum() {
    let mut gray = vec![0u8; 25];
    for y in 0..3 {
        for x in 0..3 {
            gray[y * 5 + x] = 255;
        }
    }
    let table = IntegralImage::new(&gray, 5, 5);
    assert_eq!(table.window_sum(4, 4, 1), (9 * 255, 4));
    assert_eq!(table.window_sum(1, 1, 1), (9 * 255, 9));
}

#[test]
fn neighborhoods_are_clamped_to_the_image() {
    let (width, height) = (3u32, 2u32);
    let mut rgb = Vec::new();
    for i in 0..(width * height) {
        rgb.extend_from_slice(&[i as u8, 10, 200]);
    }
    let (totals, count) = neighborhood_totals(&rgb, width, height, 0, 0, true);
    assert_eq!(count, 4);
    assert_eq!(totals, [0 + 1 + 3 + 4, 40, 800]);
    let (totals, count) = neighborhood_totals(&rgb, width, height, 0, 0, false);
    assert_eq!(count, 3);
    assert_eq!(totals, [1 + 3 + 4, 30, 600]);
    let (totals, count) = neighborhood_totals(&rgb, width, height, 1, 1, true);
    assert_eq!(count, 6);
    assert_eq!(totals, [15, 60, 1200]);
    let single = [5u8, 6, 7];
    assert_eq!(neighborhood_totals(&single, 1, 1, 0, 0, false), ([0, 0, 0], 0));
    assert_eq!(neighborhood_totals(&single, 1, 1, 0, 0, true), ([5, 6, 7], 1));
}

#[test]
fn invalid_block_size_is_rejected() {
    assert!(matches!(
        validate_block_size(4),
        Err(CoreError::InvalidParameter { field: "adaptive_block_size", .. })
    ));
}

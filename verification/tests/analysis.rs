use bytes::Bytes;
use cameras::analysis::{
    blur_variance, blur_variance_in, blur_variance_subsampled, ring_new, ring_push, take_sharpest,
    Ring, Sharpness,
};
use cameras::types::{Frame, FrameQuality, PixelFormat, Rect};
use std::time::Duration;

fn variance(sharpness: Sharpness) -> f32 {
    if sharpness.count == 0 {
        return 0.0;
    }
    let count = sharpness.count as f64;
    let mean = sharpness.sum as f64 / count;
    (sharpness.sum_squared as f64 / count - mean * mean) as f32
}

fn scores(ring: &Ring) -> Vec<u32> {
    ring.frames
        .iter()
        .map(|frame| (variance(blur_variance(frame)) + 0.0).to_bits())
        .collect()
}

fn rgb_frame(width: u32, height: u32, pixels: Vec<u8>) -> Frame {
    Frame {
        width,
        height,
        stride: 0,
        timestamp: Duration::ZERO,
        pixel_format: PixelFormat::Rgb8,
        quality: FrameQuality::Intact,
        plane_primary: Bytes::from(pixels),
        plane_secondary: Bytes::new(),
    }
}

fn checkerboard(width: u32, height: u32) -> Frame {
    let mut pixels = Vec::with_capacity((width * height * 3) as usize);
    for row in 0..height {
        for col in 0..width {
            let value = if (row + col) % 2 == 0 { 255 } else { 0 };
            pixels.extend_from_slice(&[value, value, value]);
        }
    }
    rgb_frame(width, height, pixels)
}

#[test]
fn sharp_beats_flat() {
    let flat = rgb_frame(16, 16, vec![128u8; 16 * 16 * 3]);
    let sharp = checkerboard(16, 16);
    assert!(variance(blur_variance(&sharp)) > variance(blur_variance(&flat)));
}

#[test]
fn roi_within_bounds() {
    let sharp = checkerboard(16, 16);
    let center = Rect { x: 4, y: 4, width: 8, height: 8 };
    assert!(variance(blur_variance_in(&sharp, center)) > 0.0);
}

#[test]
fn roi_out_of_bounds_returns_zero() {
    let sharp = checkerboard(16, 16);
    let offscreen = Rect { x: 100, y: 100, width: 10, height: 10 };
    assert_eq!(variance(blur_variance_in(&sharp, offscreen)), 0.0);
}

#[test]
fn roi_degenerate_returns_zero() {
    let sharp = checkerboard(16, 16);
    let empty = Rect { x: 0, y: 0, width: 0, height: 0 };
    assert_eq!(variance(blur_variance_in(&sharp, empty)), 0.0);
}

#[test]
fn subsample_stride_one_matches_full() {
    let sharp = checkerboard(16, 16);
    let full = variance(blur_variance(&sharp));
    let strided = variance(blur_variance_subsampled(&sharp, 1));
    assert!((full - strided).abs() < 1e-3);
}

#[test]
fn subsample_stride_zero_matches_full() {
    let sharp = checkerboard(16, 16);
    let full = variance(blur_variance(&sharp));
    let strided = variance(blur_variance_subsampled(&sharp, 0));
    assert!((full - strided).abs() < 1e-3);
}

#[test]
fn ring_push_evicts_oldest() {
    let mut ring = ring_new(2);
    ring_push(&mut ring, rgb_frame(4, 4, vec![0u8; 48]));
    ring_push(&mut ring, rgb_frame(4, 4, vec![64u8; 48]));
    ring_push(&mut ring, rgb_frame(4, 4, vec![128u8; 48]));
    assert_eq!(ring.frames.len(), 2);
    assert_eq!(ring.frames[0].plane_primary[0], 64);
    assert_eq!(ring.frames[1].plane_primary[0], 128);
}

#[test]
fn take_sharpest_picks_highest_variance() {
    let mut ring = ring_new(3);
    ring_push(&mut ring, rgb_frame(16, 16, vec![128u8; 16 * 16 * 3]));
    ring_push(&mut ring, checkerboard(16, 16));
    ring_push(&mut ring, rgb_frame(16, 16, vec![64u8; 16 * 16 * 3]));
    let sharpest = take_sharpest(&ring, &scores(&ring)).expect("ring has frames");
    let sharp_variance = variance(blur_variance(&sharpest));
    let flat_variance = variance(blur_variance(&ring.frames[0]));
    assert!(sharp_variance > flat_variance);
}

#[test]
fn take_sharpest_empty_returns_none() {
    let ring = ring_new(4);
    assert!(take_sharpest(&ring, &scores(&ring)).is_none());
}

#[test]
fn ring_zero_capacity_rejects_pushes() {
    let mut ring = ring_new(0);
    ring_push(&mut ring, rgb_frame(4, 4, vec![0u8; 48]));
    assert!(ring.frames.is_empty());
}

#[test]
fn flat_images_have_no_response() {
    let flat = rgb_frame(5, 4, vec![77u8; 60]);
    assert_eq!(blur_variance(&flat), Sharpness { sum: 0, sum_squared: 0, count: 20 });
}

#[test]
fn one_bright_pixel_has_known_sums() {
    let mut pixels = vec![0u8; 27];
    pixels[12..15].copy_from_slice(&[10, 10, 10]);
    let frame = rgb_frame(3, 3, pixels);
    assert_eq!(blur_variance(&frame), Sharpness { sum: 0, sum_squared: 2000, count: 9 });
}

#[test]
fn images_under_three_pixels_wide_measure_nothing() {
    let thin = rgb_frame(2, 10, vec![9u8; 60]);
    assert_eq!(blur_variance(&thin).count, 0);
}

#[test]
fn the_full_region_measures_everything() {
    let sharp = checkerboard(16, 16);
    let everything = Rect { x: 0, y: 0, width: 16, height: 16 };
    assert_eq!(blur_variance_in(&sharp, everything), blur_variance(&sharp));
}

#[test]
fn a_region_is_cut_at_the_edge() {
    let sharp = checkerboard(16, 16);
    let cut = Rect { x: 8, y: 8, width: 100, height: 100 };
    let inside = Rect { x: 8, y: 8, width: 8, height: 8 };
    assert_eq!(blur_variance_in(&sharp, cut), blur_variance_in(&sharp, inside));
    assert_eq!(blur_variance_in(&sharp, inside).count, 64);
}

#[test]
fn subsampling_keeps_every_second_pixel() {
    let sharp = checkerboard(16, 16);
    let strided = blur_variance_subsampled(&sharp, 2);
    assert_eq!(strided.count, 64);
    assert_eq!(strided.sum_squared, 0);
}

#[test]
fn the_latest_of_equally_sharp_frames_is_taken() {
    let mut ring = ring_new(3);
    ring_push(&mut ring, rgb_frame(4, 4, vec![1u8; 48]));
    ring_push(&mut ring, rgb_frame(4, 4, vec![2u8; 48]));
    ring_push(&mut ring, rgb_frame(4, 4, vec![3u8; 48]));
    let sharpest = take_sharpest(&ring, &[7, 7, 5]).expect("ring has frames");
    assert_eq!(sharpest.plane_primary[0], 2);
}

fn padded(frame: &Frame, gap: usize) -> Frame {
    let row_bytes = frame.width as usize * 3;
    let mut data = Vec::new();
    for row in frame.plane_primary.chunks(row_bytes) {
        data.extend_from_slice(row);
        data.extend_from_slice(&vec![77; gap]);
    }
    let mut padded = frame.clone();
    padded.stride = (row_bytes + gap) as u32;
    padded.plane_primary = Bytes::from(data);
    padded
}

#[test]
fn padding_does_not_blur() {
    let tight = checkerboard(6, 5);
    let wide = padded(&tight, 4);
    assert_eq!(blur_variance(&tight), blur_variance(&wide));
    let region = Rect { x: 1, y: 1, width: 4, height: 3 };
    assert_eq!(blur_variance_in(&tight, region), blur_variance_in(&wide, region));
    assert_eq!(blur_variance_subsampled(&tight, 2), blur_variance_subsampled(&wide, 2));
}

#[test]
fn regions_measure_their_part_inside_the_frame() {
    let frame = checkerboard(8, 8);
    let over = Rect { x: 4, y: 5, width: 100, height: u32::MAX };
    let inside = Rect { x: 4, y: 5, width: 4, height: 3 };
    assert_eq!(blur_variance_in(&frame, over), blur_variance_in(&frame, inside));
    let thin = Rect { x: 6, y: 0, width: 100, height: 8 };
    assert_eq!(blur_variance_in(&frame, thin).count, 0);
}

#[test]
fn pixels_outside_a_region_do_not_matter() {
    let frame = checkerboard(8, 8);
    let mut pixels = frame.plane_primary.to_vec();
    pixels[0..3].copy_from_slice(&[12, 34, 56]);
    let other = rgb_frame(8, 8, pixels);
    let region = Rect { x: 1, y: 1, width: 5, height: 5 };
    assert_eq!(blur_variance_in(&frame, region), blur_variance_in(&other, region));
    assert_ne!(blur_variance(&frame), blur_variance(&other));
}

#[test]
fn every_second_pixel_of_a_checkerboard_is_flat() {
    let sampled = blur_variance_subsampled(&checkerboard(16, 16), 2);
    assert_eq!((sampled.sum, sampled.sum_squared, sampled.count), (0, 0, 64));
}

#[test]
fn rings_can_be_cloned() {
    let mut ring = ring_new(2);
    ring_push(&mut ring, checkerboard(3, 3));
    assert_eq!(ring.clone().frames.len(), 1);
}

use bytes::Bytes;
use cameras::bmp::{bmp_from_bgra, bmp_from_rgb, frame_to_bmp, placeholder_bmp, preview_bmp};
use cameras::camera::{
    offer_step, publish_frame, snapshot, take_frame, FrameSlot, OfferStep, FRAME_QUEUE_CAPACITY,
};
use cameras::convert::{
    is_complete, mjpeg_luma, mjpeg_outcome, to_luma8, to_rgb8, to_rgba8,
};
use cameras::error::Error;
use cameras::picture::{color_image_if_filled, frame_to_color_image};
use cameras::types::{Frame, FrameQuality, PixelFormat};
use std::time::Duration;

fn frame(format: PixelFormat, width: u32, height: u32, stride: u32, data: Vec<u8>) -> Frame {
    Frame {
        width,
        height,
        stride,
        timestamp: Duration::ZERO,
        pixel_format: format,
        quality: FrameQuality::Intact,
        plane_primary: Bytes::from(data),
        plane_secondary: Bytes::new(),
    }
}

fn nv12(width: u32, height: u32, stride: u32, luma: Vec<u8>, chroma: Vec<u8>) -> Frame {
    let mut frame = frame(PixelFormat::Nv12, width, height, stride, luma);
    frame.plane_secondary = Bytes::from(chroma);
    frame
}

/// A gray picture of eight by eight pixels.
fn gray_jpeg() -> Vec<u8> {
    let mut jpeg = vec![0xff, 0xd8, 0xff, 0xdb, 0, 67, 0];
    jpeg.extend_from_slice(&[1; 64]);
    jpeg.extend_from_slice(&[0xff, 0xc0, 0, 17, 8, 0, 8, 0, 8, 3]);
    jpeg.extend_from_slice(&[1, 0x11, 0, 2, 0x11, 0, 3, 0x11, 0]);
    for class in [0x00, 0x10] {
        jpeg.extend_from_slice(&[0xff, 0xc4, 0, 20, class, 1]);
        jpeg.extend_from_slice(&[0; 16]);
    }
    jpeg.extend_from_slice(&[0xff, 0xda, 0, 12, 3, 1, 0, 2, 0, 3, 0, 0, 63, 0, 0x03, 0xff, 0xd9]);
    jpeg
}

#[test]
fn bgra_is_reordered_and_padding_is_dropped() {
    let data = vec![1, 2, 3, 9, 4, 5, 6, 9, 0, 0, 7, 8, 9, 9, 10, 11, 12, 9, 0, 0];
    let frame = frame(PixelFormat::Bgra8, 2, 2, 10, data);
    assert_eq!(to_rgb8(&frame).unwrap(), vec![3, 2, 1, 6, 5, 4, 9, 8, 7, 12, 11, 10]);
    assert_eq!(
        to_rgba8(&frame).unwrap(),
        vec![3, 2, 1, 255, 6, 5, 4, 255, 9, 8, 7, 255, 12, 11, 10, 255]
    );
    assert_eq!(to_luma8(&frame)[0], ((299 * 3 + 587 * 2 + 114) / 1000) as u8);
}

#[test]
fn rgb_rows_may_be_padded() {
    let frame = frame(PixelFormat::Rgb8, 1, 2, 4, vec![1, 2, 3, 0, 4, 5, 6, 0]);
    assert_eq!(to_rgb8(&frame).unwrap(), vec![1, 2, 3, 4, 5, 6]);
    assert_eq!(to_rgba8(&frame).unwrap(), vec![1, 2, 3, 255, 4, 5, 6, 255]);
}

#[test]
fn rgba_keeps_its_alpha() {
    let frame = frame(PixelFormat::Rgba8, 1, 1, 0, vec![1, 2, 3, 4]);
    assert_eq!(to_rgba8(&frame).unwrap(), vec![1, 2, 3, 4]);
    assert_eq!(to_rgb8(&frame).unwrap(), vec![1, 2, 3]);
}

#[test]
fn yuyv_shares_chroma_between_two_pixels() {
    let frame = frame(PixelFormat::Yuyv, 2, 1, 0, vec![16, 128, 235, 128]);
    assert!(is_complete(&frame));
    assert_eq!(to_rgb8(&frame).unwrap(), vec![0, 0, 0, 255, 255, 255]);
    assert_eq!(to_luma8(&frame), vec![16, 235]);
}

#[test]
fn video_range_red_is_red() {
    let frame = frame(PixelFormat::Yuyv, 2, 1, 4, vec![81, 90, 81, 240]);
    assert_eq!(to_rgb8(&frame).unwrap(), vec![255, 0, 0, 255, 0, 0]);
}

#[test]
fn nv12_shares_chroma_between_four_pixels() {
    let frame = nv12(2, 2, 2, vec![16, 235, 235, 16], vec![128, 128]);
    assert!(is_complete(&frame));
    assert_eq!(
        to_rgb8(&frame).unwrap(),
        vec![0, 0, 0, 255, 255, 255, 255, 255, 255, 0, 0, 0]
    );
    assert_eq!(to_luma8(&frame), vec![16, 235, 235, 16]);
}

#[test]
fn incomplete_frames_are_recognised() {
    assert!(!is_complete(&frame(PixelFormat::Yuyv, 2, 2, 4, vec![0; 4])));
    assert!(!is_complete(&nv12(2, 2, 2, vec![0; 4], vec![])));
    assert!(is_complete(&frame(PixelFormat::Bgra8, 2, 2, 8, vec![])));
}

#[test]
fn jpegs_are_decoded() {
    let frame = frame(PixelFormat::Mjpeg, 8, 8, 0, gray_jpeg());
    assert_eq!(to_rgb8(&frame).unwrap(), vec![128; 192]);
    assert_eq!(to_rgba8(&frame).unwrap()[..8], [128, 128, 128, 255, 128, 128, 128, 255]);
    assert_eq!(to_luma8(&frame), vec![128; 64]);
}

#[test]
fn broken_jpegs_fail() {
    let frame = frame(PixelFormat::Mjpeg, 8, 8, 0, vec![1, 2, 3]);
    assert!(matches!(to_rgb8(&frame), Err(Error::MjpegDecode(_))));
    assert!(matches!(to_rgba8(&frame), Err(Error::MjpegDecode(_))));
    assert!(to_luma8(&frame).is_empty());
}

#[test]
fn decoded_jpegs_are_passed_on() {
    assert_eq!(mjpeg_outcome(Ok(vec![1, 2, 3])).unwrap(), vec![1, 2, 3]);
    match mjpeg_outcome(Err("no image".into())) {
        Err(Error::MjpegDecode(message)) => assert_eq!(message, "no image"),
        other => panic!("expected a decoding failure, got {other:?}"),
    }
    assert_eq!(mjpeg_luma(Ok(vec![255, 0, 0])), vec![76]);
    assert!(mjpeg_luma(Err(Error::Timeout)).is_empty());
}

#[test]
fn bitmaps_hold_padded_rows_of_blue_first_pixels() {
    let file = bmp_from_rgb(&[1, 2, 3, 4, 5, 6], 1, 2);
    assert_eq!(file.len(), 62);
    assert_eq!(file[..2], *b"BM");
    assert_eq!(file[2..6], 62u32.to_le_bytes());
    assert_eq!(file[18..22], 1i32.to_le_bytes());
    assert_eq!(file[22..26], (-2i32).to_le_bytes());
    assert_eq!(file[54..], [3, 2, 1, 0, 6, 5, 4, 0]);
}

#[test]
fn bitmaps_of_bgra_drop_alpha_and_padding() {
    let frame = frame(PixelFormat::Bgra8, 1, 2, 6, vec![1, 2, 3, 9, 0, 0, 4, 5, 6, 9, 0, 0]);
    assert_eq!(bmp_from_bgra(&frame)[54..], [1, 2, 3, 0, 4, 5, 6, 0]);
    assert_eq!(frame_to_bmp(&frame), bmp_from_bgra(&frame));
}

#[test]
fn previews_fall_back_to_a_placeholder() {
    assert_eq!(preview_bmp(&None), placeholder_bmp());
    assert_eq!(placeholder_bmp().len(), 58);
    let broken = frame(PixelFormat::Mjpeg, 8, 8, 0, vec![1, 2, 3]);
    assert_eq!(frame_to_bmp(&broken), placeholder_bmp());
    let red = frame(PixelFormat::Rgb8, 1, 1, 0, vec![255, 0, 0]);
    assert_eq!(preview_bmp(&Some(red))[54..], [0, 0, 255, 0]);
}

#[test]
fn images_are_premultiplied() {
    let glass = frame(PixelFormat::Rgba8, 1, 1, 0, vec![200, 100, 50, 128]);
    let image = frame_to_color_image(&glass).unwrap();
    assert_eq!(image.size, [1, 1]);
    assert_eq!(image.pixels[0].to_array(), [100, 50, 25, 128]);
    let opaque = frame(PixelFormat::Bgra8, 2, 1, 0, vec![1, 2, 3, 0, 4, 5, 6, 0]);
    let image = frame_to_color_image(&opaque).unwrap();
    assert_eq!(image.pixels[1].to_array(), [6, 5, 4, 255]);
}

#[test]
fn images_need_data_for_every_pixel() {
    let wrong = frame(PixelFormat::Mjpeg, 9, 8, 0, gray_jpeg());
    assert!(color_image_if_filled(&wrong).unwrap().is_none());
    let right = frame(PixelFormat::Mjpeg, 8, 8, 0, gray_jpeg());
    let image = color_image_if_filled(&right).unwrap().unwrap();
    assert_eq!(image.pixels.len(), 64);
    let broken = frame(PixelFormat::Mjpeg, 8, 8, 0, vec![]);
    assert!(color_image_if_filled(&broken).is_err());
}

#[test]
fn frames_are_taken_once() {
    let mut slot = FrameSlot::default();
    assert!(take_frame(&mut slot).is_none());
    publish_frame(&mut slot, frame(PixelFormat::Rgb8, 1, 1, 0, vec![1, 1, 1]));
    publish_frame(&mut slot, frame(PixelFormat::Rgb8, 1, 1, 0, vec![2, 2, 2]));
    assert_eq!(snapshot(&slot).unwrap().plane_primary[0], 2);
    assert_eq!(take_frame(&mut slot).unwrap().plane_primary[0], 2);
    assert!(snapshot(&slot).is_none());
}

#[test]
fn the_last_row_needs_no_padding() {
    let rgb = frame(PixelFormat::Rgb8, 1, 2, 4, vec![1, 2, 3, 0, 4, 5, 6]);
    assert_eq!(to_rgb8(&rgb).unwrap(), vec![1, 2, 3, 4, 5, 6]);
    let short = frame(PixelFormat::Rgb8, 1, 2, 4, vec![1, 2, 3, 0, 4, 5]);
    assert_eq!(to_rgb8(&short).unwrap(), vec![1, 2, 3]);
    let rgba = frame(PixelFormat::Rgba8, 1, 2, 6, vec![1, 2, 3, 4, 0, 0, 5, 6, 7, 8]);
    assert_eq!(to_rgba8(&rgba).unwrap(), vec![1, 2, 3, 4, 5, 6, 7, 8]);
}

#[test]
fn luma_leaves_padding_out() {
    let rgb = frame(PixelFormat::Rgb8, 1, 2, 4, vec![9, 9, 9, 0, 9, 9, 9, 0]);
    assert_eq!(to_luma8(&rgb), vec![9, 9]);
    let rgba = frame(PixelFormat::Rgba8, 1, 2, 5, vec![9, 9, 9, 1, 0, 7, 7, 7, 1, 0]);
    assert_eq!(to_luma8(&rgba), vec![9, 7]);
}

#[test]
fn nv12_padding_does_not_matter() {
    let tight = nv12(2, 2, 2, vec![10, 20, 30, 40], vec![100, 200]);
    let padded = nv12(2, 2, 3, vec![10, 20, 0, 30, 40, 99], vec![100, 200, 77]);
    assert_eq!(to_rgb8(&tight).unwrap(), to_rgb8(&padded).unwrap());
}

#[test]
fn a_slow_reader_finds_the_latest_frames() {
    let mut queue = Vec::new();
    for number in 0..5 {
        while offer_step(queue.len()) == OfferStep::DropOldest {
            queue.remove(0);
        }
        queue.push(number);
    }
    assert_eq!(FRAME_QUEUE_CAPACITY, 3);
    assert_eq!(queue, vec![2, 3, 4]);
}

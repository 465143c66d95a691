use bytes::Bytes;
use cameras::convert::{to_luma8, to_rgb8};
use cameras::error::Error;
use cameras::jpeg::is_fit;
use cameras::types::{Frame, FrameQuality, PixelFormat};
use std::time::Duration;

const BASELINE: u8 = 0xc0;
const PROGRESSIVE: u8 = 0xc2;

fn frame(data: Vec<u8>) -> Frame {
    Frame {
        width: 8,
        height: 8,
        stride: 0,
        timestamp: Duration::ZERO,
        pixel_format: PixelFormat::Mjpeg,
        quality: FrameQuality::Intact,
        plane_primary: Bytes::from(data),
        plane_secondary: Bytes::new(),
    }
}

fn quantization() -> Vec<u8> {
    let mut jpeg = vec![0xff, 0xd8, 0xff, 0xdb, 0, 67, 0];
    jpeg.extend_from_slice(&[1; 64]);
    jpeg
}

/// The frame header of a picture whose components have the given sampling factors.
fn frame_header(kind: u8, width: u8, height: u8, factors: &[u8]) -> Vec<u8> {
    let count = factors.len() as u8;
    let mut header = vec![0xff, kind, 0, 8 + 3 * count, 8, 0, height, 0, width, count];
    for (i, factor) in factors.iter().enumerate() {
        header.extend_from_slice(&[i as u8 + 1, *factor, 0]);
    }
    header
}

/// A table in which the one code, a zero bit, stands for symbol zero.
fn table(kind: u8) -> Vec<u8> {
    let mut segment = vec![0xff, 0xc4, 0, 20, kind, 1];
    segment.extend_from_slice(&[0; 16]);
    segment
}

/// A scan of components, each with its tables, over one byte of coefficients.
fn scan(components: &[(u8, u8)], spectrum: (u8, u8)) -> Vec<u8> {
    let count = components.len() as u8;
    let mut segment = vec![0xff, 0xda, 0, 6 + 2 * count, count];
    for (id, tables) in components {
        segment.extend_from_slice(&[*id, *tables]);
    }
    segment.extend_from_slice(&[spectrum.0, spectrum.1, 0, 0]);
    segment
}

fn join(parts: &[Vec<u8>]) -> Vec<u8> {
    let mut jpeg = quantization();
    for part in parts {
        jpeg.extend_from_slice(part);
    }
    jpeg
}

fn end() -> Vec<u8> {
    vec![0xff, 0xd9]
}

fn all(count: usize) -> Vec<(u8, u8)> {
    (0..count).map(|i| (i as u8 + 1, 0)).collect()
}

fn baseline(width: u8, height: u8, factors: &[u8]) -> Vec<u8> {
    join(&[
        frame_header(BASELINE, width, height, factors),
        table(0x00),
        table(0x10),
        scan(&all(factors.len()), (0, 63)),
        end(),
    ])
}

/// The components one after the other, each in a scan of its own.
fn separate(width: u8, height: u8, factors: &[u8]) -> Vec<u8> {
    let mut parts =
        vec![frame_header(BASELINE, width, height, factors), table(0x00), table(0x10)];
    for component in all(factors.len()) {
        parts.push(scan(&[component], (0, 63)));
    }
    parts.push(end());
    join(&parts)
}

fn progressive(width: u8, height: u8, factors: &[u8]) -> Vec<u8> {
    let mut parts = vec![
        frame_header(PROGRESSIVE, width, height, factors),
        table(0x00),
        table(0x10),
        scan(&all(factors.len()), (0, 0)),
    ];
    for component in all(factors.len()) {
        parts.push(scan(&[component], (1, 63)));
    }
    parts.push(end());
    join(&parts)
}

fn is_refused(data: Vec<u8>) -> bool {
    let fit = is_fit(&data);
    match to_rgb8(&frame(data)) {
        Err(Error::MjpegDecode(message)) => {
            assert_eq!(fit, message != "unsupported JPEG structure");
            !fit
        }
        Err(other) => panic!("unexpected {other:?}"),
        Ok(_) => {
            assert!(fit);
            false
        }
    }
}

const FACTORS: [u8; 9] = [0x11, 0x12, 0x21, 0x22, 0x14, 0x41, 0x42, 0x44, 0x81];
const SIDES: [u8; 4] = [1, 15, 16, 40];

/// Whatever is let through comes back from the decoder, as a picture of the frame's size.
fn decode_what_fits(write: fn(u8, u8, &[u8]) -> Vec<u8>) -> usize {
    let mut decoded = 0;
    for luma in FACTORS {
        for blue in FACTORS {
            for red in FACTORS {
                for width in SIDES {
                    for height in [1, 40] {
                        let jpeg = write(width, height, &[luma, blue, red]);
                        if is_fit(&jpeg) {
                            let rgb = to_rgb8(&frame(jpeg)).unwrap();
                            assert_eq!(rgb.len(), width as usize * height as usize * 3);
                            decoded += 1;
                        }
                    }
                }
            }
        }
    }
    decoded
}

#[test]
fn fit_pictures_of_one_scan_are_decoded() {
    assert!(decode_what_fits(baseline) > 0);
}

#[test]
fn fit_pictures_of_separate_scans_are_decoded() {
    assert!(decode_what_fits(separate) > 0);
}

#[test]
fn fit_progressive_pictures_are_decoded() {
    assert!(decode_what_fits(progressive) > 0);
}

#[test]
fn gray_pictures_may_be_sampled_in_any_way() {
    for factor in FACTORS {
        for width in SIDES {
            for write in [baseline, separate, progressive] {
                let jpeg = write(width, 9, &[factor]);
                assert!(is_fit(&jpeg));
                assert_eq!(to_rgb8(&frame(jpeg)).unwrap().len(), width as usize * 9);
            }
        }
    }
}

#[test]
fn pictures_of_four_components_are_decoded() {
    for write in [baseline, separate, progressive] {
        for width in SIDES {
            let jpeg = write(width, 20, &[0x22, 0x11, 0x11, 0x22]);
            assert!(is_fit(&jpeg));
            assert_eq!(to_rgb8(&frame(jpeg)).unwrap().len(), width as usize * 60);
        }
    }
}

#[test]
fn usual_sampling_is_fit_at_every_width() {
    for factors in [[0x11, 0x11, 0x11], [0x21, 0x11, 0x11], [0x12, 0x11, 0x11], [0x22, 0x11, 0x11]]
    {
        for width in 1..=255 {
            assert!(is_fit(&baseline(width, 8, &factors)));
            assert!(is_fit(&progressive(width, 8, &factors)));
        }
    }
    assert_eq!(to_rgb8(&frame(baseline(9, 7, &[0x22, 0x11, 0x11]))).unwrap(), vec![128; 189]);
}

#[test]
fn narrow_pictures_with_wide_chroma_are_refused() {
    assert!(is_refused(baseline(15, 8, &[0x41, 0x11, 0x11])));
    assert!(is_refused(progressive(1, 8, &[0x41, 0x11, 0x11])));
    assert!(!is_refused(baseline(16, 8, &[0x41, 0x11, 0x11])));
    assert_eq!(to_rgb8(&frame(baseline(16, 1, &[0x41, 0x11, 0x11]))).unwrap(), vec![128; 48]);
    assert!(to_luma8(&frame(baseline(15, 8, &[0x41, 0x11, 0x11]))).is_empty());
}

#[test]
fn chroma_finer_than_luma_is_mostly_refused() {
    assert!(is_refused(baseline(16, 16, &[0x11, 0x21, 0x11])));
    assert!(is_refused(progressive(16, 16, &[0x21, 0x11, 0x12])));
    assert!(!is_refused(baseline(16, 16, &[0x21, 0x11, 0x12])));
    assert!(is_refused(baseline(16, 16, &[0x12, 0x11, 0x14])));
    assert!(is_refused(baseline(16, 16, &[0x14, 0x12, 0x11])));
    assert!(!is_refused(baseline(16, 16, &[0x22, 0x11, 0x12])));
}

#[test]
fn later_scans_need_their_tables() {
    let picture = |tables: &[Vec<u8>], later: u8| {
        let mut parts = vec![frame_header(BASELINE, 8, 8, &[0x11, 0x11, 0x11])];
        parts.extend_from_slice(tables);
        parts.push(scan(&[(1, 0)], (0, 63)));
        parts.push(scan(&[(2, later)], (0, 63)));
        parts.push(scan(&[(3, 0)], (0, 63)));
        parts.push(end());
        join(&parts)
    };
    let first = [table(0x00), table(0x10)];
    let both = [table(0x00), table(0x10), table(0x01), table(0x11)];
    assert!(!is_refused(picture(&first, 0x00)));
    assert!(is_refused(picture(&first, 0x10)));
    assert!(is_refused(picture(&first, 0x01)));
    assert!(!is_refused(picture(&both, 0x11)));
    assert!(is_refused(picture(&both, 0x12)));
    let avi = vec![0xff, 0xe0, 0, 7, b'A', b'V', b'I', b'1', 0];
    assert!(!is_refused(picture(&[avi.clone()], 0x11)));
    assert!(is_refused(picture(&[avi], 0x22)));
}

#[test]
fn one_scan_without_tables_is_for_the_decoder_to_reject() {
    let jpeg = join(&[
        frame_header(BASELINE, 8, 8, &[0x11, 0x11, 0x11]),
        scan(&all(3), (0, 63)),
        end(),
    ]);
    assert!(is_fit(&jpeg));
    assert!(matches!(to_rgb8(&frame(jpeg)), Err(Error::MjpegDecode(_))));
}

#[test]
fn progressive_pictures_may_not_end_in_a_restart() {
    let picture = |tail: &[u8]| {
        let mut jpeg = join(&[
            frame_header(PROGRESSIVE, 8, 8, &[0x11, 0x11, 0x11]),
            table(0x00),
            table(0x10),
            scan(&all(3), (0, 0)),
        ]);
        jpeg.extend_from_slice(tail);
        jpeg
    };
    assert!(is_refused(picture(&[0xff, 0xd0])));
    assert!(is_refused(picture(&[0xff, 0xd0, 1, 2, 3])));
    assert!(!is_refused(picture(&[0xff, 0xd0, 0xff, 0xd9])));
    assert!(!is_refused(picture(&[])));
    assert!(is_refused(picture(&[0xff, 0xe5, 0, 2, 0xff, 0xd9])));
    assert!(!is_refused(picture(&[0xff, 0xfe, 0, 3, 9, 0xff, 0xd9])));
}

#[test]
fn progressive_pictures_keep_their_colour_space() {
    let adobe = vec![0xff, 0xee, 0, 14, b'A', b'd', b'o', b'b', b'e', 0, 100, 0, 0, 0, 0, 2];
    let picture = |kind: u8, early: bool, factors: &[u8]| {
        let mut parts = vec![];
        if early {
            parts.push(adobe.clone());
        }
        parts.push(frame_header(kind, 8, 8, factors));
        if !early {
            parts.push(adobe.clone());
        }
        parts.push(table(0x00));
        parts.push(table(0x10));
        let last = if kind == BASELINE { 63 } else { 0 };
        parts.push(scan(&all(factors.len()), (0, last)));
        parts.push(end());
        join(&parts)
    };
    assert!(is_refused(picture(PROGRESSIVE, false, &[0x11])));
    assert!(!is_refused(picture(PROGRESSIVE, true, &[0x11])));
    assert!(is_refused(picture(PROGRESSIVE, true, &[0x11, 0x11])));
    assert!(!is_refused(picture(BASELINE, true, &[0x11, 0x11])));
    assert!(!is_refused(picture(BASELINE, false, &[0x22])));
    assert!(!is_refused(picture(PROGRESSIVE, true, &[0x11, 0x11, 0x11])));
    assert!(!is_refused(picture(PROGRESSIVE, true, &[0x11, 0x11, 0x11, 0x11])));
}

#[test]
fn what_is_no_picture_is_for_the_decoder_to_reject() {
    let jpeg = baseline(8, 8, &[0x11, 0x11, 0x11]);
    for length in 0..jpeg.len() {
        assert!(is_fit(&jpeg[..length]));
        let _ = to_rgb8(&frame(jpeg[..length].to_vec()));
    }
    assert!(is_fit(&[1, 2, 3]));
    let short = vec![0xff, 0xd8, 0xff, 0xe0, 0, 6, 1, 2, 3, 4];
    assert!(is_fit(&short));
    assert!(!is_refused(short));
}

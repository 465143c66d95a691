//! Frames as uncompressed bitmap files, for previews that need no encoder.

use crate::buffer;
use crate::convert;
use crate::convert::to_rgb8;
use crate::tiling;
use crate::types::{Frame, FrameView, PixelFormat};
use vstd::arithmetic::div_mod;
use vstd::prelude::*;
use vstd::slice::slice_subrange;

verus! {

/// Bytes of the two headers that a file starts with.
pub const HEADER_BYTES: u32 = 54;

/// A 32-bit number, least significant byte first.
pub open spec fn le32(value: int) -> Seq<u8> {
    seq![
        (value % 0x100) as u8,
        (value / 0x100 % 0x100) as u8,
        (value / 0x1_0000 % 0x100) as u8,
        (value / 0x100_0000 % 0x100) as u8,
    ]
}

/// A 16-bit number, least significant byte first.
pub open spec fn le16(value: int) -> Seq<u8> {
    seq![(value % 0x100) as u8, (value / 0x100 % 0x100) as u8]
}

/// Bytes per row in a file: three for each pixel, rounded up to a multiple of four.
pub open spec fn padded_row(width: u32) -> int {
    (3 * width + 3) / 4 * 4
}

/// The two headers of a file of 24-bit pixels whose first row is the top one, which a
/// negative height says. Sizes are given modulo 2³².
pub open spec fn headers(width: u32, height: u32, pixel_bytes: int, file_bytes: int) -> Seq<u8> {
    seq![66u8, 77u8] + le32(file_bytes) + le32(0) + le32(54) + le32(40) + le32(width as int) + le32(
        (0x1_0000_0000 - height) % 0x1_0000_0000,
    ) + le16(1) + le16(24) + le32(0) + le32(pixel_bytes) + le32(2835) + le32(2835) + le32(0) + le32(
        0,
    )
}

/// `count` zero bytes.
pub open spec fn zeros(count: int) -> Seq<u8> {
    Seq::new(count as nat, |i: int| 0u8)
}

/// Pixel `i` of packed RGB, blue first.
pub open spec fn rgb_pixel(data: Seq<u8>) -> spec_fn(int) -> Seq<u8> {
    |i: int| seq![data[3 * i + 2], data[3 * i + 1], data[3 * i]]
}

/// Pixel `i` of BGRA, without its alpha.
pub open spec fn bgra_pixel(data: Seq<u8>) -> spec_fn(int) -> Seq<u8> {
    |i: int| seq![data[4 * i], data[4 * i + 1], data[4 * i + 2]]
}

/// Row `row` of a packed RGB image, as it stands in a file.
pub open spec fn rgb_row(rgb: Seq<u8>, width: u32) -> spec_fn(int) -> Seq<u8> {
    |row: int|
        tiling::joined(
            width as nat,
            rgb_pixel(rgb.subrange(row * (3 * width), row * (3 * width) + 3 * width)),
        ) + zeros(padded_row(width) - 3 * width)
}

/// How many rows of a packed RGB image there are.
pub open spec fn rgb_rows(len: nat, width: u32, height: u32) -> nat {
    if width == 0 || height < len as int / (3 * width) {
        height as nat
    } else {
        (len as int / (3 * width)) as nat
    }
}

/// A packed RGB image as a file. Where the data ends early, so do the rows.
pub open spec fn rgb_file(rgb: Seq<u8>, width: u32, height: u32) -> Seq<u8> {
    let pixel_bytes = padded_row(width) * height;
    headers(width, height, pixel_bytes, 54 + pixel_bytes) + tiling::joined(
        rgb_rows(rgb.len(), width, height),
        rgb_row(rgb, width),
    )
}

/// The bytes of a row of a BGRA image, as many of them as there are.
pub open spec fn bgra_window(data: Seq<u8>, row: int, step: int, width: u32) -> Seq<u8> {
    let start = if row * step < data.len() {
        row * step
    } else {
        data.len() as int
    };
    let end = if row * step + 4 * width < data.len() {
        row * step + 4 * width
    } else {
        data.len() as int
    };
    data.subrange(start, end)
}

/// Row `row` of a BGRA image, as it stands in a file.
pub open spec fn bgra_row(data: Seq<u8>, width: u32, step: int) -> spec_fn(int) -> Seq<u8> {
    |row: int|
        {
            let window = bgra_window(data, row, step, width);
            tiling::joined((window.len() as int / 4) as nat, bgra_pixel(window)) + zeros(
                padded_row(width) - 3 * width,
            )
        }
}

/// A BGRA frame as a file.
pub open spec fn bgra_file(frame: FrameView) -> Seq<u8> {
    let pixel_bytes = padded_row(frame.width) * frame.height;
    headers(frame.width, frame.height, pixel_bytes, 54 + pixel_bytes) + tiling::joined(
        frame.height as nat,
        bgra_row(
            frame.plane_primary,
            frame.width,
            convert::row_step(frame.stride, 4 * frame.width),
        ),
    )
}

/// The file that stands in for a missing frame: a single black pixel.
pub open spec fn placeholder() -> Seq<u8> {
    headers(1, 1, 4, 58) + zeros(4)
}

/// A frame as a file, given what it converts to.
pub open spec fn frame_file(frame: FrameView) -> Seq<u8> {
    if frame.pixel_format == PixelFormat::Bgra8 {
        bgra_file(frame)
    } else {
        match convert::rgb8(frame) {
            Ok(rgb) => rgb_file(rgb, frame.width, frame.height),
            Err(_) => placeholder(),
        }
    }
}

fn push_le16(output: &mut Vec<u8>, value: u16)
    ensures
        final(output)@ == old(output)@ + le16(value as int),
{
    output.push((value % 0x100) as u8);
    output.push((value / 0x100) as u8);
    assert(output@ =~= old(output)@ + le16(value as int));
}

fn push_le32(output: &mut Vec<u8>, value: u32)
    ensures
        final(output)@ == old(output)@ + le32(value as int),
{
    output.push((value % 0x100) as u8);
    output.push((value / 0x100 % 0x100) as u8);
    output.push((value / 0x1_0000 % 0x100) as u8);
    output.push((value / 0x100_0000) as u8);
    assert(output@ =~= old(output)@ + le32(value as int));
}

/// Adding a multiple of 2³² to a number leaves each of its four low bytes.
proof fn low_bytes_stay(high: int, low: int)
    requires
        0 <= high,
        0 <= low < 0x1_0000_0000,
    ensures
        (high * 0x1_0000_0000 + low) % 0x100 == low % 0x100,
        (high * 0x1_0000_0000 + low) / 0x100 % 0x100 == low / 0x100 % 0x100,
        (high * 0x1_0000_0000 + low) / 0x1_0000 % 0x100 == low / 0x1_0000 % 0x100,
        (high * 0x1_0000_0000 + low) / 0x100_0000 % 0x100 == low / 0x100_0000 % 0x100,
{
    div_mod::lemma_hoist_over_denominator(low, high * 0x100_0000, 0x100);
    div_mod::lemma_hoist_over_denominator(low, high * 0x1_0000, 0x1_0000);
    div_mod::lemma_hoist_over_denominator(low, high * 0x100, 0x100_0000);
    div_mod::lemma_mod_multiples_vanish(high * 0x100_0000, low, 0x100);
    div_mod::lemma_mod_multiples_vanish(high * 0x1_0000, low / 0x100, 0x100);
    div_mod::lemma_mod_multiples_vanish(high * 0x100, low / 0x1_0000, 0x100);
    div_mod::lemma_mod_multiples_vanish(high, low / 0x100_0000, 0x100);
}

/// Only the low 32 bits of a size are written.
proof fn le32_wraps(size: int)
    requires
        0 <= size,
    ensures
        le32(size) == le32(size % 0x1_0000_0000),
{
    div_mod::lemma_fundamental_div_mod(size, 0x1_0000_0000);
    low_bytes_stay(size / 0x1_0000_0000, size % 0x1_0000_0000);
}

fn write_bmp_headers(
    output: &mut Vec<u8>,
    width: u32,
    height: u32,
    pixel_bytes: u128,
    file_bytes: u128,
)
    ensures
        final(output)@ == old(output)@ + headers(
            width,
            height,
            pixel_bytes as int,
            file_bytes as int,
        ),
{
    proof {
        le32_wraps(pixel_bytes as int);
        le32_wraps(file_bytes as int);
    }
    let upside_down: u32 = ((0x1_0000_0000 - height as u64) % 0x1_0000_0000) as u32;
    output.push(66);
    output.push(77);
    push_le32(output, (file_bytes % 0x1_0000_0000) as u32);
    push_le32(output, 0);
    push_le32(output, 54);
    push_le32(output, 40);
    push_le32(output, width);
    push_le32(output, upside_down);
    push_le16(output, 1);
    push_le16(output, 24);
    push_le32(output, 0);
    push_le32(output, (pixel_bytes % 0x1_0000_0000) as u32);
    push_le32(output, 2835);
    push_le32(output, 2835);
    push_le32(output, 0);
    push_le32(output, 0);
    assert(output@ =~= old(output)@ + headers(
        width,
        height,
        pixel_bytes as int,
        file_bytes as int,
    ));
}

fn push_zeros(output: &mut Vec<u8>, count: u64)
    ensures
        final(output)@ == old(output)@ + zeros(count as int),
{
    let mut i: u64 = 0;
    assert(output@ =~= old(output)@ + zeros(0));
    while i < count
        invariant
            i <= count,
            output@ == old(output)@ + zeros(i as int),
        decreases count - i,
    {
        output.push(0);
        i = i + 1;
        assert(output@ =~= old(output)@ + zeros(i as int));
    }
}

fn push_rgb_pixels(output: &mut Vec<u8>, row: &[u8], width: u32)
    requires
        row@.len() == 3 * width,
    ensures
        final(output)@ == old(output)@ + tiling::joined(width as nat, rgb_pixel(row@)),
{
    let ghost part = rgb_pixel(row@);
    let mut i: u32 = 0;
    let mut at: usize = 0;
    assert(output@ =~= old(output)@ + tiling::joined(0, part));
    while i < width
        invariant
            i <= width,
            at == 3 * i,
            row@.len() == 3 * width,
            part == rgb_pixel(row@),
            output@ == old(output)@ + tiling::joined(i as nat, part),
        decreases width - i,
    {
        assert(at + 2 < row.len());
        output.push(row[at + 2]);
        output.push(row[at + 1]);
        output.push(row[at]);
        assert(part(i as int) == seq![row@[at + 2], row@[at + 1], row@[at as int]]);
        i = i + 1;
        assert(at + 3 <= row.len());
        at = at + 3;
        assert(output@ =~= old(output)@ + tiling::joined(i as nat, part));
    }
}

fn push_bgra_pixels(output: &mut Vec<u8>, row: &[u8])
    ensures
        final(output)@ == old(output)@ + tiling::joined(
            (row@.len() as int / 4) as nat,
            bgra_pixel(row@),
        ),
{
    let ghost part = bgra_pixel(row@);
    let count: usize = row.len() / 4;
    let mut i: usize = 0;
    assert(output@ =~= old(output)@ + tiling::joined(0, part));
    while i < count
        invariant
            i <= count,
            count == row.len() / 4,
            part == bgra_pixel(row@),
            output@ == old(output)@ + tiling::joined(i as nat, part),
        decreases count - i,
    {
        output.push(row[4 * i]);
        output.push(row[4 * i + 1]);
        output.push(row[4 * i + 2]);
        assert(part(i as int) == seq![row@[4 * i], row@[4 * i + 1], row@[4 * i + 2]]);
        i = i + 1;
        assert(output@ =~= old(output)@ + tiling::joined(i as nat, part));
    }
}

/// Bytes per row in a file, and how many of them are padding.
fn row_layout(width: u32) -> (layout: (u64, u64))
    ensures
        layout.0 == padded_row(width),
        layout.1 == padded_row(width) - 3 * width,
{
    let padded: u64 = (3 * width as u64 + 3) / 4 * 4;
    (padded, padded - 3 * width as u64)
}

fn start_file(width: u32, height: u32) -> (output: Vec<u8>)
    ensures
        output@ == headers(
            width,
            height,
            padded_row(width) * height,
            54 + padded_row(width) * height,
        ),
{
    let (padded, _) = row_layout(width);
    proof {
        assert(0 <= padded * height <= 0x4_0000_0000 * 0xffff_ffff) by (nonlinear_arith)
            requires
                0 <= padded <= 0x4_0000_0000,
                0 <= height <= 0xffff_ffff,
        ;
    }
    let pixel_bytes: u128 = padded as u128 * height as u128;
    let mut output: Vec<u8> = Vec::new();
    write_bmp_headers(&mut output, width, height, pixel_bytes, 54 + pixel_bytes);
    assert(output@ =~= headers(
        width,
        height,
        padded_row(width) * height,
        54 + padded_row(width) * height,
    ));
    output
}

/// A packed RGB image as a file.
pub fn bmp_from_rgb(rgb: &[u8], width: u32, height: u32) -> (file: Vec<u8>)
    ensures
        file@ == rgb_file(rgb@, width, height),
{
    let (_, pad) = row_layout(width);
    let row_bytes: u64 = 3 * width as u64;
    let rows: u32 = if width == 0 || (height as u64) < rgb.len() as u64 / row_bytes {
        height
    } else {
        (rgb.len() as u64 / row_bytes) as u32
    };
    let ghost part = rgb_row(rgb@, width);
    let mut output = start_file(width, height);
    let ghost head = output@;
    let mut row: u32 = 0;
    proof {
        if width > 0 {
            div_mod::lemma_fundamental_div_mod(rgb@.len() as int, row_bytes as int);
            assert(rows * row_bytes <= rgb@.len()) by (nonlinear_arith)
                requires
                    rows <= rgb@.len() as int / row_bytes as int,
                    rgb@.len() == row_bytes * (rgb@.len() as int / row_bytes as int)
                        + rgb@.len() as int % row_bytes as int,
                    0 <= rgb@.len() as int % row_bytes as int,
                    row_bytes > 0,
            ;
        } else {
            assert(rows * row_bytes == 0) by (nonlinear_arith)
                requires
                    row_bytes == 0,
            ;
        }
        assert(output@ =~= head + tiling::joined(0, part));
    }
    while row < rows
        invariant
            row <= rows,
            row_bytes == 3 * width,
            pad == padded_row(width) - 3 * width,
            rows * row_bytes <= rgb.len(),
            part == rgb_row(rgb@, width),
            output@ == head + tiling::joined(row as nat, part),
        decreases rows - row,
    {
        proof {
            tiling::row_inside(row as int, rows as int, row_bytes as int);
        }
        let start: usize = (row as u64 * row_bytes) as usize;
        let slice = slice_subrange(rgb, start, start + row_bytes as usize);
        let ghost before = output@;
        push_rgb_pixels(&mut output, slice, width);
        push_zeros(&mut output, pad);
        assert(slice@ =~= rgb@.subrange(
            row * (3 * width),
            row * (3 * width) + 3 * width,
        ));
        assert(output@ =~= before + part(row as int));
        row = row + 1;
        assert(output@ =~= head + tiling::joined(row as nat, part));
    }
    output
}

/// The bytes of a row of a BGRA image, as many of them as there are.
fn bgra_slice(data: &[u8], row: u32, step: u64, width: u32) -> (slice: &[u8])
    requires
        step <= 0x4_0000_0000,
    ensures
        slice@ == bgra_window(data@, row as int, step as int, width),
{
    proof {
        assert(0 <= row * step <= 0xffff_ffff * 0x4_0000_0000) by (nonlinear_arith)
            requires
                0 <= row <= 0xffff_ffff,
                0 <= step <= 0x4_0000_0000,
        ;
    }
    let wanted: u128 = row as u128 * step as u128;
    let len: u128 = data.len() as u128;
    let start: u128 = if wanted < len {
        wanted
    } else {
        len
    };
    let end: u128 = if wanted + 4 * width as u128 <= len {
        wanted + 4 * width as u128
    } else {
        len
    };
    slice_subrange(data, start as usize, end as usize)
}

/// A BGRA frame as a file.
pub fn bmp_from_bgra(frame: &Frame) -> (file: Vec<u8>)
    ensures
        file@ == bgra_file(frame@),
{
    let data = buffer::as_slice(&frame.plane_primary);
    let (width, height) = (frame.width, frame.height);
    let (_, pad) = row_layout(width);
    let step: u64 = if frame.stride == 0 {
        4 * width as u64
    } else {
        frame.stride as u64
    };
    let ghost part = bgra_row(data@, width, step as int);
    let mut output = start_file(width, height);
    let ghost head = output@;
    let mut row: u32 = 0;
    assert(output@ =~= head + tiling::joined(0, part));
    while row < height
        invariant
            row <= height,
            step <= 0x4_0000_0000,
            pad == padded_row(width) - 3 * width,
            part == bgra_row(data@, width, step as int),
            output@ == head + tiling::joined(row as nat, part),
        decreases height - row,
    {
        let slice = bgra_slice(data, row, step, width);
        let ghost before = output@;
        push_bgra_pixels(&mut output, slice);
        push_zeros(&mut output, pad);
        assert(output@ =~= before + part(row as int));
        row = row + 1;
        assert(output@ =~= head + tiling::joined(row as nat, part));
    }
    output
}

/// The file that stands in for a missing frame: a single black pixel.
pub fn placeholder_bmp() -> (file: Vec<u8>)
    ensures
        file@ == placeholder(),
{
    let mut output: Vec<u8> = Vec::new();
    write_bmp_headers(&mut output, 1, 1, 4, 58);
    push_zeros(&mut output, 4);
    assert(output@ =~= placeholder());
    output
}

/// A frame as a file, or the placeholder where it cannot be converted.
pub fn frame_to_bmp(frame: &Frame) -> (file: Vec<u8>)
    requires
        convert::complete(frame@),
    ensures
        file@ == frame_file(frame@),
{
    match frame.pixel_format {
        PixelFormat::Bgra8 => bmp_from_bgra(frame),
        _ => match to_rgb8(frame) {
            Ok(rgb) => bmp_from_rgb(rgb.as_slice(), frame.width, frame.height),
            Err(_) => placeholder_bmp(),
        },
    }
}

/// The frame that a preview shows: the latest, or the placeholder where there is none.
pub fn preview_bmp(latest: &Option<Frame>) -> (file: Vec<u8>)
    requires
        latest matches Some(frame) ==> convert::complete(frame@),
    ensures
        file@ == (match latest {
            Some(frame) => frame_file(frame@),
            None => placeholder(),
        }),
{
    match latest {
        Some(frame) => frame_to_bmp(frame),
        None => placeholder_bmp(),
    }
}

} // verus!

//! What a bitmap file and an image on screen hold of a frame.

use crate::bmp;
use crate::convert;
use crate::laws::files;
use crate::picture;
use crate::tiling;
use crate::types::{FrameView, PixelFormat};
use vstd::arithmetic::{div_mod, mul};
use vstd::prelude::*;

verus! {

/// The number in four bytes, least significant first.
pub open spec fn number_at(file: Seq<u8>, at: int) -> int {
    file[at] + 0x100 * file[at + 1] + 0x1_0000 * file[at + 2] + 0x100_0000 * file[at + 3]
}

/// Where the fields of the headers stand.
proof fn layout(
    mark: Seq<u8>,
    size: Seq<u8>,
    none: Seq<u8>,
    start: Seq<u8>,
    info: Seq<u8>,
    wide: Seq<u8>,
    high: Seq<u8>,
    plane: Seq<u8>,
    bits: Seq<u8>,
    plain: Seq<u8>,
    bytes: Seq<u8>,
    across: Seq<u8>,
    down: Seq<u8>,
    colors: Seq<u8>,
    used: Seq<u8>,
)
    requires
        mark.len() == 2,
        size.len() == 4,
        none.len() == 4,
        start.len() == 4,
        info.len() == 4,
        wide.len() == 4,
        high.len() == 4,
        plane.len() == 2,
        bits.len() == 2,
        plain.len() == 4,
        bytes.len() == 4,
        across.len() == 4,
        down.len() == 4,
        colors.len() == 4,
        used.len() == 4,
    ensures
        ({
            let whole = mark + size + none + start + info + wide + high + plane + bits + plain + bytes + across + down + colors + used;
            &&& whole.len() == 54
            &&& whole.subrange(0, 2) == mark
            &&& whole.subrange(2, 6) == size
            &&& whole.subrange(6, 10) == none
            &&& whole.subrange(10, 14) == start
            &&& whole.subrange(14, 18) == info
            &&& whole.subrange(18, 22) == wide
            &&& whole.subrange(22, 26) == high
            &&& whole.subrange(26, 28) == plane
            &&& whole.subrange(28, 30) == bits
            &&& whole.subrange(30, 34) == plain
            &&& whole.subrange(34, 38) == bytes
            &&& whole.subrange(38, 42) == across
            &&& whole.subrange(42, 46) == down
            &&& whole.subrange(46, 50) == colors
            &&& whole.subrange(50, 54) == used
        }),
{
    let whole = mark + size + none + start + info + wide + high + plane + bits + plain + bytes + across + down + colors + used;
    assert(whole.subrange(0, 2) =~= mark);
    assert(whole.subrange(2, 6) =~= size);
    assert(whole.subrange(6, 10) =~= none);
    assert(whole.subrange(10, 14) =~= start);
    assert(whole.subrange(14, 18) =~= info);
    assert(whole.subrange(18, 22) =~= wide);
    assert(whole.subrange(22, 26) =~= high);
    assert(whole.subrange(26, 28) =~= plane);
    assert(whole.subrange(28, 30) =~= bits);
    assert(whole.subrange(30, 34) =~= plain);
    assert(whole.subrange(34, 38) =~= bytes);
    assert(whole.subrange(38, 42) =~= across);
    assert(whole.subrange(42, 46) =~= down);
    assert(whole.subrange(46, 50) =~= colors);
    assert(whole.subrange(50, 54) =~= used);
}

/// A field of four bytes holds its number.
proof fn field(file: Seq<u8>, at: int, value: int)
    requires
        0 <= at,
        at + 4 <= file.len(),
        file.subrange(at, at + 4) == bmp::le32(value),
        0 <= value <= u32::MAX,
    ensures
        number_at(file, at) == value,
{
    files::le32_reads_back(value);
    let bytes = file.subrange(at, at + 4);
    assert(bytes[0] == file[at] && bytes[1] == file[at + 1] && bytes[2] == file[at + 2] && bytes[3]
        == file[at + 3]);
}

/// A field of two bytes holds its number.
proof fn short_field(file: Seq<u8>, at: int, value: u8)
    requires
        0 <= at,
        at + 2 <= file.len(),
        file.subrange(at, at + 2) == bmp::le16(value as int),
    ensures
        file[at] == value,
        file[at + 1] == 0,
{
    let bytes = file.subrange(at, at + 2);
    assert(bytes[0] == file[at] && bytes[1] == file[at + 1]);
}

/// What stands in the fields of the headers.
#[verifier::rlimit(60)]
proof fn fields(width: u32, height: u32, pixel_bytes: int, file_bytes: int)
    ensures
        ({
            let head = bmp::headers(width, height, pixel_bytes, file_bytes);
            &&& head.len() == 54
            &&& head.subrange(0, 2) == seq![66u8, 77u8]
            &&& head.subrange(2, 6) == bmp::le32(file_bytes)
            &&& head.subrange(10, 14) == bmp::le32(54)
            &&& head.subrange(14, 18) == bmp::le32(40)
            &&& head.subrange(18, 22) == bmp::le32(width as int)
            &&& head.subrange(22, 26) == bmp::le32((0x1_0000_0000 - height) % 0x1_0000_0000)
            &&& head.subrange(26, 28) == bmp::le16(1)
            &&& head.subrange(28, 30) == bmp::le16(24)
            &&& head.subrange(30, 34) == bmp::le32(0)
            &&& head.subrange(34, 38) == bmp::le32(pixel_bytes)
        }),
{
    layout(
        seq![66u8, 77u8],
        bmp::le32(file_bytes),
        bmp::le32(0),
        bmp::le32(54),
        bmp::le32(40),
        bmp::le32(width as int),
        bmp::le32((0x1_0000_0000 - height) % 0x1_0000_0000),
        bmp::le16(1),
        bmp::le16(24),
        bmp::le32(0),
        bmp::le32(pixel_bytes),
        bmp::le32(2835),
        bmp::le32(2835),
        bmp::le32(0),
        bmp::le32(0),
    );
}

/// What the first of the fields stand for.
proof fn first_fields(head: Seq<u8>, width: u32, height: u32, file_bytes: int)
    requires
        0 < height,
        0 <= file_bytes <= u32::MAX,
        head.len() == 54,
        head.subrange(2, 6) == bmp::le32(file_bytes),
        head.subrange(10, 14) == bmp::le32(54),
        head.subrange(14, 18) == bmp::le32(40),
        head.subrange(18, 22) == bmp::le32(width as int),
        head.subrange(22, 26) == bmp::le32((0x1_0000_0000 - height) % 0x1_0000_0000),
    ensures
        number_at(head, 2) == file_bytes,
        number_at(head, 10) == 54,
        number_at(head, 14) == 40,
        number_at(head, 18) == width,
        number_at(head, 22) == 0x1_0000_0000 - height,
{
    field(head, 2, file_bytes);
    field(head, 10, 54);
    field(head, 14, 40);
    field(head, 18, width as int);
    field(head, 22, (0x1_0000_0000 - height) % 0x1_0000_0000);
}

/// The headers say what the file is: a bitmap whose pixels start at byte 54, of this width and
/// this height, top row first, in one plane of 24 bits for each pixel, uncompressed.
#[verifier::rlimit(60)]
pub proof fn headers_describe_the_picture(
    width: u32,
    height: u32,
    pixel_bytes: int,
    file_bytes: int,
    head: Seq<u8>,
)
    requires
        0 < height,
        0 <= pixel_bytes <= u32::MAX,
        0 <= file_bytes <= u32::MAX,
        head == bmp::headers(width, height, pixel_bytes, file_bytes),
    ensures
        head.len() == 54,
        head[0] == 0x42 && head[1] == 0x4d,
        number_at(head, 2) == file_bytes,
        number_at(head, 10) == 54,
        number_at(head, 14) == 40,
        number_at(head, 18) == width,
        number_at(head, 22) == 0x1_0000_0000 - height,
        head[26] == 1 && head[27] == 0,
        head[28] == 24 && head[29] == 0,
        number_at(head, 30) == 0,
        number_at(head, 34) == pixel_bytes,
{
    fields(width, height, pixel_bytes, file_bytes);
    first_fields(head, width, height, file_bytes);
    field(head, 30, 0);
    field(head, 34, pixel_bytes);
    short_field(head, 26, 1);
    short_field(head, 28, 24);
    let mark = head.subrange(0, 2);
    assert(head[0] == mark[0] && head[1] == mark[1]);
}

/// The byte `byte`, blue first, of a pixel of a bitmap file of that width.
pub open spec fn file_byte(file: Seq<u8>, width: u32, row: int, col: int, byte: int) -> u8 {
    file[54 + row * ((3 * width + 3) / 4 * 4) + 3 * col + byte]
}

/// The file of a packed RGB image holds every pixel of the rows that are there in its place:
/// rows from the top, each padded to four bytes, pixels from the left, each with its blue first.
#[verifier::rlimit(40)]
pub proof fn bitmaps_hold_every_pixel(
    rgb: Seq<u8>,
    width: u32,
    height: u32,
    row: int,
    col: int,
    byte: int,
)
    requires
        (row + 1) * (3 * width) <= rgb.len(),
        0 <= row < height,
        0 <= col < width,
        0 <= byte < 3,
    ensures
        file_byte(bmp::rgb_file(rgb, width, height), width, row, col, byte) == rgb[3 * (row * width
            + col) + (2 - byte)],
{
    let padded = bmp::padded_row(width);
    let pixel_bytes = padded * height;
    let head = bmp::headers(width, height, pixel_bytes, 54 + pixel_bytes);
    files::headers_take_54_bytes(width, height, pixel_bytes, 54 + pixel_bytes);
    let count = bmp::rgb_rows(rgb.len(), width, height);
    div_mod::lemma_div_is_ordered((row + 1) * (3 * width), rgb.len() as int, 3 * width);
    div_mod::lemma_div_by_multiple(row + 1, 3 * width);
    assert(row < count);
    let rows = bmp::rgb_row(rgb, width);
    assert forall|i: int| 0 <= i < count implies (#[trigger] rows(i)).len() == padded by {
        files::rgb_row_len(rgb, width, i);
    }
    tiling::joined_uniform(count, rows, padded as nat);
    let start = row * (3 * width);
    mul::lemma_mul_is_distributive_add_other_way(3 * width, row, 1);
    assert(0 <= start) by (nonlinear_arith)
        requires
            start == row * (3 * width),
            0 <= row,
            0 <= width,
    ;
    let data = rgb.subrange(start, start + 3 * width);
    let pixels = bmp::rgb_pixel(data);
    assert forall|i: int| 0 <= i < width implies (#[trigger] pixels(i)).len() == 3 by {}
    tiling::joined_uniform(width as nat, pixels, 3);
    assert(pixels(col)[byte] == tiling::joined(width as nat, pixels)[col * 3 + byte]);
    assert(rows(row)[col * 3 + byte] == pixels(col)[byte]);
    assert(pixels(col)[byte] == rgb[start + 3 * col + (2 - byte)]);
    assert(start + 3 * col == 3 * (row * width + col)) by (nonlinear_arith)
        requires
            start == row * (3 * width),
    ;
    tiling::row_inside(row, count as int, padded);
    assert(tiling::joined(count, rows)[row * padded + (col * 3 + byte)] == rows(row)[col * 3
        + byte]);
}

/// The file of a BGRA frame holds every pixel in its place, blue first and without its alpha,
/// whatever the frame's stride.
#[verifier::rlimit(40)]
pub proof fn bitmaps_of_bgra_hold_every_pixel(frame: FrameView, row: int, col: int, byte: int)
    requires
        frame.pixel_format == PixelFormat::Bgra8,
        frame.stride == 0 || frame.stride >= 4 * frame.width,
        frame.plane_primary.len() >= frame.height * (if frame.stride == 0 {
            4 * frame.width
        } else {
            frame.stride as int
        }),
        0 <= row < frame.height,
        0 <= col < frame.width,
        0 <= byte < 3,
    ensures
        file_byte(bmp::frame_file(frame), frame.width, row, col, byte) == frame.plane_primary[row
            * (if frame.stride == 0 {
            4 * frame.width
        } else {
            frame.stride as int
        }) + 4 * col + byte],
{
    let (width, height) = (frame.width, frame.height);
    let step = convert::row_step(frame.stride, 4 * width);
    let padded = bmp::padded_row(width);
    files::headers_take_54_bytes(width, height, padded * height, 54 + padded * height);
    let rows = bmp::bgra_row(frame.plane_primary, width, step);
    assert forall|i: int| 0 <= i < height implies (#[trigger] rows(i)).len() == padded by {
        tiling::row_inside(i, height as int, step);
        bgra_row_bytes(frame.plane_primary, width, step, i, 0, 0);
    }
    tiling::joined_uniform(height as nat, rows, padded as nat);
    tiling::row_inside(row, height as int, step);
    bgra_row_bytes(frame.plane_primary, width, step, row, col, byte);
    tiling::row_inside(row, height as int, padded);
    assert(tiling::joined(height as nat, rows)[row * padded + (3 * col + byte)] == rows(row)[3 * col
        + byte]);
}

/// A row of BGRA pixels as it stands in a file.
#[verifier::rlimit(40)]
proof fn bgra_row_bytes(data: Seq<u8>, width: u32, step: int, row: int, col: int, byte: int)
    requires
        0 <= row * step,
        row * step + step <= data.len(),
        4 * width <= step,
    ensures
        bmp::bgra_row(data, width, step)(row).len() == bmp::padded_row(width),
        0 <= col < width && 0 <= byte < 3 ==> bmp::bgra_row(data, width, step)(row)[3 * col + byte]
            == data[row * step + 4 * col + byte],
{
    let window = bmp::bgra_window(data, row, step, width);
    let pixels = bmp::bgra_pixel(window);
    assert(window.len() == 4 * width);
    assert(window.len() as int / 4 == width);
    assert forall|j: int| 0 <= j < width implies (#[trigger] pixels(j)).len() == 3 by {}
    tiling::joined_uniform(width as nat, pixels, 3);
    if 0 <= col < width && 0 <= byte < 3 {
        assert(pixels(col)[byte] == tiling::joined(width as nat, pixels)[col * 3 + byte]);
        assert(window[4 * col + byte] == data[row * step + 4 * col + byte]);
        assert(pixels(col)[byte] == window[4 * col + byte]);
    }
}

/// Opacity works as it should: an opaque color is drawn as it is, a transparent one is not
/// drawn, and in between a color is drawn in proportion, rounded to the nearest.
pub proof fn opacity_is_a_proportion(value: u8, alpha: u8)
    ensures
        picture::premultiplied(value, 255) == value,
        picture::premultiplied(value, 0) == 0,
        255 * picture::premultiplied(value, alpha) <= value * alpha + 127,
        value * alpha <= 255 * picture::premultiplied(value, alpha) + 127,
{
    assert(0 <= value * alpha <= 255 * 255) by (nonlinear_arith)
        requires
            0 <= value <= 255,
            0 <= alpha <= 255,
    ;
    assert(value * 0 == 0) by (nonlinear_arith);
}

/// An image on screen shows the pixels of packed RGBA one by one, each opaque one as it is.
pub proof fn opaque_pixels_are_drawn_as_they_are(rgba: Seq<u8>, place: int)
    requires
        0 <= place,
        4 * place + 3 < rgba.len(),
        rgba[4 * place + 3] == 255,
    ensures
        picture::drawn(rgba).len() == rgba.len() / 4,
        picture::drawn(rgba)[place] == rgba.subrange(4 * place, 4 * place + 4),
{
    opacity_is_a_proportion(rgba[4 * place], 255);
    opacity_is_a_proportion(rgba[4 * place + 1], 255);
    opacity_is_a_proportion(rgba[4 * place + 2], 255);
    assert(picture::drawn(rgba)[place] =~= rgba.subrange(4 * place, 4 * place + 4));
}

} // verus!

//! What the colour of a pixel means, and where each pixel of a frame goes.

use crate::convert;
use crate::convert::Repack;
use crate::laws::pixels;
use crate::tiling;
use crate::types::{FrameView, PixelFormat};
use vstd::arithmetic::{div_mod, mul};
use vstd::prelude::*;

verus! {

/// Whether two bytes differ by no more than `slack`.
pub open spec fn near(left: int, right: int, slack: int) -> bool {
    left - slack <= right <= left + slack
}

/// The brightness, between 16 and 235, of a color in video range (Rec. 601).
pub open spec fn video_y(red: int, green: int, blue: int) -> int {
    16 + (66 * red + 129 * green + 25 * blue + 128) / 256
}

/// How blue a color is in video range, between 16 and 240.
pub open spec fn video_u(red: int, green: int, blue: int) -> int {
    128 + (112 * blue - 38 * red - 74 * green + 128) / 256
}

/// How red a color is in video range, between 16 and 240.
pub open spec fn video_v(red: int, green: int, blue: int) -> int {
    128 + (112 * red - 94 * green - 18 * blue + 128) / 256
}

/// Every color that a camera sends as video-range YUV is read back, up to the rounding of
/// the two conversions.
pub proof fn colors_are_read_back(red: u8, green: u8, blue: u8)
    ensures
        16 <= video_y(red as int, green as int, blue as int) <= 235,
        16 <= video_u(red as int, green as int, blue as int) <= 240,
        16 <= video_v(red as int, green as int, blue as int) <= 240,
        ({
            let pixel = convert::yuv_pixel(
                video_y(red as int, green as int, blue as int) as u8,
                video_u(red as int, green as int, blue as int) as u8,
                video_v(red as int, green as int, blue as int) as u8,
            );
            &&& pixel.len() == 3
            &&& near(pixel[0] as int, red as int, 3)
            &&& near(pixel[1] as int, green as int, 3)
            &&& near(pixel[2] as int, blue as int, 3)
        }),
{
}

/// Red is told by the brightness and V alone, and rises with both.
pub proof fn red_follows_v(y: u8, u: u8, v: u8, other_u: u8)
    ensures
        convert::yuv_pixel(y, u, v)[0] == convert::yuv_pixel(y, other_u, v)[0],
        v < 255 ==> ({
            let here = convert::yuv_pixel(y, u, v)[0];
            let next = convert::yuv_pixel(y, u, (v + 1) as u8)[0];
            here <= next && (0 < here && next < 255 ==> here + 1 <= next <= here + 2)
        }),
{
}

/// Blue is told by the brightness and U alone, and rises with both.
pub proof fn blue_follows_u(y: u8, u: u8, v: u8, other_v: u8)
    ensures
        convert::yuv_pixel(y, u, v)[2] == convert::yuv_pixel(y, u, other_v)[2],
        u < 255 ==> ({
            let here = convert::yuv_pixel(y, u, v)[2];
            let next = convert::yuv_pixel(y, (u + 1) as u8, v)[2];
            here <= next && (0 < here && next < 255 ==> here + 2 <= next <= here + 3)
        }),
{
}

/// Green falls as either chroma sample rises.
pub proof fn green_falls_with_chroma(y: u8, u: u8, v: u8)
    ensures
        u < 255 ==> ({
            let here = convert::yuv_pixel(y, u, v)[1];
            let next = convert::yuv_pixel(y, (u + 1) as u8, v)[1];
            next <= here <= next + 1
        }),
        v < 255 ==> ({
            let here = convert::yuv_pixel(y, u, v)[1];
            let next = convert::yuv_pixel(y, u, (v + 1) as u8)[1];
            next <= here <= next + 1
        }),
        u < 253 ==> ({
            let here = convert::yuv_pixel(y, u, v)[1];
            let later = convert::yuv_pixel(y, (u + 3) as u8, v)[1];
            later < here || later == 0 || here == 255
        }),
        v < 254 ==> ({
            let here = convert::yuv_pixel(y, u, v)[1];
            let later = convert::yuv_pixel(y, u, (v + 2) as u8)[1];
            later < here || later == 0 || here == 255
        }),
{
}

/// Every channel rises with the brightness.
pub proof fn channels_rise_with_brightness(y: u8, u: u8, v: u8, channel: int)
    requires
        y < 255,
        0 <= channel < 3,
    ensures
        ({
            let here = convert::yuv_pixel(y, u, v)[channel];
            let next = convert::yuv_pixel((y + 1) as u8, u, v)[channel];
            here <= next && (0 < here && next < 255 ==> here + 1 <= next <= here + 2)
        }),
{
}

/// Whether a channel is the whole number nearest to a sum of 256ths, the greater one where two
/// are as near, and no less than 0 and no more than 255.
pub open spec fn is_nearest(channel: u8, sum: int) -> bool {
    &&& 0 < channel ==> 256 * channel <= sum + 128
    &&& channel < 255 ==> sum + 128 < 256 * (channel + 1)
}

/// A channel is the weighted sum of what the samples are above black and above gray, by the
/// video-range weights of Rec. 601 in 256ths, to the nearest whole number that fits.
pub proof fn channels_are_weighted_sums(y: u8, u: u8, v: u8)
    ensures
        is_nearest(convert::yuv_pixel(y, u, v)[0], 298 * (y - 16) + 409 * (v - 128)),
        is_nearest(
            convert::yuv_pixel(y, u, v)[1],
            298 * (y - 16) - 100 * (u - 128) - 208 * (v - 128),
        ),
        is_nearest(convert::yuv_pixel(y, u, v)[2], 298 * (y - 16) + 516 * (u - 128)),
{
}

/// Luma is the weighted mean of the channels, 299 parts of red, 587 of green and 114 of blue
/// out of a thousand, rounded down.
pub proof fn luma_is_the_weighted_mean(red: u8, green: u8, blue: u8)
    ensures
        1000 * convert::luma(red, green, blue) <= 299 * red + 587 * green + 114 * blue,
        299 * red + 587 * green + 114 * blue < 1000 * convert::luma(red, green, blue) + 1000,
{
}

/// Bytes between the starts of two rows: the stride, or the row itself where none is given.
pub open spec fn pitch(frame: FrameView) -> int {
    if frame.stride > 0 {
        frame.stride as int
    } else {
        frame.width * bytes_across(frame.pixel_format)
    }
}

/// Bytes that a pixel takes up across the primary plane.
pub open spec fn bytes_across(format: PixelFormat) -> int {
    match format {
        PixelFormat::Rgb8 => 3,
        PixelFormat::Rgba8 => 4,
        PixelFormat::Bgra8 => 4,
        PixelFormat::Yuyv => 2,
        _ => 1,
    }
}

/// Whether the planes of an uncompressed frame hold every pixel, up to the last stride where
/// `strides` is set. Pixels of a YUYV frame come in pairs.
pub open spec fn holds_pixels(frame: FrameView, strides: bool) -> bool {
    let row = frame.width * bytes_across(frame.pixel_format);
    let len = frame.plane_primary.len();
    &&& frame.pixel_format != PixelFormat::Mjpeg
    &&& row <= pitch(frame)
    &&& frame.pixel_format == PixelFormat::Yuyv ==> frame.width % 2 == 0
    &&& if frame.pixel_format == PixelFormat::Bgra8 || strides {
        frame.height * pitch(frame) <= len
    } else {
        frame.height > 0 ==> (frame.height - 1) * pitch(frame) + row <= len
    }
    &&& frame.pixel_format == PixelFormat::Rgb8 || frame.pixel_format == PixelFormat::Rgba8 ==> (
    pitch(frame) == row ==> len == frame.height * row)
    &&& frame.pixel_format == PixelFormat::Nv12 && frame.width > 0 && frame.height > 0 ==> ((
    frame.height - 1) / 2) * pitch(frame) + (frame.width - 1) / 2 * 2 + 2
        <= frame.plane_secondary.len()
}

/// The red, green and blue of pixel `col` of row `row`, read off the planes where that format
/// keeps them.
pub open spec fn color_at(frame: FrameView, row: int, col: int) -> Seq<u8> {
    let data = frame.plane_primary;
    let chroma = frame.plane_secondary;
    let start = row * pitch(frame);
    match frame.pixel_format {
        PixelFormat::Rgb8 => seq![
            data[start + 3 * col],
            data[start + 3 * col + 1],
            data[start + 3 * col + 2],
        ],
        PixelFormat::Rgba8 => seq![
            data[start + 4 * col],
            data[start + 4 * col + 1],
            data[start + 4 * col + 2],
        ],
        PixelFormat::Bgra8 => seq![
            data[start + 4 * col + 2],
            data[start + 4 * col + 1],
            data[start + 4 * col],
        ],
        PixelFormat::Yuyv => convert::yuv_pixel(
            data[start + 2 * col],
            data[start + col / 2 * 4 + 1],
            data[start + col / 2 * 4 + 3],
        ),
        _ => convert::yuv_pixel(
            data[start + col],
            chroma[row / 2 * pitch(frame) + col / 2 * 2],
            chroma[row / 2 * pitch(frame) + col / 2 * 2 + 1],
        ),
    }
}

proof fn pixels_are_rows(frame: FrameView, strides: bool)
    requires
        holds_pixels(frame, strides),
    ensures
        pixels::holds_rows(frame),
        pixels::row_bytes(frame) == frame.width * bytes_across(frame.pixel_format),
        pitch(frame) == convert::row_step(frame.stride, pixels::row_bytes(frame)),
{
    let row = pixels::row_bytes(frame);
    assert(row == frame.width * bytes_across(frame.pixel_format));
    if frame.height > 0 {
        mul::lemma_mul_is_distributive_sub_other_way(pitch(frame), frame.height as int, 1);
    }
}

/// The visible bytes of a row are those of the plane from the row's start on.
proof fn visible_bytes(frame: FrameView, row: int)
    requires
        pixels::holds_rows(frame),
        frame.pixel_format != PixelFormat::Nv12,
        0 <= row < frame.height,
    ensures
        ({
            let step = convert::row_step(frame.stride, pixels::row_bytes(frame));
            let window = pixels::visible_row(frame, row);
            &&& window.len() == pixels::row_bytes(frame)
            &&& forall|i: int|
                0 <= i < window.len() ==> #[trigger] window[i] == frame.plane_primary[row * step
                    + i]
        }),
{
    let step = convert::row_step(frame.stride, pixels::row_bytes(frame));
    pixels::visible_row_len(frame, row);
    tiling::row_inside(row, frame.height as int, step);
    mul::lemma_mul_inequality(row, frame.height - 1, step);
}

/// Byte `byte` of chunk `chunk` of a row of repacked rows of one width.
#[verifier::rlimit(40)]
proof fn repacked_byte(
    repack: Repack,
    frame: FrameView,
    count: int,
    row: int,
    chunk: int,
    byte: int,
)
    requires
        pixels::holds_rows(frame),
        frame.pixel_format != PixelFormat::Nv12,
        0 <= count,
        repack.chunk() == 1 ==> pixels::row_bytes(frame) == count,
        repack.chunk() == 3 ==> pixels::row_bytes(frame) == 3 * count,
        repack.chunk() == 4 ==> pixels::row_bytes(frame) == 4 * count,
        0 <= row < frame.height,
        0 <= chunk < count,
        0 <= byte < pixels::width_out(repack),
    ensures
        ({
            let size = pixels::width_out(repack) as int;
            tiling::joined(
                frame.height as nat,
                |row: int| repack.all(pixels::visible_row(frame, row)),
            )[row * (count * size) + (chunk * size + byte)] == repack.apply(
                pixels::visible_row(frame, row),
                chunk * repack.chunk(),
            )[byte]
        }),
{
    let size = pixels::width_out(repack);
    let rows = |row: int| repack.all(pixels::visible_row(frame, row));
    assert forall|i: int| 0 <= i < frame.height implies (#[trigger] rows(i)).len() == count
        * size by {
        repacked_row(repack, frame, count, i);
    }
    assert(0 <= count * size) by (nonlinear_arith)
        requires
            0 <= count,
            0 <= size,
    ;
    tiling::joined_uniform(frame.height as nat, rows, (count * size) as nat);
    repacked_row(repack, frame, count, row);
    let window = pixels::visible_row(frame, row);
    let inner = chunk * size + byte;
    tiling::row_inside(chunk, count, size as int);
    assert(repack.part(window)(chunk)[byte] == rows(row)[inner]);
    assert(rows(row)[inner] == tiling::joined(frame.height as nat, rows)[row * ((count * size) as nat)
        + inner]);
}

#[verifier::rlimit(40)]
proof fn repacked_row(repack: Repack, frame: FrameView, count: int, row: int)
    requires
        pixels::holds_rows(frame),
        frame.pixel_format != PixelFormat::Nv12,
        0 <= count,
        repack.chunk() == 1 ==> pixels::row_bytes(frame) == count,
        repack.chunk() == 3 ==> pixels::row_bytes(frame) == 3 * count,
        repack.chunk() == 4 ==> pixels::row_bytes(frame) == 4 * count,
        0 <= row < frame.height,
    ensures
        ({
            let window = pixels::visible_row(frame, row);
            let size = pixels::width_out(repack);
            &&& window.len() == pixels::row_bytes(frame)
            &&& repack.all(window) == tiling::joined(count as nat, repack.part(window))
            &&& repack.all(window).len() == count * size
            &&& forall|i: int, j: int|
                #![trigger repack.part(window)(i)[j]]
                0 <= i < count && 0 <= j < size ==> repack.all(window)[i * size + j]
                    == repack.part(window)(i)[j]
        }),
{
    let window = pixels::visible_row(frame, row);
    pixels::visible_row_len(frame, row);
    pixels::chunks_in(repack, count, window.len() as int);
    let size = pixels::width_out(repack);
    assert forall|i: int| 0 <= i < count implies (#[trigger] repack.part(window)(i)).len()
        == size by {}
    tiling::joined_uniform(count as nat, repack.part(window), size);
}

/// Every pixel stays in its place and keeps its color: the three bytes of pixel `col` of row
/// `row` of the RGB are the color that the frame's planes hold for it.
#[verifier::rlimit(40)]
pub proof fn pixels_stay_in_place(frame: FrameView, row: int, col: int, byte: int)
    requires
        holds_pixels(frame, false),
        0 <= row < frame.height,
        0 <= col < frame.width,
        0 <= byte < 3,
    ensures
        convert::rgb8(frame) matches Ok(rgb) && rgb[3 * (row * frame.width + col) + byte]
            == color_at(frame, row, col)[byte],
{
    pixels_are_rows(frame, false);
    let width = frame.width as int;
    let data = frame.plane_primary;
    let step = pitch(frame);
    assert(0 <= row * step) by (nonlinear_arith)
        requires
            0 <= row,
            0 <= step,
    ;
    let place = 3 * (row * width + col) + byte;
    if frame.pixel_format == PixelFormat::Nv12 {
        let chroma = frame.plane_secondary;
        let rows = convert::nv12_row(data, chroma, frame.width, step);
        let pixel = convert::nv12_pixel(data, chroma, step, row);
        assert forall|i: int| 0 <= i < frame.height implies (#[trigger] rows(i)).len() == width
            * 3 by {
            let across = convert::nv12_pixel(data, chroma, step, i);
            assert forall|j: int| 0 <= j < width implies (#[trigger] across(j)).len() == 3 by {}
            tiling::joined_uniform(width as nat, across, 3);
        }
        pixels::pixel_byte(rows, pixel, frame.width, frame.height, 3, row, col, byte);
        assert(pixel(col) == color_at(frame, row, col));
        assert((row * width + col) * 3 + byte == place);
    } else {
        let repack = match frame.pixel_format {
            PixelFormat::Rgb8 => Repack::Bytes,
            PixelFormat::Rgba8 => Repack::RgbaToRgb,
            PixelFormat::Yuyv => Repack::YuyvToRgb,
            _ => Repack::BgraToRgb,
        };
        pixels::rgb8_is_visible_rows(repack, frame);
        pixels::visible_row_len(frame, row);
        let window = pixels::visible_row(frame, row);
        visible_bytes(frame, row);
        if frame.pixel_format == PixelFormat::Rgb8 {
            repacked_byte(repack, frame, 3 * width, row, 3 * col + byte, 0);
            assert(row * ((3 * width) * 1) + ((3 * col + byte) * 1 + 0) == place) by (nonlinear_arith)
                requires
                    place == 3 * (row * width + col) + byte,
            ;
        } else if frame.pixel_format == PixelFormat::Yuyv {
            let pair = col / 2;
            let inner = 3 * (col % 2) + byte;
            repacked_byte(repack, frame, width / 2, row, pair, inner);
            assert(width / 2 * 6 == 3 * width);
            assert(pair * 6 + inner == 3 * col + byte);
            assert(row * (3 * width) + (3 * col + byte) == place) by (nonlinear_arith)
                requires
                    place == 3 * (row * width + col) + byte,
            ;
            assert(pair * 4 + 3 < window.len());
        } else {
            repacked_byte(repack, frame, width, row, col, byte);
            assert(row * (width * 3) + (col * 3 + byte) == place) by (nonlinear_arith)
                requires
                    place == 3 * (row * width + col) + byte,
            ;
        }
    }
}

/// With alpha, every pixel stays in its place, too: its color comes first, and then the alpha
/// that an RGBA frame has for it, or 0xFF.
#[verifier::rlimit(40)]
pub proof fn pixels_with_alpha_stay_in_place(frame: FrameView, row: int, col: int, byte: int)
    requires
        holds_pixels(frame, false),
        0 <= row < frame.height,
        0 <= col < frame.width,
        0 <= byte < 4,
    ensures
        convert::rgba8(frame) matches Ok(rgba) && rgba[4 * (row * frame.width + col) + byte]
            == if byte < 3 {
            color_at(frame, row, col)[byte]
        } else if frame.pixel_format == PixelFormat::Rgba8 {
            frame.plane_primary[row * pitch(frame) + 4 * col + 3]
        } else {
            0xFFu8
        },
{
    pixels_are_rows(frame, false);
    let width = frame.width as int;
    let data = frame.plane_primary;
    let step = pitch(frame);
    let place = 4 * (row * width + col) + byte;
    if frame.pixel_format == PixelFormat::Rgba8 || frame.pixel_format == PixelFormat::Bgra8 {
        let repack = if frame.pixel_format == PixelFormat::Rgba8 {
            Repack::Bytes
        } else {
            Repack::BgraToRgba
        };
        pixels::image_is_visible_rows(repack, frame);
        pixels::visible_row_len(frame, row);
        let window = pixels::visible_row(frame, row);
        assert(0 <= row * step) by (nonlinear_arith)
            requires
                0 <= row,
                0 <= step,
        ;
        visible_bytes(frame, row);
        if frame.pixel_format == PixelFormat::Rgba8 {
            repacked_byte(repack, frame, 4 * width, row, 4 * col + byte, 0);
            assert(row * ((4 * width) * 1) + ((4 * col + byte) * 1 + 0) == place) by (nonlinear_arith)
                requires
                    place == 4 * (row * width + col) + byte,
            ;
        } else {
            repacked_byte(repack, frame, width, row, col, byte);
            assert(row * (width * 4) + (col * 4 + byte) == place) by (nonlinear_arith)
                requires
                    place == 4 * (row * width + col) + byte,
            ;
        }
    } else {
        pixels::output_is_tightly_packed(frame);
        let rgb = convert::rgb8(frame)->Ok_0;
        let part = Repack::RgbToRgba.part(rgb);
        let count = frame.width * frame.height;
        let pixel = row * width + col;
        tiling::row_inside(row, frame.height as int, width);
        mul::lemma_mul_is_commutative(width, frame.height as int);
        assert(0 <= pixel < count);
        assert(rgb.len() as int / 3 == count);
        assert forall|i: int| 0 <= i < count implies (#[trigger] part(i)).len() == 4 by {}
        tiling::joined_uniform(count as nat, part, 4);
        assert(part(pixel)[byte] == tiling::joined(count as nat, part)[pixel * 4 + byte]);
        if byte < 3 {
            pixels_stay_in_place(frame, row, col, byte);
            assert(part(pixel)[byte] == rgb[pixel * 3 + byte]);
        }
    }
}

/// Luma is the brightness of each pixel in its place: the Y of a YUV frame as it came, and the
/// luma of the color of any other.
#[verifier::rlimit(40)]
pub proof fn luma_stays_in_place(frame: FrameView, row: int, col: int)
    requires
        holds_pixels(frame, frame.pixel_format == PixelFormat::Yuyv || frame.pixel_format
            == PixelFormat::Nv12),
        0 <= row < frame.height,
        0 <= col < frame.width,
    ensures
        convert::luma8(frame)[row * frame.width + col] == match frame.pixel_format {
            PixelFormat::Yuyv => frame.plane_primary[row * pitch(frame) + 2 * col],
            PixelFormat::Nv12 => frame.plane_primary[row * pitch(frame) + col],
            _ => convert::luma(
                color_at(frame, row, col)[0],
                color_at(frame, row, col)[1],
                color_at(frame, row, col)[2],
            ),
        },
{
    let subsampled = frame.pixel_format == PixelFormat::Yuyv || frame.pixel_format
        == PixelFormat::Nv12;
    pixels_are_rows(frame, subsampled);
    let width = frame.width as int;
    let data = frame.plane_primary;
    let step = pitch(frame);
    let repack = pixels::luma_repack(frame.pixel_format);
    pixels::luma_is_visible_rows(frame);
    tiling::row_inside(row, frame.height as int, step);
    let window = pixels::visible_row(frame, row);
    if frame.pixel_format == PixelFormat::Nv12 {
        let rows = |row: int| repack.all(pixels::visible_row(frame, row));
        assert forall|i: int| 0 <= i < frame.height implies (#[trigger] rows(i)).len() == width
            && rows(i) == pixels::visible_row(frame, i) by {
            tiling::row_inside(i, frame.height as int, step);
            pixels::bytes_unchanged(pixels::visible_row(frame, i));
        }
        tiling::joined_uniform(frame.height as nat, rows, width as nat);
        assert(rows(row)[col] == data[row * step + col]);
    } else {
        pixels::visible_row_len(frame, row);
        visible_bytes(frame, row);
        if frame.pixel_format == PixelFormat::Yuyv {
            let pair = col / 2;
            repacked_byte(repack, frame, width / 2, row, pair, col % 2);
            assert(width / 2 * 2 == width);
            assert(pair * 2 + col % 2 == col);
            assert(pair * 4 + 3 < window.len());
        } else {
            repacked_byte(repack, frame, width, row, col, 0);
            assert(row * (width * 1) + (col * 1 + 0) == row * width + col) by (nonlinear_arith);
        }
    }
}

/// Byte `byte` of chunk `chunk` of row `row` of rows that are all there.
#[verifier::rlimit(40)]
proof fn row_byte(
    repack: Repack,
    data: Seq<u8>,
    row_bytes: int,
    step: int,
    rows: nat,
    count: int,
    row: int,
    chunk: int,
    byte: int,
)
    requires
        0 <= step,
        0 <= count,
        repack.chunk() == 1 ==> row_bytes == count,
        repack.chunk() == 3 ==> row_bytes == 3 * count,
        repack.chunk() == 4 ==> row_bytes == 4 * count,
        forall|i: int| 0 <= i < rows ==> #[trigger] (i * step) + row_bytes <= data.len(),
        0 <= row < rows,
        0 <= chunk < count,
        0 <= byte < pixels::width_out(repack),
    ensures
        ({
            let size = pixels::width_out(repack) as int;
            tiling::joined(rows, repack.row(data, row_bytes, step))[row * (count * size) + (chunk
                * size + byte)] == repack.apply(
                convert::row_window(data, row, step, row_bytes),
                chunk * repack.chunk(),
            )[byte]
        }),
        convert::row_window(data, row, step, row_bytes) == data.subrange(
            row * step,
            row * step + row_bytes,
        ),
        0 <= row * step,
        row * step + row_bytes <= data.len(),
{
    let size = pixels::width_out(repack);
    let part = repack.row(data, row_bytes, step);
    assert forall|i: int| 0 <= i < rows implies (#[trigger] part(i)).len() == count * size
        && forall|c: int, b: int|
        0 <= c < count && 0 <= b < size ==> #[trigger] repack.part(
            convert::row_window(data, i, step, row_bytes),
        )(c)[b] == part(i)[c * size + b] by {
        assert(0 <= i * step) by (nonlinear_arith)
            requires
                0 <= i,
                0 <= step,
        ;
        let window = convert::row_window(data, i, step, row_bytes);
        assert(i * step + row_bytes <= data.len());
        assert(window.len() == row_bytes);
        pixels::chunks_in(repack, count, row_bytes);
        assert forall|c: int| 0 <= c < count implies (#[trigger] repack.part(window)(c)).len()
            == size by {}
        tiling::joined_uniform(count as nat, repack.part(window), size);
    }
    assert(0 <= count * size) by (nonlinear_arith)
        requires
            0 <= count,
            0 <= size,
    ;
    tiling::joined_uniform(rows, part, (count * size) as nat);
    tiling::row_inside(chunk, count, size as int);
    let inner = chunk * size + byte;
    assert(repack.part(convert::row_window(data, row, step, row_bytes))(chunk)[byte] == part(
        row,
    )[inner]);
    assert(part(row)[inner] == tiling::joined(rows, part)[row * ((count * size) as nat) + inner]);
    assert(row * step + row_bytes <= data.len());
    assert(0 <= row * step) by (nonlinear_arith)
        requires
            0 <= row,
            0 <= step,
    ;
}

/// Data that ends early still shows the rows that are there: of a BGRA frame every row with its
/// whole stride, and of an RGB or RGBA frame with padding every row with its own bytes.
#[verifier::rlimit(40)]
pub proof fn rows_that_are_there_are_shown(frame: FrameView, row: int, col: int, byte: int)
    requires
        frame.pixel_format == PixelFormat::Bgra8 || frame.pixel_format == PixelFormat::Rgb8
            || frame.pixel_format == PixelFormat::Rgba8,
        frame.width * bytes_across(frame.pixel_format) <= pitch(frame),
        frame.pixel_format != PixelFormat::Bgra8 ==> frame.width * bytes_across(frame.pixel_format)
            < frame.stride,
        row * pitch(frame) + (if frame.pixel_format == PixelFormat::Bgra8 {
            pitch(frame)
        } else {
            frame.width * bytes_across(frame.pixel_format)
        }) <= frame.plane_primary.len(),
        0 <= row < frame.height,
        0 <= col < frame.width,
        0 <= byte < 3,
    ensures
        convert::rgb8(frame) matches Ok(rgb) && rgb[3 * (row * frame.width + col) + byte]
            == color_at(frame, row, col)[byte],
{
    let data = frame.plane_primary;
    let width = frame.width as int;
    let row_bytes = pixels::row_bytes(frame);
    assert(row_bytes == width * bytes_across(frame.pixel_format));
    let step = pitch(frame);
    let place = 3 * (row * width + col) + byte;
    let rows = if frame.pixel_format == PixelFormat::Bgra8 {
        convert::rows_held(data.len(), step, frame.height)
    } else {
        convert::full_rows(data.len(), step, row_bytes, frame.height)
    };
    let room = if frame.pixel_format == PixelFormat::Bgra8 {
        data.len() as int
    } else {
        data.len() - row_bytes
    };
    div_mod::lemma_fundamental_div_mod(room, step);
    mul::lemma_mul_is_commutative(step, room / step);
    mul::lemma_mul_is_distributive_add_other_way(step, row, 1);
    if frame.pixel_format == PixelFormat::Bgra8 {
        div_mod::lemma_div_is_ordered((row + 1) * step, room, step);
        div_mod::lemma_div_by_multiple(row + 1, step);
    } else {
        div_mod::lemma_div_is_ordered(row * step, room, step);
        div_mod::lemma_div_by_multiple(row, step);
    }
    assert(row < rows);
    assert forall|i: int| 0 <= i < rows implies #[trigger] (i * step) + row_bytes <= data.len() by {
        if frame.pixel_format == PixelFormat::Bgra8 {
            mul::lemma_mul_inequality(i + 1, room / step, step);
            mul::lemma_mul_is_distributive_add_other_way(step, i, 1);
        } else {
            mul::lemma_mul_inequality(i, room / step, step);
        }
    }
    let window = convert::row_window(data, row, step, row_bytes);
    if frame.pixel_format == PixelFormat::Bgra8 {
        row_byte(Repack::BgraToRgb, data, row_bytes, step, rows, width, row, col, byte);
    } else if frame.pixel_format == PixelFormat::Rgba8 {
        row_byte(Repack::RgbaToRgb, data, row_bytes, step, rows, width, row, col, byte);
    } else {
        row_byte(Repack::Bytes, data, row_bytes, step, rows, 3 * width, row, 3 * col + byte, 0);
    }
    assert(row * (width * 3) + (col * 3 + byte) == place) by (nonlinear_arith)
        requires
            place == 3 * (row * width + col) + byte,
    ;
    assert(row * ((3 * width) * 1) + ((3 * col + byte) * 1 + 0) == place) by (nonlinear_arith)
        requires
            place == 3 * (row * width + col) + byte,
    ;
}

/// A YUYV row of an odd number of pixels shows its whole pairs, and its last pixel is left out.
#[verifier::rlimit(40)]
pub proof fn odd_pixels_are_left_out(frame: FrameView, row: int, col: int, byte: int)
    requires
        frame.pixel_format == PixelFormat::Yuyv,
        frame.width % 2 == 1,
        2 * frame.width <= pitch(frame),
        (frame.height - 1) * pitch(frame) + 2 * frame.width <= frame.plane_primary.len(),
        0 <= row < frame.height,
        0 <= col < frame.width - 1,
        0 <= byte < 3,
    ensures
        convert::rgb8(frame) matches Ok(rgb) && rgb.len() == frame.height * (3 * (frame.width - 1))
            && rgb[3 * (row * (frame.width - 1) + col) + byte] == color_at(frame, row, col)[byte],
{
    let step = pitch(frame);
    let pairs = frame.width as int / 2;
    let wide = frame.width - 1;
    let rows = Repack::YuyvToRgb.row(frame.plane_primary, 2 * frame.width, step);
    assert forall|i: int| 0 <= i < frame.height implies (#[trigger] rows(i)).len() == pairs * 6 by {
        odd_row(frame, i, 0, 0);
    }
    tiling::joined_uniform(frame.height as nat, rows, (pairs * 6) as nat);
    odd_row(frame, row, col, byte);
    assert(rows(row)[3 * col + byte] == tiling::joined(frame.height as nat, rows)[row * ((pairs * 6)
        as nat) + (3 * col + byte)]);
    assert(pairs * 6 == 3 * wide);
    assert(row * (3 * wide) + (3 * col + byte) == 3 * (row * wide + col) + byte) by (nonlinear_arith);
}

/// A row of an odd number of YUYV pixels, as pairs.
#[verifier::rlimit(40)]
proof fn odd_row_pairs(frame: FrameView, row: int)
    requires
        frame.width % 2 == 1,
        2 * frame.width <= pitch(frame),
        (frame.height - 1) * pitch(frame) + 2 * frame.width <= frame.plane_primary.len(),
        0 <= row < frame.height,
    ensures
        ({
            let step = pitch(frame);
            let window = convert::row_window(frame.plane_primary, row, step, 2 * frame.width);
            let shown = Repack::YuyvToRgb.all(window);
            &&& 0 <= row * step
            &&& row * step + 2 * frame.width <= frame.plane_primary.len()
            &&& window.len() == 2 * frame.width
            &&& shown.len() == frame.width as int / 2 * 6
            &&& forall|pair: int, inner: int|
                0 <= pair < frame.width as int / 2 && 0 <= inner < 6 ==> #[trigger] Repack::YuyvToRgb.part(
                    window,
                )(pair)[inner] == shown[pair * 6 + inner]
        }),
{
    let step = pitch(frame);
    let pairs = frame.width as int / 2;
    mul::lemma_mul_inequality(row, frame.height - 1, step);
    assert(0 <= row * step) by (nonlinear_arith)
        requires
            0 <= row,
            0 <= step,
    ;
    let window = convert::row_window(frame.plane_primary, row, step, 2 * frame.width);
    let part = Repack::YuyvToRgb.part(window);
    assert(window.len() == 2 * frame.width);
    assert(window.len() as int / 4 == pairs);
    assert forall|p: int| 0 <= p < pairs implies (#[trigger] part(p)).len() == 6 by {}
    tiling::joined_uniform(pairs as nat, part, 6);
}

/// A row of an odd number of YUYV pixels.
#[verifier::rlimit(40)]
proof fn odd_row(frame: FrameView, row: int, col: int, byte: int)
    requires
        frame.pixel_format == PixelFormat::Yuyv,
        frame.width % 2 == 1,
        2 * frame.width <= pitch(frame),
        (frame.height - 1) * pitch(frame) + 2 * frame.width <= frame.plane_primary.len(),
        0 <= row < frame.height,
        0 <= byte < 3,
    ensures
        ({
            let rows = Repack::YuyvToRgb.row(frame.plane_primary, 2 * frame.width, pitch(frame));
            &&& rows(row).len() == frame.width as int / 2 * 6
            &&& 0 <= col < frame.width - 1 ==> rows(row)[3 * col + byte] == color_at(
                frame,
                row,
                col,
            )[byte]
        }),
{
    let data = frame.plane_primary;
    let start = row * pitch(frame);
    let window = convert::row_window(data, row, pitch(frame), 2 * frame.width);
    odd_row_pairs(frame, row);
    if 0 <= col < frame.width - 1 {
        let pair = col / 2;
        let inner = 3 * (col % 2) + byte;
        assert(0 <= pair < frame.width as int / 2);
        let first = convert::yuv_pixel(
            window[pair * 4],
            window[pair * 4 + 1],
            window[pair * 4 + 3],
        );
        let second = convert::yuv_pixel(
            window[pair * 4 + 2],
            window[pair * 4 + 1],
            window[pair * 4 + 3],
        );
        assert(Repack::YuyvToRgb.part(window)(pair) == first + second);
        assert(window[pair * 4] == data[start + pair * 4]);
        assert(window[pair * 4 + 1] == data[start + pair * 4 + 1]);
        assert(window[pair * 4 + 2] == data[start + pair * 4 + 2]);
        assert(window[pair * 4 + 3] == data[start + pair * 4 + 3]);
        assert(pair * 6 + inner == 3 * col + byte);
        if col % 2 == 0 {
            assert(2 * col == pair * 4);
            assert(first == color_at(frame, row, col));
            assert((first + second)[inner] == first[byte]);
        } else {
            assert(2 * col == pair * 4 + 2);
            assert(second == color_at(frame, row, col));
            assert((first + second)[inner] == second[byte]);
        }
        assert(Repack::YuyvToRgb.part(window)(pair)[inner] == Repack::YuyvToRgb.all(window)[pair * 6
            + inner]);
    }
}

} // verus!

//! What holds of the pixel conversions as a whole.

use crate::convert;
use crate::convert::Repack;
use crate::decode;
use crate::tiling;
use crate::types::{FrameView, PixelFormat};
use vstd::arithmetic::{div_mod, mul};
use vstd::prelude::*;

verus! {

/// Number of bytes that a chunk becomes.
pub open spec fn width_out(repack: Repack) -> nat {
    match repack {
        Repack::Bytes => 1,
        Repack::RgbaToRgb => 3,
        Repack::RgbToRgba => 4,
        Repack::BgraToRgb => 3,
        Repack::BgraToRgba => 4,
        Repack::YuyvToRgb => 6,
        Repack::YuyvToLuma => 2,
        _ => 1,
    }
}

/// Number of bytes that one row of visible pixels takes up in the primary plane.
pub open spec fn row_bytes(frame: FrameView) -> int {
    match frame.pixel_format {
        PixelFormat::Rgb8 => 3 * frame.width,
        PixelFormat::Rgba8 => 4 * frame.width,
        PixelFormat::Bgra8 => 4 * frame.width,
        PixelFormat::Yuyv => 2 * frame.width,
        _ => frame.width as int,
    }
}

/// Whether the primary plane of an uncompressed frame holds every row: exactly, where the
/// rows of an RGB or RGBA frame follow each other without padding. A YUYV row holds whole
/// pixel pairs.
pub open spec fn holds_rows(frame: FrameView) -> bool {
    let step = convert::row_step(frame.stride, row_bytes(frame));
    let len = frame.plane_primary.len();
    match frame.pixel_format {
        PixelFormat::Mjpeg => false,
        PixelFormat::Nv12 => convert::complete(frame),
        PixelFormat::Yuyv => {
            &&& convert::complete(frame)
            &&& step >= row_bytes(frame)
            &&& frame.width % 2 == 0
        },
        PixelFormat::Bgra8 => step >= row_bytes(frame) && frame.height * step <= len,
        _ => if frame.stride > row_bytes(frame) {
            frame.height == 0 || (frame.height - 1) * step + row_bytes(frame) <= len
        } else {
            &&& frame.stride == 0 || frame.stride == row_bytes(frame)
            &&& len == frame.height * row_bytes(frame)
        },
    }
}

/// The visible bytes of row `row` of the primary plane.
pub open spec fn visible_row(frame: FrameView, row: int) -> Seq<u8> {
    convert::row_window(
        frame.plane_primary,
        row,
        convert::row_step(frame.stride, row_bytes(frame)),
        row_bytes(frame),
    )
}

/// Bytes that make up whole chunks hold that many.
pub(crate) proof fn chunks_in(repack: Repack, count: int, bytes: int)
    requires
        0 <= count,
        repack.chunk() == 1 ==> bytes == count,
        repack.chunk() == 3 ==> bytes == 3 * count,
        repack.chunk() == 4 ==> bytes == 4 * count,
    ensures
        bytes / repack.chunk() == count,
{
    let size = repack.chunk();
    assert(size == 1 || size == 3 || size == 4);
    assert(count * size == bytes) by (nonlinear_arith)
        requires
            size == 1 && bytes == count || size == 3 && bytes == 3 * count || size == 4 && bytes
                == 4 * count,
    ;
    div_mod::lemma_div_by_multiple(count, size);
}

/// Whole chunks and whole chunks make up whole chunks.
proof fn chunks_add_up(repack: Repack, front: int, back: int)
    requires
        front % repack.chunk() == 0,
        back % repack.chunk() == 0,
    ensures
        (front + back) % repack.chunk() == 0,
{
    let size = repack.chunk();
    assert(size == 1 || size == 3 || size == 4);
    div_mod::lemma_add_mod_noop(front, back, size);
    div_mod::lemma_small_mod(0, size as nat);
}

proof fn repacked_len(repack: Repack, data: Seq<u8>)
    ensures
        repack.all(data).len() == (data.len() as int / repack.chunk()) * width_out(repack),
{
    let count = (data.len() as int / repack.chunk()) as nat;
    assert forall|i: int| 0 <= i < count implies (#[trigger] repack.part(data)(i)).len()
        == width_out(repack) by {}
    tiling::joined_uniform(count, repack.part(data), width_out(repack));
}

/// Repacking a sequence of whole chunks and what follows it, one after the other.
proof fn repack_concat(repack: Repack, front: Seq<u8>, back: Seq<u8>)
    requires
        front.len() as int % repack.chunk() == 0,
    ensures
        repack.all(front + back) == repack.all(front) + repack.all(back),
{
    let size = repack.chunk();
    let both = front + back;
    let front_count = (front.len() as int / size) as nat;
    let back_count = (back.len() as int / size) as nat;
    div_mod::lemma_fundamental_div_mod(front.len() as int, size);
    div_mod::lemma_fundamental_div_mod(back.len() as int, size);
    let front_size = front_count as int;
    assert(front.len() == size * front_size);
    div_mod::lemma_hoist_over_denominator(back.len() as int, front_size, size as nat);
    assert(both.len() == back.len() + front_size * size) by (nonlinear_arith)
        requires
            both.len() == front.len() + back.len(),
            front.len() == size * front_size,
    ;
    assert(both.len() as int / size == front_count + back_count);
    tiling::joined_split(front_count, back_count, repack.part(both));
    assert forall|i: int| 0 <= i < front_count implies #[trigger] repack.part(both)(i)
        == repack.part(front)(i) by {
        tiling::row_inside(i, front_count as int, size);
        assert(front_count * size == front.len()) by (nonlinear_arith)
            requires
                front.len() == size * front_count,
        ;
        assert(repack.part(both)(i) =~= repack.part(front)(i));
    }
    tiling::joined_agree(front_count, repack.part(both), repack.part(front));
    let shifted = |i: int| repack.part(both)(front_count + i);
    assert forall|i: int| 0 <= i < back_count implies #[trigger] shifted(i) == repack.part(back)(
        i,
    ) by {
        tiling::row_inside(i, back_count as int, size);
        assert((front_count + i) * size == front.len() + i * size && back_count * size
            <= back.len()) by (nonlinear_arith)
            requires
                front.len() == size * front_count,
                back.len() == size * back_count + back.len() as int % size,
                0 <= back.len() as int % size,
        ;
        assert(shifted(i) =~= repack.part(back)(i));
    }
    tiling::joined_agree(back_count, shifted, repack.part(back));
}

/// Repacking parts made of whole chunks, one after the other.
proof fn repack_joined(repack: Repack, count: nat, part: spec_fn(int) -> Seq<u8>)
    requires
        forall|i: int| 0 <= i < count ==> (#[trigger] part(i)).len() as int % repack.chunk() == 0,
    ensures
        repack.all(tiling::joined(count, part)) == tiling::joined(
            count,
            |i: int| repack.all(part(i)),
        ),
        tiling::joined(count, part).len() as int % repack.chunk() == 0,
    decreases count,
{
    let repacked = |i: int| repack.all(part(i));
    if count == 0 {
        assert(repack.all(Seq::empty()) =~= Seq::empty());
        assert(tiling::joined(count, part) =~= Seq::empty());
        assert(tiling::joined(count, repacked) =~= Seq::empty());
        div_mod::lemma_small_mod(0, repack.chunk() as nat);
    } else {
        let before = (count - 1) as nat;
        repack_joined(repack, before, part);
        assert(part(before as int).len() as int % repack.chunk() == 0);
        repack_concat(repack, tiling::joined(before, part), part(before as int));
        chunks_add_up(
            repack,
            tiling::joined(before, part).len() as int,
            part(before as int).len() as int,
        );
        assert(repacked =~= |i: int| repack.all(part(i)));
        assert(repacked(before as int) == repack.all(part(before as int)));
    }
}

/// An image without padding is its rows, one after the other.
proof fn rows_rejoin(data: Seq<u8>, width: int, height: nat)
    requires
        0 <= width,
        height * width <= data.len(),
    ensures
        data.subrange(0, height * width) == tiling::joined(
            height,
            |row: int| convert::row_window(data, row, width, width),
        ),
    decreases height,
{
    let window = |row: int| convert::row_window(data, row, width, width);
    if height == 0 {
        assert(0 * width == 0) by (nonlinear_arith);
        assert(data.subrange(0, 0) =~= tiling::joined(0, window));
    } else {
        let before = (height - 1) as nat;
        mul::lemma_mul_is_distributive_add_other_way(width, before as int, 1);
        assert(0 <= before * width) by (nonlinear_arith)
            requires
                0 <= width,
        ;
        rows_rejoin(data, width, before);
        assert(window =~= |row: int| convert::row_window(data, row, width, width));
        assert(data.subrange(0, height * width) =~= data.subrange(0, before * width) + window(
            before as int,
        ));
    }
}

/// Every visible row of a frame that holds its rows is there in full.
pub(crate) proof fn visible_row_len(frame: FrameView, row: int)
    requires
        holds_rows(frame),
        frame.pixel_format != PixelFormat::Nv12,
        0 <= row < frame.height,
    ensures
        visible_row(frame, row).len() == row_bytes(frame),
{
    let step = convert::row_step(frame.stride, row_bytes(frame));
    tiling::row_inside(row, frame.height as int, step);
    mul::lemma_mul_inequality(row, frame.height - 1, step);
}

/// Repacking a frame, whether or not its rows are padded, repacks its visible rows in turn.
pub(crate) proof fn image_is_visible_rows(repack: Repack, frame: FrameView)
    requires
        holds_rows(frame),
        frame.pixel_format != PixelFormat::Nv12,
        frame.pixel_format != PixelFormat::Yuyv,
        row_bytes(frame) % repack.chunk() == 0,
    ensures
        ({
            let visible = tiling::joined(
                frame.height as nat,
                |row: int| repack.all(visible_row(frame, row)),
            );
            &&& frame.pixel_format == PixelFormat::Bgra8 ==> repack.rows(
                frame.plane_primary,
                row_bytes(frame),
                frame.height,
                frame.stride,
            ) == visible
            &&& frame.pixel_format != PixelFormat::Bgra8 ==> repack.image(
                frame.plane_primary,
                row_bytes(frame),
                frame.height,
                frame.stride,
            ) == visible
        }),
{
    let data = frame.plane_primary;
    let width = row_bytes(frame);
    let step = convert::row_step(frame.stride, width);
    let height = frame.height as nat;
    let rows = |row: int| repack.all(visible_row(frame, row));
    if frame.pixel_format != PixelFormat::Bgra8 && frame.stride > width {
        assert(rows =~= repack.row(data, width, step));
        if height > 0 {
            mul::lemma_mul_inequality(0, height - 1, step);
            div_mod::lemma_div_is_ordered((height - 1) * step, data.len() - width, step);
            div_mod::lemma_div_by_multiple(height - 1, step);
        }
        assert(convert::full_rows(data.len(), step, width, frame.height) == height);
    } else if frame.pixel_format == PixelFormat::Bgra8 {
        assert(rows =~= repack.row(data, width, step));
        if step == 0 {
            assert forall|row: int| 0 <= row < height implies #[trigger] rows(row) == Seq::<
                u8,
            >::empty() by {
                visible_row_len(frame, row);
                assert(rows(row) =~= Seq::<u8>::empty());
            }
            tiling::joined_uniform(height, rows, 0);
            assert(height * 0 == 0) by (nonlinear_arith);
            assert(tiling::joined(height, rows) =~= tiling::joined(0, repack.row(data, width, step)));
        } else {
            div_mod::lemma_div_is_ordered(height * step, data.len() as int, step);
            div_mod::lemma_div_by_multiple(height as int, step);
            assert(convert::rows_held(data.len(), step, frame.height) == height);
        }
    } else {
        rows_rejoin(data, width, height);
        let window = |row: int| convert::row_window(data, row, width, width);
        assert(data.subrange(0, height * width) =~= data);
        assert forall|row: int| 0 <= row < height implies (#[trigger] window(row)).len() as int
            % repack.chunk() == 0 by {
            visible_row_len(frame, row);
        }
        repack_joined(repack, height, window);
        assert(rows =~= |row: int| repack.all(window(row)));
    }
}

/// A frame's packed RGB is its visible rows, repacked one after the other.
pub(crate) proof fn rgb8_is_visible_rows(repack: Repack, frame: FrameView)
    requires
        holds_rows(frame),
        frame.pixel_format != PixelFormat::Nv12,
        repack == (match frame.pixel_format {
            PixelFormat::Rgb8 => Repack::Bytes,
            PixelFormat::Rgba8 => Repack::RgbaToRgb,
            PixelFormat::Yuyv => Repack::YuyvToRgb,
            _ => Repack::BgraToRgb,
        }),
    ensures
        convert::rgb8(frame) matches Ok(rgb) && rgb == tiling::joined(
            frame.height as nat,
            |row: int| repack.all(visible_row(frame, row)),
        ),
{
    if frame.pixel_format == PixelFormat::Yuyv {
        assert((|row: int| repack.all(visible_row(frame, row))) =~= repack.row(
            frame.plane_primary,
            row_bytes(frame),
            convert::row_step(frame.stride, row_bytes(frame)),
        ));
    } else {
        image_is_visible_rows(repack, frame);
    }
}

/// Neutral chroma is gray: a YUV pixel with both chroma samples at 128 has equal channels.
pub proof fn neutral_chroma_is_gray(y: u8)
    ensures
        convert::yuv_pixel(y, 128, 128)[0] == convert::yuv_pixel(y, 128, 128)[1],
        convert::yuv_pixel(y, 128, 128)[1] == convert::yuv_pixel(y, 128, 128)[2],
{
}

/// The luma of a gray pixel is its gray level.
pub proof fn gray_luma_is_its_level(level: u8)
    ensures
        convert::luma(level, level, level) == level,
{
}

/// Three bytes for each pixel of an NV12 image.
proof fn nv12_len(frame: FrameView)
    requires
        frame.pixel_format == PixelFormat::Nv12,
    ensures
        convert::rgb8(frame) matches Ok(rgb) && rgb.len() == frame.height * (3 * frame.width),
{
    let width = frame.width as int;
    let tight = (3 * width) as nat;
    let step = convert::row_step(frame.stride, width);
    let rows = convert::nv12_row(frame.plane_primary, frame.plane_secondary, frame.width, step);
    assert forall|row: int| 0 <= row < frame.height implies (#[trigger] rows(row)).len() == tight by {
        let pixel = convert::nv12_pixel(frame.plane_primary, frame.plane_secondary, step, row);
        assert forall|col: int| 0 <= col < width implies (#[trigger] pixel(col)).len() == 3 by {}
        tiling::joined_uniform(width as nat, pixel, 3);
    }
    tiling::joined_uniform(frame.height as nat, rows, tight);
}

/// Visible rows of one width, repacked.
proof fn visible_rows_len(repack: Repack, frame: FrameView)
    requires
        holds_rows(frame),
        frame.pixel_format != PixelFormat::Nv12,
    ensures
        tiling::joined(
            frame.height as nat,
            |row: int| repack.all(visible_row(frame, row)),
        ).len() == frame.height * ((row_bytes(frame) / repack.chunk()) * width_out(repack)),
{
    let rows = |row: int| repack.all(visible_row(frame, row));
    let width = ((row_bytes(frame) / repack.chunk()) * width_out(repack)) as nat;
    assert(0 <= (row_bytes(frame) / repack.chunk()) * width_out(repack)) by (nonlinear_arith)
        requires
            0 <= row_bytes(frame) / repack.chunk(),
    ;
    assert forall|row: int| 0 <= row < frame.height implies (#[trigger] rows(row)).len()
        == width by {
        visible_row_len(frame, row);
        repacked_len(repack, visible_row(frame, row));
    }
    tiling::joined_uniform(frame.height as nat, rows, width);
}

/// The output is tightly packed however padded the source was: three bytes for each pixel
/// of an uncompressed frame that holds its rows, and four with alpha.
pub proof fn output_is_tightly_packed(frame: FrameView)
    requires
        holds_rows(frame),
    ensures
        convert::rgb8(frame) matches Ok(rgb) && rgb.len() == 3 * (frame.width * frame.height),
        convert::rgba8(frame) matches Ok(rgba) && rgba.len() == 4 * (frame.width * frame.height),
{
    let pixels = frame.width * frame.height;
    assert(frame.height * (3 * frame.width) == 3 * pixels) by (nonlinear_arith)
        requires
            pixels == frame.width * frame.height,
    ;
    assert(frame.height * (4 * frame.width) == 4 * pixels) by (nonlinear_arith)
        requires
            pixels == frame.width * frame.height,
    ;
    if frame.pixel_format == PixelFormat::Nv12 {
        nv12_len(frame);
    } else {
        let repack = match frame.pixel_format {
            PixelFormat::Rgb8 => Repack::Bytes,
            PixelFormat::Rgba8 => Repack::RgbaToRgb,
            PixelFormat::Yuyv => Repack::YuyvToRgb,
            _ => Repack::BgraToRgb,
        };
        rgb8_is_visible_rows(repack, frame);
        visible_rows_len(repack, frame);
        match frame.pixel_format {
            PixelFormat::Rgb8 => {
                chunks_in(repack, 3 * frame.width, row_bytes(frame));
            },
            PixelFormat::Yuyv => {
                chunks_in(repack, frame.width as int / 2, row_bytes(frame));
            },
            _ => {
                chunks_in(repack, frame.width as int, row_bytes(frame));
            },
        }
        assert((row_bytes(frame) / repack.chunk()) * width_out(repack) == 3 * frame.width);
    }
    if frame.pixel_format == PixelFormat::Rgba8 || frame.pixel_format == PixelFormat::Bgra8 {
        let repack = if frame.pixel_format == PixelFormat::Rgba8 {
            Repack::Bytes
        } else {
            Repack::BgraToRgba
        };
        image_is_visible_rows(repack, frame);
        visible_rows_len(repack, frame);
        if frame.pixel_format == PixelFormat::Rgba8 {
            chunks_in(repack, 4 * frame.width, row_bytes(frame));
        } else {
            chunks_in(repack, frame.width as int, row_bytes(frame));
        }
        assert((row_bytes(frame) / repack.chunk()) * width_out(repack) == 4 * frame.width);
    } else {
        repacked_len(Repack::RgbToRgba, convert::rgb8(frame)->Ok_0);
    }
}

/// The visible bytes of row `row` of the chroma plane of an NV12 frame: a pair for each two
/// columns of pixels.
pub open spec fn chroma_row(frame: FrameView, row: int) -> Seq<u8> {
    convert::row_window(
        frame.plane_secondary,
        row,
        convert::row_step(frame.stride, row_bytes(frame)),
        2 * ((frame.width + 1) / 2),
    )
}

/// Whether two frames of one size show the same rows. An NV12 frame has a row of chroma for
/// each two rows of pixels.
pub open spec fn show_the_same(left: FrameView, right: FrameView) -> bool {
    &&& forall|row: int|
        0 <= row < left.height ==> visible_row(left, row) == #[trigger] visible_row(right, row)
    &&& left.pixel_format == PixelFormat::Nv12 ==> forall|row: int|
        0 <= row < (left.height + 1) / 2 ==> chroma_row(left, row) == #[trigger] chroma_row(
            right,
            row,
        )
}

/// A pixel of an NV12 frame is read from the visible bytes of its rows.
proof fn nv12_pixel_is_visible(frame: FrameView, row: int, col: int)
    requires
        frame.pixel_format == PixelFormat::Nv12,
        convert::complete(frame),
        0 <= row < frame.height,
        0 <= col < frame.width,
    ensures
        ({
            let step = convert::row_step(frame.stride, frame.width as int);
            &&& visible_row(frame, row).len() == frame.width
            &&& chroma_row(frame, row / 2).len() >= (col / 2) * 2 + 2
            &&& convert::nv12_pixel(frame.plane_primary, frame.plane_secondary, step, row)(col)
                == convert::yuv_pixel(
                visible_row(frame, row)[col],
                chroma_row(frame, row / 2)[(col / 2) * 2],
                chroma_row(frame, row / 2)[(col / 2) * 2 + 1],
            )
        }),
{
    let step = convert::row_step(frame.stride, frame.width as int);
    mul::lemma_mul_inequality(row, frame.height - 1, step);
    mul::lemma_mul_inequality(row / 2, (frame.height - 1) / 2, step);
    assert(0 <= row * step && 0 <= (row / 2) * step) by (nonlinear_arith)
        requires
            0 <= row,
            0 <= row / 2,
            0 <= step,
    ;
}

/// NV12 frames that show the same rows convert to the same RGB.
proof fn nv12_padding_is_ignored(left: FrameView, right: FrameView)
    requires
        left.pixel_format == PixelFormat::Nv12,
        right.pixel_format == PixelFormat::Nv12,
        convert::complete(left),
        convert::complete(right),
        left.width == right.width,
        left.height == right.height,
        show_the_same(left, right),
    ensures
        convert::rgb8(left) == convert::rgb8(right),
{
    let width = left.width;
    let left_step = convert::row_step(left.stride, width as int);
    let right_step = convert::row_step(right.stride, width as int);
    let left_rows = convert::nv12_row(left.plane_primary, left.plane_secondary, width, left_step);
    let right_rows = convert::nv12_row(
        right.plane_primary,
        right.plane_secondary,
        width,
        right_step,
    );
    assert forall|row: int| 0 <= row < left.height implies #[trigger] left_rows(row) == right_rows(
        row,
    ) by {
        let left_pixel = convert::nv12_pixel(
            left.plane_primary,
            left.plane_secondary,
            left_step,
            row,
        );
        let right_pixel = convert::nv12_pixel(
            right.plane_primary,
            right.plane_secondary,
            right_step,
            row,
        );
        assert forall|col: int| 0 <= col < width implies #[trigger] left_pixel(col) == right_pixel(
            col,
        ) by {
            nv12_pixel_is_visible(left, row, col);
            nv12_pixel_is_visible(right, row, col);
            assert(visible_row(left, row) == visible_row(right, row));
            assert(chroma_row(left, row / 2) == chroma_row(right, row / 2));
        }
        tiling::joined_agree(width as nat, left_pixel, right_pixel);
    }
    tiling::joined_agree(left.height as nat, left_rows, right_rows);
}

/// Padding is ignored: two frames of one format and size that show the same rows convert to
/// the same RGB, whatever their strides and whatever fills the gaps.
pub proof fn padding_is_ignored(left: FrameView, right: FrameView)
    requires
        holds_rows(left),
        holds_rows(right),
        left.pixel_format == right.pixel_format,
        left.width == right.width,
        left.height == right.height,
        show_the_same(left, right),
    ensures
        convert::rgb8(left) == convert::rgb8(right),
{
    if left.pixel_format == PixelFormat::Nv12 {
        nv12_padding_is_ignored(left, right);
    } else {
        let repack = match left.pixel_format {
            PixelFormat::Rgb8 => Repack::Bytes,
            PixelFormat::Rgba8 => Repack::RgbaToRgb,
            PixelFormat::Yuyv => Repack::YuyvToRgb,
            _ => Repack::BgraToRgb,
        };
        rgb8_is_visible_rows(repack, left);
        rgb8_is_visible_rows(repack, right);
        let left_rows = |row: int| repack.all(visible_row(left, row));
        let right_rows = |row: int| repack.all(visible_row(right, row));
        assert forall|row: int| 0 <= row < left.height implies #[trigger] left_rows(row)
            == right_rows(row) by {
            assert(visible_row(left, row) == visible_row(right, row));
        }
        tiling::joined_agree(left.height as nat, left_rows, right_rows);
    }
}

/// Whether the primary plane of an uncompressed frame holds every row for luma, which is read
/// off whole strides where the frame is not RGB or RGBA.
pub open spec fn holds_luma_rows(frame: FrameView) -> bool {
    let step = convert::row_step(frame.stride, row_bytes(frame));
    &&& holds_rows(frame)
    &&& frame.pixel_format == PixelFormat::Yuyv || frame.pixel_format == PixelFormat::Nv12
        ==> step >= row_bytes(frame) && frame.height * step <= frame.plane_primary.len()
}

/// How the visible bytes of a frame become luma.
pub open spec fn luma_repack(format: PixelFormat) -> Repack {
    match format {
        PixelFormat::Rgb8 => Repack::RgbToLuma,
        PixelFormat::Rgba8 => Repack::RgbaToLuma,
        PixelFormat::Bgra8 => Repack::BgraToLuma,
        PixelFormat::Yuyv => Repack::YuyvToLuma,
        _ => Repack::Bytes,
    }
}

/// A frame's luma is its visible rows, repacked one after the other.
pub(crate) proof fn luma_is_visible_rows(frame: FrameView)
    requires
        holds_luma_rows(frame),
    ensures
        convert::luma8(frame) == tiling::joined(
            frame.height as nat,
            |row: int| luma_repack(frame.pixel_format).all(visible_row(frame, row)),
        ),
{
    let repack = luma_repack(frame.pixel_format);
    let data = frame.plane_primary;
    let width = row_bytes(frame);
    let height = frame.height as nat;
    let step = convert::row_step(frame.stride, width);
    if frame.pixel_format == PixelFormat::Yuyv || frame.pixel_format == PixelFormat::Nv12 {
        let rows = |row: int| repack.all(visible_row(frame, row));
        assert(rows =~= repack.row(data, width, step));
        if step == 0 {
            assert forall|row: int| 0 <= row < height implies (#[trigger] rows(row)).len() == 0 by {
                repacked_len(repack, visible_row(frame, row));
            }
            tiling::joined_uniform(height, rows, 0);
            assert(height * 0 == 0) by (nonlinear_arith);
            assert(tiling::joined(height, rows) =~= tiling::joined(0, rows));
        } else {
            div_mod::lemma_div_is_ordered(height * step, data.len() as int, step);
            div_mod::lemma_div_by_multiple(height as int, step);
            assert(convert::rows_held(data.len(), step, frame.height) == height);
        }
    } else {
        image_is_visible_rows(repack, frame);
    }
}

/// Luma is the pixel grid: one byte for each pixel of an uncompressed frame that holds its
/// rows, however padded they are.
pub proof fn luma_is_one_byte_per_pixel(frame: FrameView)
    requires
        holds_luma_rows(frame),
    ensures
        convert::luma8(frame).len() == frame.width * frame.height,
{
    let repack = luma_repack(frame.pixel_format);
    let width = row_bytes(frame);
    let height = frame.height as nat;
    let step = convert::row_step(frame.stride, width);
    luma_is_visible_rows(frame);
    if frame.pixel_format == PixelFormat::Nv12 {
        let rows = |row: int| repack.all(visible_row(frame, row));
        assert forall|row: int| 0 <= row < height implies (#[trigger] rows(row)).len()
            == frame.width by {
            tiling::row_inside(row, height as int, step);
            repacked_len(repack, visible_row(frame, row));
        }
        tiling::joined_uniform(height, rows, frame.width as nat);
    } else {
        visible_rows_len(repack, frame);
        match frame.pixel_format {
            PixelFormat::Yuyv => {
                chunks_in(repack, frame.width as int / 2, width);
            },
            _ => {
                chunks_in(repack, frame.width as int, width);
            },
        }
        assert((width / repack.chunk()) * width_out(repack) == frame.width);
    }
    mul::lemma_mul_is_commutative(frame.width as int, frame.height as int);
}

/// Padding does not count towards luma: two frames of one format and size that show the same
/// rows have the same luma, and so the same sharpness.
pub proof fn luma_ignores_padding(left: FrameView, right: FrameView)
    requires
        holds_luma_rows(left),
        holds_luma_rows(right),
        left.pixel_format == right.pixel_format,
        left.width == right.width,
        left.height == right.height,
        show_the_same(left, right),
    ensures
        convert::luma8(left) == convert::luma8(right),
{
    let repack = luma_repack(left.pixel_format);
    luma_is_visible_rows(left);
    luma_is_visible_rows(right);
    let left_rows = |row: int| repack.all(visible_row(left, row));
    let right_rows = |row: int| repack.all(visible_row(right, row));
    assert forall|row: int| 0 <= row < left.height implies #[trigger] left_rows(row) == right_rows(
        row,
    ) by {
        assert(visible_row(left, row) == visible_row(right, row));
    }
    tiling::joined_agree(left.height as nat, left_rows, right_rows);
}

/// Byte `byte` of pixel `col` of row `row` of an image whose pixels are all `size` bytes.
pub(crate) proof fn pixel_byte(
    rows: spec_fn(int) -> Seq<u8>,
    pixels: spec_fn(int) -> Seq<u8>,
    width: u32,
    height: u32,
    size: nat,
    row: int,
    col: int,
    byte: int,
)
    requires
        0 <= row < height,
        0 <= col < width,
        0 <= byte < size,
        forall|i: int| 0 <= i < height ==> (#[trigger] rows(i)).len() == width * size,
        rows(row) == tiling::joined(width as nat, pixels),
        forall|j: int| 0 <= j < width ==> (#[trigger] pixels(j)).len() == size,
    ensures
        tiling::joined(height as nat, rows)[(row * width + col) * size + byte] == pixels(col)[byte],
{
    let inner = col * size + byte;
    tiling::joined_uniform(width as nat, pixels, size);
    tiling::joined_uniform(height as nat, rows, (width * size) as nat);
    tiling::row_inside(col, width as int, size as int);
    assert(pixels(col)[byte] == tiling::joined(width as nat, pixels)[inner]);
    assert(rows(row)[inner] == tiling::joined(height as nat, rows)[row * (width * size) + inner]);
    assert(row * (width * size) + inner == (row * width + col) * size + byte) by (nonlinear_arith)
        requires
            inner == col * size + byte,
    ;
}

/// The two conversions of NV12 planes agree pixel for pixel: BGRA has the channels of RGB in
/// the other order, and is opaque.
pub proof fn bgra_agrees_with_rgb(
    y_plane: Seq<u8>,
    uv_plane: Seq<u8>,
    width: u32,
    height: u32,
    stride: u32,
    place: int,
)
    requires
        0 <= place < width * height,
    ensures
        ({
            let rgb = convert::nv12_rgb(y_plane, uv_plane, width, height, stride);
            let bgra = decode::nv12_bgra(
                y_plane,
                uv_plane,
                width,
                height,
                convert::row_step(stride, width as int),
            );
            &&& bgra[4 * place] == rgb[3 * place + 2]
            &&& bgra[4 * place + 1] == rgb[3 * place + 1]
            &&& bgra[4 * place + 2] == rgb[3 * place]
            &&& bgra[4 * place + 3] == 0xFF
        }),
{
    let step = convert::row_step(stride, width as int);
    assert(width > 0 && height > 0) by (nonlinear_arith)
        requires
            0 <= place < width * height,
            0 <= width,
            0 <= height,
    ;
    let row = place / width as int;
    let col = place % width as int;
    div_mod::lemma_fundamental_div_mod(place, width as int);
    assert(row < height) by (nonlinear_arith)
        requires
            place < width * height,
            place == width * row + col,
            0 <= col,
            0 < width,
    ;
    div_mod::lemma_div_pos_is_pos(place, width as int);
    mul::lemma_mul_is_commutative(width as int, row);
    let rgb_rows = convert::nv12_row(y_plane, uv_plane, width, step);
    let bgra_rows = decode::bgra_row(y_plane, uv_plane, width, step);
    let rgb_pixels = convert::nv12_pixel(y_plane, uv_plane, step, row);
    let bgra_pixels = decode::bgra_pixel(y_plane, uv_plane, step, row);
    assert forall|i: int| 0 <= i < height implies (#[trigger] rgb_rows(i)).len() == width * 3 by {
        let pixels = convert::nv12_pixel(y_plane, uv_plane, step, i);
        assert forall|j: int| 0 <= j < width implies (#[trigger] pixels(j)).len() == 3 by {}
        tiling::joined_uniform(width as nat, pixels, 3);
    }
    assert forall|i: int| 0 <= i < height implies (#[trigger] bgra_rows(i)).len() == width * 4 by {
        let pixels = decode::bgra_pixel(y_plane, uv_plane, step, i);
        assert forall|j: int| 0 <= j < width implies (#[trigger] pixels(j)).len() == 4 by {}
        tiling::joined_uniform(width as nat, pixels, 4);
    }
    assert forall|byte: int| 0 <= byte < 3 implies convert::nv12_rgb(
        y_plane,
        uv_plane,
        width,
        height,
        stride,
    )[place * 3 + byte] == #[trigger] rgb_pixels(col)[byte] by {
        pixel_byte(rgb_rows, rgb_pixels, width, height, 3, row, col, byte);
    }
    assert forall|byte: int| 0 <= byte < 4 implies decode::nv12_bgra(
        y_plane,
        uv_plane,
        width,
        height,
        step,
    )[place * 4 + byte] == #[trigger] bgra_pixels(col)[byte] by {
        pixel_byte(bgra_rows, bgra_pixels, width, height, 4, row, col, byte);
    }
    assert(bgra_pixels(col)[0] == rgb_pixels(col)[2]);
    assert(bgra_pixels(col)[1] == rgb_pixels(col)[1]);
    assert(bgra_pixels(col)[2] == rgb_pixels(col)[0]);
    assert(bgra_pixels(col)[3] == 0xFF);
}

/// A decoder's NV12 sample converts to the same colors as a frame with the same planes does.
pub proof fn samples_convert_as_frames(
    sample: Seq<u8>,
    frame: FrameView,
    place: int,
)
    requires
        sample.len() >= decode::sample_size(frame.height, frame.stride),
        decode::sample_readable(frame.width, frame.height, frame.stride),
        frame.pixel_format == PixelFormat::Nv12,
        frame.plane_primary == sample.subrange(0, frame.stride * frame.height),
        frame.plane_secondary == sample.subrange(
            frame.stride * frame.height,
            decode::sample_size(frame.height, frame.stride),
        ),
        0 <= place < frame.width * frame.height,
    ensures
        convert::rgb8(frame) matches Ok(rgb) && {
            let bgra = decode::sample_bgra(sample, frame.width, frame.height, frame.stride);
            &&& bgra[4 * place] == rgb[3 * place + 2]
            &&& bgra[4 * place + 1] == rgb[3 * place + 1]
            &&& bgra[4 * place + 2] == rgb[3 * place]
            &&& bgra[4 * place + 3] == 0xFF
        },
{
    assert(frame.width > 0 && frame.height > 0) by (nonlinear_arith)
        requires
            0 <= place < frame.width * frame.height,
            0 <= frame.width,
            0 <= frame.height,
    ;
    bgra_agrees_with_rgb(
        frame.plane_primary,
        frame.plane_secondary,
        frame.width,
        frame.height,
        frame.stride,
        place,
    );
}

proof fn opaque_rows(repack: Repack, data: Seq<u8>)
    requires
        repack == Repack::BgraToRgba || repack == Repack::RgbToRgba,
    ensures
        repack.all(data).len() % 4 == 0,
        forall|i: int| 0 <= i && 4 * i < repack.all(data).len() ==> #[trigger] repack.all(data)[4 * i
            + 3] == 0xFF,
{
    let count = (data.len() as int / repack.chunk()) as nat;
    assert forall|i: int| 0 <= i < count implies (#[trigger] repack.part(data)(i)).len() == 4 by {}
    tiling::joined_uniform(count, repack.part(data), 4);
    assert forall|i: int| 0 <= i && 4 * i < repack.all(data).len() implies #[trigger] repack.all(
        data,
    )[4 * i + 3] == 0xFF by {
        assert(repack.part(data)(i)[3] == 0xFF);
        assert(i * 4 + 3 == 4 * i + 3);
    }
}

proof fn joined_opaque(count: nat, part: spec_fn(int) -> Seq<u8>)
    requires
        forall|i: int| 0 <= i < count ==> (#[trigger] part(i)).len() % 4 == 0,
        forall|i: int, j: int|
            0 <= i < count && 0 <= j && 4 * j < part(i).len() ==> #[trigger] part(i)[4 * j + 3]
                == 0xFF,
    ensures
        tiling::joined(count, part).len() % 4 == 0,
        forall|j: int|
            0 <= j && 4 * j < tiling::joined(count, part).len() ==> #[trigger] tiling::joined(
                count,
                part,
            )[4 * j + 3] == 0xFF,
    decreases count,
{
    if count > 0 {
        let before = (count - 1) as nat;
        joined_opaque(before, part);
        let front = tiling::joined(before, part);
        let back = part(before as int);
        assert(back.len() % 4 == 0);
        assert forall|j: int| 0 <= j && 4 * j < (front + back).len() implies #[trigger] (front
            + back)[4 * j + 3] == 0xFF by {
            if 4 * j < front.len() {
                assert(front[4 * j + 3] == 0xFF);
            } else {
                let k = j - front.len() as int / 4;
                assert(part(before as int)[4 * k + 3] == 0xFF);
            }
        }
    }
}

/// Converted frames are opaque: every alpha byte is 0xFF, unless the frame came with an
/// alpha channel of its own (RGBA8).
pub proof fn alpha_is_opaque(frame: FrameView)
    requires
        frame.pixel_format != PixelFormat::Rgba8,
    ensures
        convert::rgba8(frame) matches Ok(rgba) ==> rgba.len() % 4 == 0 && forall|i: int|
            0 <= i && 4 * i < rgba.len() ==> #[trigger] rgba[4 * i + 3] == 0xFF,
{
    if frame.pixel_format == PixelFormat::Bgra8 {
        let data = frame.plane_primary;
        let step = convert::row_step(frame.stride, 4 * frame.width);
        let rows = Repack::BgraToRgba.row(data, 4 * frame.width, step);
        let count = convert::rows_held(data.len(), step, frame.height);
        assert forall|i: int| 0 <= i < count implies (#[trigger] rows(i)).len() % 4 == 0 by {
            opaque_rows(
                Repack::BgraToRgba,
                convert::row_window(data, i, step, 4 * frame.width),
            );
        }
        assert forall|i: int, j: int|
            0 <= i < count && 0 <= j && 4 * j < rows(i).len() implies #[trigger] rows(i)[4 * j + 3]
            == 0xFF by {
            opaque_rows(
                Repack::BgraToRgba,
                convert::row_window(data, i, step, 4 * frame.width),
            );
        }
        joined_opaque(count, rows);
    } else if let Ok(rgb) = convert::rgb8(frame) {
        opaque_rows(Repack::RgbToRgba, rgb);
    }
}

/// Repacking with alpha and then dropping the alpha is repacking without it.
proof fn drop_after_add(data: Seq<u8>)
    ensures
        Repack::RgbaToRgb.all(Repack::BgraToRgba.all(data)) == Repack::BgraToRgb.all(data),
        Repack::BgraToRgba.all(data).len() % 4 == 0,
{
    let (with_alpha, without) = (Repack::BgraToRgba, Repack::BgraToRgb);
    let count = (data.len() as int / 4) as nat;
    let part = with_alpha.part(data);
    assert forall|i: int| 0 <= i < count implies (#[trigger] part(i)).len() as int % 4 == 0 by {}
    repack_joined(Repack::RgbaToRgb, count, part);
    let dropped = |i: int| Repack::RgbaToRgb.all(part(i));
    assert forall|i: int| 0 <= i < count implies #[trigger] dropped(i) == without.part(data)(i) by {
        drop_one(part(i));
        assert(dropped(i) =~= without.part(data)(i));
    }
    tiling::joined_agree(count, dropped, without.part(data));
}

/// Dropping the alpha of a single pixel.
proof fn drop_one(pixel: Seq<u8>)
    requires
        pixel.len() == 4,
    ensures
        Repack::RgbaToRgb.all(pixel) == seq![pixel[0], pixel[1], pixel[2]],
{
    let part = Repack::RgbaToRgb.part(pixel);
    assert(tiling::joined(1, part) == tiling::joined(0, part) + part(0));
    assert(Repack::RgbaToRgb.all(pixel) =~= seq![pixel[0], pixel[1], pixel[2]]);
}

/// Adding alpha to packed RGB and dropping it again changes nothing.
pub proof fn alpha_added_then_dropped(rgb: Seq<u8>)
    requires
        rgb.len() % 3 == 0,
    ensures
        Repack::RgbaToRgb.all(Repack::RgbToRgba.all(rgb)) == rgb,
{
    let count = (rgb.len() / 3) as nat;
    let part = Repack::RgbToRgba.part(rgb);
    assert forall|i: int| 0 <= i < count implies (#[trigger] part(i)).len() as int % 4 == 0 by {}
    repack_joined(Repack::RgbaToRgb, count, part);
    let dropped = |i: int| Repack::RgbaToRgb.all(part(i));
    assert forall|i: int| 0 <= i < count implies (#[trigger] dropped(i)).len() == 3 && dropped(i)
        == seq![rgb[3 * i], rgb[3 * i + 1], rgb[3 * i + 2]] by {
        drop_one(part(i));
    }
    tiling::joined_uniform(count, dropped, 3);
    let back = tiling::joined(count, dropped);
    assert forall|k: int| 0 <= k < rgb.len() implies back[k] == rgb[k] by {
        let i = k / 3;
        let j = k % 3;
        assert(dropped(i)[j] == rgb[3 * i + j]);
        assert(i * 3 + j == k);
    }
    assert(back =~= rgb);
}

/// Dropping the alpha of a frame's RGBA gives its RGB, for every format. The RGB8 frame
/// holds whole pixels; so does what a JPEG decodes to.
pub proof fn rgba_without_alpha_is_rgb(frame: FrameView)
    requires
        convert::complete(frame),
        frame.pixel_format == PixelFormat::Rgb8 || frame.pixel_format == PixelFormat::Mjpeg
            ==> (convert::rgb8(frame) matches Ok(rgb) ==> rgb.len() % 3 == 0),
    ensures
        convert::rgba8(frame) matches Ok(rgba) ==> convert::rgb8(frame) matches Ok(rgb)
            && Repack::RgbaToRgb.all(rgba) == rgb,
{
    let data = frame.plane_primary;
    if frame.pixel_format == PixelFormat::Bgra8 {
        let step = convert::row_step(frame.stride, 4 * frame.width);
        let count = convert::rows_held(data.len(), step, frame.height);
        let with_alpha = Repack::BgraToRgba.row(data, 4 * frame.width, step);
        let without = Repack::BgraToRgb.row(data, 4 * frame.width, step);
        assert forall|i: int| 0 <= i < count implies (#[trigger] with_alpha(i)).len() as int % 4
            == 0 by {
            drop_after_add(convert::row_window(data, i, step, 4 * frame.width));
        }
        repack_joined(Repack::RgbaToRgb, count, with_alpha);
        let dropped = |i: int| Repack::RgbaToRgb.all(with_alpha(i));
        assert forall|i: int| 0 <= i < count implies #[trigger] dropped(i) == without(i) by {
            drop_after_add(convert::row_window(data, i, step, 4 * frame.width));
        }
        tiling::joined_agree(count, dropped, without);
    } else if frame.pixel_format == PixelFormat::Rgba8 {
        bytes_unchanged(data);
        if frame.stride > row_bytes(frame) {
            let (width, step) = (row_bytes(frame), frame.stride as int);
            let count = convert::full_rows(data.len(), step, width, frame.height);
            let copied = Repack::Bytes.row(data, width, step);
            let rgb_rows = Repack::RgbaToRgb.row(data, width, step);
            assert forall|row: int| 0 <= row < count implies (#[trigger] copied(row)).len() as int
                % 4 == 0 by {
                full_row_len(data, width, step, frame.height, row);
                bytes_unchanged(convert::row_window(data, row, step, width));
            }
            repack_joined(Repack::RgbaToRgb, count, copied);
            let dropped = |row: int| Repack::RgbaToRgb.all(copied(row));
            assert forall|row: int| 0 <= row < count implies #[trigger] dropped(row) == rgb_rows(
                row,
            ) by {
                bytes_unchanged(convert::row_window(data, row, step, width));
            }
            tiling::joined_agree(count, dropped, rgb_rows);
        }
    } else if let Ok(rgb) = convert::rgb8(frame) {
        if frame.pixel_format == PixelFormat::Nv12 {
            nv12_whole_pixels(frame);
        } else if frame.pixel_format == PixelFormat::Yuyv {
            yuyv_whole_pixels(frame);
        }
        alpha_added_then_dropped(rgb);
    }
}

/// A row that counts as full is there in full.
proof fn full_row_len(data: Seq<u8>, width: int, step: int, height: u32, row: int)
    requires
        0 <= width,
        0 < step,
        0 <= row < convert::full_rows(data.len(), step, width, height),
    ensures
        convert::row_window(data, row, step, width).len() == width,
{
    let room = data.len() - width;
    div_mod::lemma_fundamental_div_mod(room, step);
    mul::lemma_mul_inequality(row, room / step, step);
    mul::lemma_mul_is_commutative(step, room / step);
    assert(0 <= row * step) by (nonlinear_arith)
        requires
            0 <= row,
            0 < step,
    ;
}

/// Taking bytes over one by one changes nothing.
pub(crate) proof fn bytes_unchanged(data: Seq<u8>)
    ensures
        Repack::Bytes.all(data) == data,
{
    let part = Repack::Bytes.part(data);
    assert forall|i: int| 0 <= i < data.len() implies (#[trigger] part(i)).len() == 1 by {}
    tiling::joined_uniform(data.len(), part, 1);
    assert forall|i: int| 0 <= i < data.len() implies tiling::joined(data.len(), part)[i]
        == data[i] by {
        assert(part(i)[0] == data[i]);
        assert(i * 1 + 0 == i);
    }
    assert(Repack::Bytes.all(data) =~= data);
}

proof fn nv12_whole_pixels(frame: FrameView)
    requires
        frame.pixel_format == PixelFormat::Nv12,
        convert::complete(frame),
    ensures
        convert::rgb8(frame) matches Ok(rgb) && rgb.len() % 3 == 0,
{
    output_is_tightly_packed(frame);
}

proof fn yuyv_whole_pixels(frame: FrameView)
    requires
        frame.pixel_format == PixelFormat::Yuyv,
    ensures
        convert::rgb8(frame) matches Ok(rgb) && rgb.len() % 3 == 0,
{
    let data = frame.plane_primary;
    let step = convert::row_step(frame.stride, 2 * frame.width);
    let rows = Repack::YuyvToRgb.row(data, 2 * frame.width, step);
    assert forall|row: int| 0 <= row < frame.height implies (#[trigger] rows(row)).len() % 3
        == 0 by {
        let window = convert::row_window(data, row, step, 2 * frame.width);
        repacked_len(Repack::YuyvToRgb, window);
        let pairs = window.len() as int / 4;
        assert(rows(row).len() == pairs * 6);
    }
    thirds_joined(frame.height as nat, rows);
}

/// Parts made of whole pixels join to whole pixels.
proof fn thirds_joined(count: nat, rows: spec_fn(int) -> Seq<u8>)
    requires
        forall|i: int| 0 <= i < count ==> (#[trigger] rows(i)).len() % 3 == 0,
    ensures
        tiling::joined(count, rows).len() % 3 == 0,
    decreases count,
{
    if count > 0 {
        let before = (count - 1) as nat;
        thirds_joined(before, rows);
        assert(rows(before as int).len() % 3 == 0);
        assert(tiling::joined(count, rows).len() == tiling::joined(before, rows).len() + rows(
            before as int,
        ).len());
    }
}

} // verus!

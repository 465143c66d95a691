//! What holds of the sharpness measures and of the frame ring.

use crate::analysis;
use crate::analysis::Moments;
use crate::tiling;
use crate::types::{Frame, Rect};
use vstd::arithmetic::{div_mod, mul};
use vstd::prelude::*;

verus! {

/// A flat image has no Laplacian response anywhere, so both of its sums are zero.
pub proof fn flat_image_has_no_response(luma: Seq<u8>, width: int, height: int, level: u8)
    requires
        forall|i: int| 0 <= i < luma.len() ==> luma[i] == level,
    ensures
        analysis::moments(luma, width, height).sum == 0,
        analysis::moments(luma, width, height).sum_squared == 0,
{
    if width >= 3 && height >= 3 && luma.len() >= width * height {
        assert forall|row: int| 0 <= row < height implies #[trigger] analysis::row_sums(
            luma,
            width,
            height,
        )(row) == 0 && analysis::row_square_sums(luma, width, height)(row) == 0 by {
            assert forall|col: int| 0 <= col < width implies #[trigger] analysis::responses(
                luma,
                width,
                height,
                row,
            )(col) == 0 && analysis::squares(luma, width, height, row)(col) == 0 by {
                neighbors_inside(row, col, width, height);
                let value = analysis::response(luma, width, height, row, col);
                assert(value * value == 0) by (nonlinear_arith)
                    requires
                        value == 0,
                ;
            }
            assert forall|col: int| 0 <= col < width implies #[trigger] analysis::squares(
                luma,
                width,
                height,
                row,
            )(col) == 0 by {
                assert(analysis::responses(luma, width, height, row)(col) == 0);
            }
            tiling::total_of_zeros(width as nat, analysis::responses(luma, width, height, row));
            tiling::total_of_zeros(width as nat, analysis::squares(luma, width, height, row));
        }
        assert forall|row: int| 0 <= row < height implies #[trigger] analysis::row_square_sums(
            luma,
            width,
            height,
        )(row) == 0 by {
            assert(analysis::row_sums(luma, width, height)(row) == 0);
        }
        tiling::total_of_zeros(height as nat, analysis::row_sums(luma, width, height));
        tiling::total_of_zeros(height as nat, analysis::row_square_sums(luma, width, height));
    }
}

/// A pixel and its four neighbors lie inside the image.
proof fn neighbors_inside(row: int, col: int, width: int, height: int)
    requires
        0 <= row < height,
        0 <= col < width,
    ensures
        0 <= row * width + col < width * height,
        0 <= analysis::before(row) * width + col < width * height,
        0 <= analysis::after(row, height) * width + col < width * height,
        0 <= row * width + analysis::before(col) < width * height,
        0 <= row * width + analysis::after(col, width) < width * height,
{
    mul::lemma_mul_is_commutative(width, height);
    tiling::row_inside(row, height, width);
    tiling::row_inside(analysis::before(row), height, width);
    tiling::row_inside(analysis::after(row, height), height, width);
}

/// A stride of 0 or 1 measures exactly what the full measure does.
pub proof fn small_strides_measure_everything(luma: Seq<u8>, width: int, stride: int)
    requires
        0 <= stride <= 1,
    ensures
        analysis::sampled_moments(luma, width, stride) == analysis::image_moments(luma, width),
{
}

/// A region with no width or no height, or one that starts outside the frame, measures
/// nothing.
pub proof fn empty_region_measures_nothing(luma: Seq<u8>, width: int, region: Rect)
    requires
        0 <= width,
        region.width == 0 || region.height == 0 || region.x >= width || (width > 0 && region.y
            >= luma.len() as int / width),
    ensures
        analysis::region_moments(luma, width, region) == (Moments {
            sum: 0,
            sum_squared: 0,
            count: 0,
        }),
{
}

/// The measure reads no further than the image's own pixels.
proof fn moments_of_prefix(luma: Seq<u8>, prefix: Seq<u8>, width: int, height: int)
    requires
        0 <= width,
        0 <= height,
        width * height <= luma.len(),
        prefix == luma.subrange(0, width * height),
    ensures
        analysis::moments(luma, width, height) == analysis::moments(prefix, width, height),
{
    assert(0 <= width * height) by (nonlinear_arith)
        requires
            0 <= width,
            0 <= height,
    ;
    if width >= 3 && height >= 3 {
        assert forall|row: int| 0 <= row < height implies #[trigger] analysis::row_sums(
            luma,
            width,
            height,
        )(row) == analysis::row_sums(prefix, width, height)(row) by {
            assert forall|col: int| 0 <= col < width implies #[trigger] analysis::responses(
                luma,
                width,
                height,
                row,
            )(col) == analysis::responses(prefix, width, height, row)(col) by {
                neighbors_inside(row, col, width, height);
            }
            tiling::total_agree(
                width as nat,
                analysis::responses(luma, width, height, row),
                analysis::responses(prefix, width, height, row),
            );
        }
        assert forall|row: int| 0 <= row < height implies #[trigger] analysis::row_square_sums(
            luma,
            width,
            height,
        )(row) == analysis::row_square_sums(prefix, width, height)(row) by {
            assert forall|col: int| 0 <= col < width implies #[trigger] analysis::squares(
                luma,
                width,
                height,
                row,
            )(col) == analysis::squares(prefix, width, height, row)(col) by {
                neighbors_inside(row, col, width, height);
            }
            tiling::total_agree(
                width as nat,
                analysis::squares(luma, width, height, row),
                analysis::squares(prefix, width, height, row),
            );
        }
        tiling::total_agree(
            height as nat,
            analysis::row_sums(luma, width, height),
            analysis::row_sums(prefix, width, height),
        );
        tiling::total_agree(
            height as nat,
            analysis::row_square_sums(luma, width, height),
            analysis::row_square_sums(prefix, width, height),
        );
    }
}

/// Rows taken whole are the image itself.
proof fn whole_rows(luma: Seq<u8>, width: int, height: nat)
    requires
        0 <= width,
        height * width <= luma.len(),
    ensures
        tiling::joined(height, analysis::cropped_row(luma, width, 0, 0, width)) == luma.subrange(
            0,
            height * width,
        ),
    decreases height,
{
    let part = analysis::cropped_row(luma, width, 0, 0, width);
    if height == 0 {
        assert(0 * width == 0) by (nonlinear_arith);
        assert(tiling::joined(0, part) =~= luma.subrange(0, 0));
    } else {
        let shorter = (height - 1) as nat;
        mul::lemma_mul_is_distributive_add_other_way(width, shorter as int, 1);
        assert(0 <= shorter * width) by (nonlinear_arith)
            requires
                0 <= width,
        ;
        whole_rows(luma, width, shorter);
        assert(luma.subrange(0, height * width) =~= luma.subrange(0, shorter * width) + part(
            shorter as int,
        ));
    }
}

/// A region that covers the whole frame measures exactly what the full measure does.
pub proof fn full_region_measures_everything(luma: Seq<u8>, width: int, region: Rect)
    requires
        0 <= width,
        region.x == 0,
        region.y == 0,
        region.width >= width,
        width > 0 ==> region.height >= luma.len() as int / width,
    ensures
        analysis::region_moments(luma, width, region) == analysis::image_moments(luma, width),
{
    if width > 0 {
        let height = luma.len() as int / width;
        div_mod::lemma_fundamental_div_mod(luma.len() as int, width);
        mul::lemma_mul_is_commutative(width, height);
        if height > 0 {
            whole_rows(luma, width, height as nat);
            moments_of_prefix(luma, luma.subrange(0, width * height), width, height);
        }
    }
}

/// The part of a region that lies inside a frame. It has no width or no height where the region
/// lies outside.
pub open spec fn clipped(region: Rect, width: int, height: int) -> Rect {
    let left = analysis::capped(region.x as int, width);
    let top = analysis::capped(region.y as int, height);
    let right = analysis::capped(region.x + region.width, width);
    let bottom = analysis::capped(region.y + region.height, height);
    Rect {
        x: left as u32,
        y: top as u32,
        width: (right - left) as u32,
        height: (bottom - top) as u32,
    }
}

/// A region measures exactly what its part inside the frame does.
pub proof fn regions_are_clipped(luma: Seq<u8>, width: int, region: Rect)
    requires
        0 < width,
    ensures
        analysis::region_moments(luma, width, region) == analysis::region_moments(
            luma,
            width,
            clipped(region, width, luma.len() as int / width),
        ),
{
    let height = luma.len() as int / width;
    div_mod::lemma_div_pos_is_pos(luma.len() as int, width);
    let part = clipped(region, width, height);
    assert(analysis::capped(part.x as int, width) == analysis::capped(region.x as int, width));
    assert(analysis::capped(part.y as int, height) == analysis::capped(region.y as int, height));
    assert(analysis::capped(part.x + part.width, width) == analysis::capped(
        region.x + region.width,
        width,
    ));
    assert(analysis::capped(part.y + part.height, height) == analysis::capped(
        region.y + region.height,
        height,
    ));
}

/// A region of which fewer than three columns or rows lie inside the frame measures nothing.
pub proof fn small_region_measures_nothing(luma: Seq<u8>, width: int, region: Rect)
    requires
        0 < width,
        ({
            let part = clipped(region, width, luma.len() as int / width);
            part.width < 3 || part.height < 3
        }),
    ensures
        analysis::region_moments(luma, width, region) == (Moments {
            sum: 0,
            sum_squared: 0,
            count: 0,
        }),
{
    div_mod::lemma_div_pos_is_pos(luma.len() as int, width);
}

/// Pixels outside a region do not matter: two images of one size that agree inside the region
/// measure the same there.
pub proof fn outside_pixels_do_not_matter(
    left: Seq<u8>,
    right: Seq<u8>,
    width: int,
    region: Rect,
)
    requires
        0 < width,
        left.len() == right.len(),
        forall|row: int, col: int|
            region.y <= row < region.y + region.height && row < left.len() as int / width
                && region.x <= col < region.x + region.width && col < width ==> #[trigger] left[row
                * width + col] == right[row * width + col],
    ensures
        analysis::region_moments(left, width, region) == analysis::region_moments(
            right,
            width,
            region,
        ),
{
    let height = left.len() as int / width;
    let first = analysis::capped(region.x as int, width);
    let top = analysis::capped(region.y as int, height);
    let last = analysis::capped(region.x + region.width, width);
    let bottom = analysis::capped(region.y + region.height, height);
    div_mod::lemma_fundamental_div_mod(left.len() as int, width);
    mul::lemma_mul_is_commutative(width, height);
    if first < last && top < bottom {
        let left_rows = analysis::cropped_row(left, width, first, top, last);
        let right_rows = analysis::cropped_row(right, width, first, top, last);
        assert forall|row: int| 0 <= row < bottom - top implies #[trigger] left_rows(row)
            == right_rows(row) by {
            tiling::row_inside(top + row, height, width);
            assert forall|i: int| 0 <= i < last - first implies #[trigger] left_rows(row)[i]
                == right_rows(row)[i] by {
                assert(left[(top + row) * width + (first + i)] == right[(top + row) * width + (first
                    + i)]);
            }
            assert(left_rows(row) =~= right_rows(row));
        }
        tiling::joined_agree((bottom - top) as nat, left_rows, right_rows);
    }
}

/// A stride of two or more measures the image that is made of the pixels at rows and columns
/// 0, `stride`, twice `stride` and so on.
pub proof fn large_strides_measure_every_kth_pixel(
    luma: Seq<u8>,
    width: int,
    stride: int,
    image: Seq<u8>,
)
    requires
        0 < width,
        2 <= stride,
        ({
            let columns = analysis::steps(width, stride);
            let rows = analysis::steps(luma.len() as int / width, stride);
            &&& image.len() == rows * columns
            &&& forall|row: int, col: int|
                0 <= row < rows && 0 <= col < columns ==> #[trigger] image[row * columns + col]
                    == luma[row * stride * width + col * stride]
        }),
    ensures
        ({
            let columns = analysis::steps(width, stride);
            let rows = analysis::steps(luma.len() as int / width, stride);
            &&& analysis::sampled_moments(luma, width, stride) == analysis::moments(
                image,
                columns,
                rows,
            )
            &&& columns < 3 || rows < 3 ==> analysis::sampled_moments(luma, width, stride) == (
            Moments { sum: 0, sum_squared: 0, count: 0 })
        }),
{
    let columns = analysis::steps(width, stride);
    let rows = analysis::steps(luma.len() as int / width, stride);
    div_mod::lemma_div_pos_is_pos(luma.len() as int, width);
    div_mod::lemma_div_pos_is_pos(luma.len() as int / width, stride);
    div_mod::lemma_div_pos_is_pos(width, stride);
    let part = analysis::sampled_row(luma, width, stride);
    assert forall|row: int| 0 <= row < rows implies (#[trigger] part(row)).len() == columns by {}
    tiling::joined_uniform(rows as nat, part, columns as nat);
    let sampled = tiling::joined(rows as nat, part);
    if columns > 0 {
        assert forall|i: int| 0 <= i < sampled.len() implies sampled[i] == image[i] by {
            let row = i / columns;
            let col = i % columns;
            div_mod::lemma_fundamental_div_mod(i, columns);
            div_mod::lemma_div_pos_is_pos(i, columns);
            mul::lemma_mul_is_commutative(columns, row);
            assert(row < rows) by (nonlinear_arith)
                requires
                    i < rows * columns,
                    i == row * columns + col,
                    0 <= col,
                    0 < columns,
            ;
            assert(part(row)[col] == luma[row * stride * width + col * stride]);
            assert(image[row * columns + col] == luma[row * stride * width + col * stride]);
        }
    } else {
        assert(rows * 0 == 0) by (nonlinear_arith);
    }
    assert(sampled =~= image);
}

/// What a ring of `capacity` retains once `frames` are pushed in turn onto `start`.
pub open spec fn pushed_all(capacity: int, start: Seq<Frame>, frames: Seq<Frame>) -> Seq<Frame>
    decreases frames.len(),
{
    if frames.len() == 0 {
        start
    } else {
        analysis::pushed(
            capacity,
            pushed_all(capacity, start, frames.drop_last()),
            frames.last(),
        )
    }
}

/// A ring retains the most recent frames, oldest first, and never more than its capacity:
/// of all frames pushed onto an empty ring, the last `capacity` remain.
pub proof fn ring_keeps_the_most_recent(capacity: int, frames: Seq<Frame>)
    requires
        0 <= capacity,
    ensures
        pushed_all(capacity, Seq::empty(), frames) == frames.subrange(
            if frames.len() > capacity {
                frames.len() - capacity
            } else {
                0
            },
            frames.len() as int,
        ),
    decreases frames.len(),
{
    if frames.len() > 0 {
        ring_keeps_the_most_recent(capacity, frames.drop_last());
    }
    assert(pushed_all(capacity, Seq::empty(), frames) =~= frames.subrange(
        if frames.len() > capacity {
            frames.len() - capacity
        } else {
            0
        },
        frames.len() as int,
    ));
}

/// A push keeps a ring within its capacity.
pub proof fn push_keeps_capacity(capacity: int, frames: Seq<Frame>, frame: Frame)
    requires
        frames.len() <= capacity,
    ensures
        analysis::pushed(capacity, frames, frame).len() <= capacity,
{
}

/// There is one sharpest frame: no two places are both the last highest.
pub proof fn sharpest_is_unique(scores: Seq<u32>, left: int, right: int)
    requires
        analysis::is_last_highest(scores, left),
        analysis::is_last_highest(scores, right),
    ensures
        left == right,
{
    assert(scores[left] <= scores[right] && scores[right] <= scores[left]);
}

} // verus!

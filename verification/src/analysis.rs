//! Frame analysis helpers.
//!
//! Pure functions over [`Frame`] for common image-quality measurements, plus a
//! small [`Ring`] for post-hoc "pick the sharpest" selection.
//!
//! Sharpness is the variance of the Laplacian response over an image. The functions here
//! return what that variance is computed from, as whole numbers, so nothing is rounded.
//! It is a relative measure, not an absolute quality measurement; calibrate thresholds per
//! camera and lighting condition.

use crate::convert;
use crate::convert::to_luma8;
use crate::tiling;
use crate::types::{Frame, Rect};
use std::collections::VecDeque;
use vstd::arithmetic::{div_mod, mul};
use vstd::prelude::*;
use vstd::slice::slice_subrange;

verus! {

/// The Laplacian response of an image, summed up.
///
/// The variance is `sum_squared / count - (sum / count)²`, and zero where `count` is zero.
#[derive(Clone, Copy, Debug, PartialEq, Eq, Structural)]
pub struct Sharpness {
    /// Sum of the responses.
    pub sum: i128,
    /// Sum of the squares of the responses.
    pub sum_squared: u128,
    /// Number of responses. Zero where the image is too small to measure.
    pub count: u64,
}

/// The sums of a [`Sharpness`] as integers.
pub struct Moments {
    pub sum: int,
    pub sum_squared: int,
    pub count: int,
}

impl View for Sharpness {
    type V = Moments;

    open spec fn view(&self) -> Moments {
        Moments {
            sum: self.sum as int,
            sum_squared: self.sum_squared as int,
            count: self.count as int,
        }
    }
}

/// `index` moved one step down, but not below the first.
pub open spec fn before(index: int) -> int {
    if index == 0 {
        0
    } else {
        index - 1
    }
}

/// `index` moved one step up, but not beyond the last.
pub open spec fn after(index: int, count: int) -> int {
    if index + 1 < count {
        index + 1
    } else {
        count - 1
    }
}

/// The 3×3 Laplacian at a pixel: its four neighbors less four times itself. At the border
/// a pixel stands in for its missing neighbor.
pub open spec fn response(luma: Seq<u8>, width: int, height: int, row: int, col: int) -> int {
    luma[before(row) * width + col] + luma[after(row, height) * width + col] + luma[row * width
        + before(col)] + luma[row * width + after(col, width)] - 4 * luma[row * width + col]
}

/// The responses of one row.
pub open spec fn responses(luma: Seq<u8>, width: int, height: int, row: int) -> spec_fn(
    int,
) -> int {
    |col: int| response(luma, width, height, row, col)
}

/// The squared responses of one row.
pub open spec fn squares(luma: Seq<u8>, width: int, height: int, row: int) -> spec_fn(int) -> int {
    |col: int|
        response(luma, width, height, row, col) * response(luma, width, height, row, col)
}

/// Each row's sum of responses.
pub open spec fn row_sums(luma: Seq<u8>, width: int, height: int) -> spec_fn(int) -> int {
    |row: int| tiling::total(width as nat, responses(luma, width, height, row))
}

/// Each row's sum of squared responses.
pub open spec fn row_square_sums(luma: Seq<u8>, width: int, height: int) -> spec_fn(int) -> int {
    |row: int| tiling::total(width as nat, squares(luma, width, height, row))
}

/// The response summed over an image, or nothing where it has fewer than three rows or
/// columns or its data ends early.
pub open spec fn moments(luma: Seq<u8>, width: int, height: int) -> Moments {
    if width < 3 || height < 3 || luma.len() < width * height {
        Moments { sum: 0, sum_squared: 0, count: 0 }
    } else {
        Moments {
            sum: tiling::total(height as nat, row_sums(luma, width, height)),
            sum_squared: tiling::total(height as nat, row_square_sums(luma, width, height)),
            count: width * height,
        }
    }
}

/// The response summed over as many whole rows of `width` pixels as there are.
pub open spec fn image_moments(luma: Seq<u8>, width: int) -> Moments {
    if width == 0 {
        Moments { sum: 0, sum_squared: 0, count: 0 }
    } else {
        moments(luma, width, luma.len() as int / width)
    }
}

/// A coordinate held back to `limit`.
pub open spec fn capped(value: int, limit: int) -> int {
    if value < limit {
        value
    } else {
        limit
    }
}

/// Row `row` of the part of an image between columns `left` and `right`, from `top` on.
pub open spec fn cropped_row(luma: Seq<u8>, width: int, left: int, top: int, right: int) -> spec_fn(
    int,
) -> Seq<u8> {
    |row: int| luma.subrange((top + row) * width + left, (top + row) * width + right)
}

/// The response summed over the part of an image that a region covers, or nothing where
/// the region covers none of it.
pub open spec fn region_moments(luma: Seq<u8>, width: int, region: Rect) -> Moments {
    let height = luma.len() as int / width;
    let left = capped(region.x as int, width);
    let top = capped(region.y as int, height);
    let right = capped(region.x + region.width, width);
    let bottom = capped(region.y + region.height, height);
    if width == 0 || left >= right || top >= bottom {
        Moments { sum: 0, sum_squared: 0, count: 0 }
    } else {
        moments(
            tiling::joined((bottom - top) as nat, cropped_row(luma, width, left, top, right)),
            right - left,
            bottom - top,
        )
    }
}

/// `value / step`, rounded up.
pub open spec fn steps(value: int, step: int) -> int {
    value / step + if value % step > 0 {
        1int
    } else {
        0int
    }
}

/// Every `step`-th pixel of row `row * step`.
pub open spec fn sampled_row(luma: Seq<u8>, width: int, step: int) -> spec_fn(int) -> Seq<u8> {
    |row: int|
        Seq::new(steps(width, step) as nat, |col: int| luma[row * step * width + col * step])
}

/// The response summed over every `step`-th pixel in each axis.
pub open spec fn sampled_moments(luma: Seq<u8>, width: int, step: int) -> Moments {
    if step <= 1 || width == 0 {
        image_moments(luma, width)
    } else {
        let columns = steps(width, step);
        let rows = steps(luma.len() as int / width, step);
        moments(tiling::joined(rows as nat, sampled_row(luma, width, step)), columns, rows)
    }
}

/// A position in an image lies inside its pixels.
proof fn pixel_inside(row: int, col: int, width: int, height: int)
    requires
        0 <= row < height,
        0 <= col < width,
    ensures
        0 <= row * width <= row * width + col < width * height,
        (row + 1) * width == row * width + width,
{
    tiling::row_inside(row, height, width);
    mul::lemma_mul_is_commutative(width, height);
    mul::lemma_mul_is_distributive_add_other_way(width, row, 1);
}

/// The Laplacian response at one pixel.
fn response_at(luma: &[u8], width: usize, height: usize, row: usize, col: usize) -> (value: i32)
    requires
        row < height,
        col < width,
        width * height <= luma.len(),
    ensures
        value == response(luma@, width as int, height as int, row as int, col as int),
        -1020 <= value <= 1020,
{
    let above: usize = if row == 0 {
        0
    } else {
        row - 1
    };
    let below: usize = if row + 1 < height {
        row + 1
    } else {
        height - 1
    };
    let left: usize = if col == 0 {
        0
    } else {
        col - 1
    };
    let right: usize = if col + 1 < width {
        col + 1
    } else {
        width - 1
    };
    proof {
        pixel_inside(row as int, col as int, width as int, height as int);
        pixel_inside(row as int, left as int, width as int, height as int);
        pixel_inside(row as int, right as int, width as int, height as int);
        pixel_inside(above as int, col as int, width as int, height as int);
        pixel_inside(below as int, col as int, width as int, height as int);
    }
    let center: i32 = luma[row * width + col] as i32;
    luma[above * width + col] as i32 + luma[below * width + col] as i32 + luma[row * width + left]
        as i32 + luma[row * width + right] as i32 - 4 * center
}

/// Sum up the Laplacian response over an image.
fn laplacian_variance(luma: &[u8], width: usize, height: usize) -> (sharpness: Sharpness)
    ensures
        sharpness@ == moments(luma@, width as int, height as int),
{
    proof {
        assert(0 <= width * height <= u64::MAX * u64::MAX) by (nonlinear_arith)
            requires
                0 <= width <= u64::MAX,
                0 <= height <= u64::MAX,
        ;
    }
    if width < 3 || height < 3 || (luma.len() as u128) < width as u128 * height as u128 {
        return Sharpness { sum: 0, sum_squared: 0, count: 0 };
    }
    let ghost w = width as int;
    let ghost h = height as int;
    let ghost sums = row_sums(luma@, w, h);
    let ghost square_sums = row_square_sums(luma@, w, h);
    let mut sum: i128 = 0;
    let mut sum_squared: u128 = 0;
    let mut count: u64 = 0;
    let mut row: usize = 0;
    proof {
        assert(0 * w == 0) by (nonlinear_arith);
    }
    while row < height
        invariant
            width >= 3,
            row <= height,
            w == width,
            h == height,
            w * h <= luma.len(),
            sums == row_sums(luma@, w, h),
            square_sums == row_square_sums(luma@, w, h),
            count == row * width,
            sum == tiling::total(row as nat, sums),
            sum_squared == tiling::total(row as nat, square_sums),
            -1020 * count <= sum <= 1020 * count,
            sum_squared <= 1040400 * count,
        decreases height - row,
    {
        let ghost terms = responses(luma@, w, h, row as int);
        let ghost square_terms = squares(luma@, w, h, row as int);
        let mut col: usize = 0;
        while col < width
            invariant
                row < height,
                col <= width,
                w == width,
                h == height,
                w * h <= luma.len(),
                terms == responses(luma@, w, h, row as int),
                square_terms == squares(luma@, w, h, row as int),
                count == row * width + col,
                sum == tiling::total(row as nat, sums) + tiling::total(col as nat, terms),
                sum_squared == tiling::total(row as nat, square_sums) + tiling::total(
                    col as nat,
                    square_terms,
                ),
                -1020 * count <= sum <= 1020 * count,
                sum_squared <= 1040400 * count,
            decreases width - col,
        {
            let value: i32 = response_at(luma, width, height, row, col);
            proof {
                pixel_inside(row as int, col as int, w, h);
                assert(value * value <= 1040400 && 0 <= value * value) by (nonlinear_arith)
                    requires
                        -1020 <= value <= 1020,
                ;
                assert(terms(col as int) == value);
                assert(square_terms(col as int) == value * value);
            }
            let square: i32 = value * value;
            sum = sum + value as i128;
            sum_squared = sum_squared + square as u128;
            count = count + 1;
            col = col + 1;
        }
        proof {
            mul::lemma_mul_is_distributive_add_other_way(w, row as int, 1);
            assert(sums(row as int) == tiling::total(width as nat, terms));
            assert(square_sums(row as int) == tiling::total(width as nat, square_terms));
        }
        row = row + 1;
    }
    proof {
        mul::lemma_mul_is_commutative(w, h);
    }
    Sharpness { sum, sum_squared, count }
}

/// Measure frame sharpness as the variance of the 3×3 Laplacian response.
///
/// Higher variance means sharper. Thresholds must be calibrated per camera and lighting
/// condition.
pub fn blur_variance(frame: &Frame) -> (sharpness: Sharpness)
    ensures
        sharpness@ == image_moments(convert::luma8(frame@), frame@.width as int),
{
    let luma = to_luma8(frame);
    let width: usize = frame.width as usize;
    if width == 0 {
        return Sharpness { sum: 0, sum_squared: 0, count: 0 };
    }
    let height: usize = luma.len() / width;
    laplacian_variance(luma.as_slice(), width, height)
}

/// Whole rows of an image lie inside its pixels.
proof fn rows_fit(len: int, width: int, height: int)
    requires
        0 <= len,
        width > 0,
        height == len / width,
    ensures
        0 <= height,
        width * height <= len,
        height <= len,
{
    div_mod::lemma_fundamental_div_mod(len, width);
    div_mod::lemma_div_pos_is_pos(len, width);
    assert(height <= width * height) by (nonlinear_arith)
        requires
            width > 0,
            height >= 0,
    ;
}

/// Like [`blur_variance`] but restricted to a region of interest.
///
/// Nothing is measured in degenerate or out-of-frame regions. Sharpness is relative;
/// calibrate thresholds per camera and lighting condition.
pub fn blur_variance_in(frame: &Frame, region: Rect) -> (sharpness: Sharpness)
    ensures
        sharpness@ == region_moments(convert::luma8(frame@), frame@.width as int, region),
{
    let luma = to_luma8(frame);
    let width: usize = frame.width as usize;
    if width == 0 {
        return Sharpness { sum: 0, sum_squared: 0, count: 0 };
    }
    let height: usize = luma.len() / width;
    let left: usize = at_most(region.x as u64, width);
    let top: usize = at_most(region.y as u64, height);
    let right: usize = at_most(region.x as u64 + region.width as u64, width);
    let bottom: usize = at_most(region.y as u64 + region.height as u64, height);
    if left >= right || top >= bottom {
        return Sharpness { sum: 0, sum_squared: 0, count: 0 };
    }
    let cropped_width: usize = right - left;
    let cropped_height: usize = bottom - top;
    let ghost part = cropped_row(luma@, width as int, left as int, top as int, right as int);
    let mut cropped: Vec<u8> = Vec::new();
    let mut row: usize = 0;
    proof {
        rows_fit(luma@.len() as int, width as int, height as int);
        assert(cropped@ =~= tiling::joined(0, part));
    }
    while row < cropped_height
        invariant
            row <= cropped_height,
            cropped_height == bottom - top,
            cropped_width == right - left,
            left < right <= width,
            top < bottom <= height,
            width * height <= luma.len(),
            part == cropped_row(luma@, width as int, left as int, top as int, right as int),
            cropped@ == tiling::joined(row as nat, part),
        decreases cropped_height - row,
    {
        proof {
            pixel_inside(top + row, left as int, width as int, height as int);
            pixel_inside(top + row, right - 1, width as int, height as int);
        }
        let start: usize = (top + row) * width + left;
        let slice = slice_subrange(luma.as_slice(), start, start + cropped_width);
        cropped.extend_from_slice(slice);
        assert(part(row as int) =~= slice@);
        assert(cropped@ =~= tiling::joined((row + 1) as nat, part));
        row = row + 1;
    }
    laplacian_variance(cropped.as_slice(), cropped_width, cropped_height)
}

fn at_most(value: u64, limit: usize) -> (least: usize)
    ensures
        least == capped(value as int, limit as int),
{
    if value < limit as u64 {
        value as usize
    } else {
        limit
    }
}

fn div_ceil(value: usize, step: usize) -> (count: usize)
    requires
        step > 1,
    ensures
        count == steps(value as int, step as int),
        forall|i: int| 0 <= i < count ==> 0 <= #[trigger] (i * step) < value,
{
    proof {
        div_mod::lemma_fundamental_div_mod(value as int, step as int);
        assert(value / step < value || value == 0) by (nonlinear_arith)
            requires
                step > 1,
                value == step * (value / step) + value % step,
                0 <= value % step,
                0 <= value / step,
        ;
    }
    let whole: usize = value / step;
    let count: usize = if value % step > 0 {
        whole + 1
    } else {
        whole
    };
    proof {
        assert forall|i: int| 0 <= i < count implies 0 <= #[trigger] (i * step) < value by {
            assert(0 <= i * step && i * step < value) by (nonlinear_arith)
                requires
                    step > 1,
                    value == step * whole + value % step,
                    0 <= value % step,
                    0 <= i <= whole,
                    i == whole ==> value % step > 0,
            ;
        }
    }
    count
}

/// Faster [`blur_variance`] that samples every `stride`-th pixel in each axis
/// before convolving.
///
/// A `stride` of 0 or 1 behaves exactly like [`blur_variance`]. Larger values
/// trade accuracy for speed and are useful for real-time gating. Sharpness is
/// relative; calibrate thresholds per camera and lighting condition.
pub fn blur_variance_subsampled(frame: &Frame, stride: u32) -> (sharpness: Sharpness)
    ensures
        sharpness@ == sampled_moments(
            convert::luma8(frame@),
            frame@.width as int,
            stride as int,
        ),
{
    if stride <= 1 {
        return blur_variance(frame);
    }
    let step: usize = stride as usize;
    let luma = to_luma8(frame);
    let width: usize = frame.width as usize;
    if width == 0 {
        return Sharpness { sum: 0, sum_squared: 0, count: 0 };
    }
    let height: usize = luma.len() / width;
    let columns: usize = div_ceil(width, step);
    let rows: usize = div_ceil(height, step);
    if columns < 3 || rows < 3 {
        return Sharpness { sum: 0, sum_squared: 0, count: 0 };
    }
    let ghost part = sampled_row(luma@, width as int, step as int);
    let mut sampled: Vec<u8> = Vec::new();
    let mut row: usize = 0;
    proof {
        rows_fit(luma@.len() as int, width as int, height as int);
        assert(sampled@ =~= tiling::joined(0, part));
    }
    while row < rows
        invariant
            row <= rows,
            step > 1,
            width * height <= luma.len(),
            columns == steps(width as int, step as int),
            rows == steps(height as int, step as int),
            forall|i: int| 0 <= i < rows ==> 0 <= #[trigger] (i * step) < height,
            forall|i: int| 0 <= i < columns ==> 0 <= #[trigger] (i * step) < width,
            part == sampled_row(luma@, width as int, step as int),
            sampled@ == tiling::joined(row as nat, part),
        decreases rows - row,
    {
        let ghost done = sampled@;
        let mut col: usize = 0;
        assert(0 <= row as int * step < height);
        while col < columns
            invariant
                col <= columns,
                step > 1,
                width * height <= luma.len(),
                columns == steps(width as int, step as int),
                0 <= row * step < height,
                forall|i: int| 0 <= i < columns ==> 0 <= #[trigger] (i * step) < width,
                part == sampled_row(luma@, width as int, step as int),
                sampled@ == done + part(row as int).take(col as int),
            decreases columns - col,
        {
            assert(0 <= col as int * step < width);
            proof {
                pixel_inside(row * step, col * step, width as int, height as int);
            }
            let pixel: u8 = luma[row * step * width + col * step];
            sampled.push(pixel);
            assert(part(row as int)[col as int] == pixel);
            assert(sampled@ =~= done + part(row as int).take(col + 1));
            col = col + 1;
        }
        assert(part(row as int).take(columns as int) =~= part(row as int));
        row = row + 1;
    }
    laplacian_variance(sampled.as_slice(), columns, rows)
}

/// Fixed-capacity buffer of recent [`Frame`]s.
///
/// Plain data: push with [`ring_push`], scan with [`take_sharpest`], or iterate
/// `frames` directly.
#[derive(Clone, Debug)]
pub struct Ring {
    /// Maximum number of retained frames. `0` disables storage.
    pub capacity: usize,
    /// Retained frames, oldest first.
    pub frames: VecDeque<Frame>,
}

/// What a ring of `capacity` retains once `frame` is pushed.
pub open spec fn pushed(capacity: int, frames: Seq<Frame>, frame: Frame) -> Seq<Frame> {
    if capacity == 0 {
        frames
    } else if frames.len() >= capacity {
        frames.drop_first().push(frame)
    } else {
        frames.push(frame)
    }
}

/// Build an empty [`Ring`] with the given capacity.
pub fn ring_new(capacity: usize) -> (ring: Ring)
    ensures
        ring.capacity == capacity,
        ring.frames@ == Seq::<Frame>::empty(),
{
    Ring { capacity, frames: VecDeque::new() }
}

impl Default for Ring {
    fn default() -> (ring: Ring)
        ensures
            ring.capacity == 0,
            ring.frames@ == Seq::<Frame>::empty(),
    {
        ring_new(0)
    }
}

/// Append `frame` to `ring`, evicting the oldest frame when at capacity.
pub fn ring_push(ring: &mut Ring, frame: Frame)
    ensures
        final(ring).capacity == old(ring).capacity,
        final(ring).frames@ == pushed(old(ring).capacity as int, old(ring).frames@, frame),
{
    if ring.capacity == 0 {
        return;
    }
    if ring.frames.len() >= ring.capacity {
        let _ = ring.frames.pop_front();
    }
    ring.frames.push_back(frame);
}

/// Whether `index` is the last of the places that hold the highest score.
pub open spec fn is_last_highest(scores: Seq<u32>, index: int) -> bool {
    &&& 0 <= index < scores.len()
    &&& forall|i: int| 0 <= i < scores.len() ==> #[trigger] scores[i] <= scores[index]
    &&& forall|i: int| index < i < scores.len() ==> #[trigger] scores[i] < scores[index]
}

/// Return the frame in `ring` with the highest score, the latest one where several share it.
///
/// `scores` holds one score for each frame of the ring, in order: the frame's
/// [`blur_variance`] as a non-negative 32-bit float's bits, which are ordered as the
/// floats are. Sharpness is relative; this finds the sharpest within the ring, not across
/// time.
pub fn take_sharpest(ring: &Ring, scores: &[u32]) -> (sharpest: Option<Frame>)
    requires
        scores@.len() == ring.frames@.len(),
    ensures
        sharpest is None <==> ring.frames@.len() == 0,
        sharpest matches Some(frame) ==> exists|index: int|
            #[trigger] is_last_highest(scores@, index) && frame@ == ring.frames@[index]@,
{
    let count: usize = ring.frames.len();
    if count == 0 {
        return None;
    }
    let mut best: usize = 0;
    let mut i: usize = 1;
    while i < count
        invariant
            1 <= i <= count,
            count == scores@.len(),
            best < i,
            is_last_highest(scores@.take(i as int), best as int),
        decreases count - i,
    {
        let ghost seen = scores@.take(i as int);
        let ghost next = scores@.take(i + 1);
        assert(forall|j: int| 0 <= j < i ==> #[trigger] next[j] == seen[j]);
        if scores[i] >= scores[best] {
            best = i;
        }
        i = i + 1;
    }
    assert(scores@.take(count as int) =~= scores@);
    Some(ring.frames[best].clone())
}

} // verus!

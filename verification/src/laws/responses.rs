//! What the Laplacian response reads, and what adds up to a sharpness.

use crate::analysis;
use crate::analysis::Moments;
use crate::tiling;
use crate::types::Rect;
use vstd::arithmetic::{div_mod, mul};
use vstd::prelude::*;

verus! {

/// Different pixels of an image stand at different places.
proof fn places_differ(width: int, row: int, col: int, other_row: int, other_col: int)
    requires
        0 <= col < width,
        0 <= other_col < width,
        row * width + col == other_row * width + other_col,
    ensures
        row == other_row,
        col == other_col,
{
    assert(row == other_row) by (nonlinear_arith)
        requires
            0 <= col < width,
            0 <= other_col < width,
            row * width + col == other_row * width + other_col,
    ;
}

/// A pixel lies inside the image.
proof fn place_inside(row: int, col: int, width: int, height: int)
    requires
        0 <= row < height,
        0 <= col < width,
    ensures
        0 <= row * width <= row * width + col < width * height,
        (row + 1) * width == row * width + width,
        (row - 1) * width == row * width - width,
{
    tiling::row_inside(row, height, width);
    mul::lemma_mul_is_commutative(width, height);
    mul::lemma_mul_is_distributive_add_other_way(width, row, 1);
    mul::lemma_mul_is_distributive_sub_other_way(width, row, 1);
}

/// Whether the two pixels touch side by side or one above the other.
pub open spec fn touch(row: int, col: int, other_row: int, other_col: int) -> bool {
    ||| other_row == row && (other_col == col - 1 || other_col == col + 1)
    ||| other_col == col && (other_row == row - 1 || other_row == row + 1)
}

/// The response of an inner pixel is told by the four pixels that touch it and by itself:
/// raising one of the four raises it by as much, raising the pixel itself lowers it by four
/// times as much, and no other pixel counts, a diagonal neighbor as little as any.
pub proof fn four_neighbors_count(
    luma: Seq<u8>,
    width: int,
    height: int,
    row: int,
    col: int,
    other_row: int,
    other_col: int,
    level: u8,
)
    requires
        0 < row < height - 1,
        0 < col < width - 1,
        0 <= other_row < height,
        0 <= other_col < width,
        luma.len() >= width * height,
    ensures
        ({
            let place = other_row * width + other_col;
            let changed = luma.update(place, level);
            analysis::response(changed, width, height, row, col) - analysis::response(
                luma,
                width,
                height,
                row,
                col,
            ) == if other_row == row && other_col == col {
                -4 * (level - luma[place])
            } else if touch(row, col, other_row, other_col) {
                level - luma[place]
            } else {
                0
            }
        }),
{
    let place = other_row * width + other_col;
    place_inside(other_row, other_col, width, height);
    place_inside(row, col, width, height);
    place_inside(row - 1, col, width, height);
    place_inside(row + 1, col, width, height);
    if place == row * width + col {
        places_differ(width, row, col, other_row, other_col);
    }
    if place == row * width + col - 1 {
        places_differ(width, row, col - 1, other_row, other_col);
    }
    if place == row * width + col + 1 {
        places_differ(width, row, col + 1, other_row, other_col);
    }
    if place == (row - 1) * width + col {
        places_differ(width, row - 1, col, other_row, other_col);
    }
    if place == (row + 1) * width + col {
        places_differ(width, row + 1, col, other_row, other_col);
    }
}

/// An inner pixel that is as bright as all four pixels that touch it has no response, however
/// bright the others are.
pub proof fn level_surroundings_have_no_response(
    luma: Seq<u8>,
    width: int,
    height: int,
    row: int,
    col: int,
)
    requires
        0 < row < height - 1,
        0 < col < width - 1,
        luma.len() >= width * height,
        luma[(row - 1) * width + col] == luma[row * width + col],
        luma[(row + 1) * width + col] == luma[row * width + col],
        luma[row * width + col - 1] == luma[row * width + col],
        luma[row * width + col + 1] == luma[row * width + col],
    ensures
        analysis::response(luma, width, height, row, col) == 0,
{
}

/// On a checkerboard of black and white pixels every inner pixel responds as strongly as it
/// can: with 1020 where it is black, and with -1020 where it is white.
pub proof fn checkerboards_respond_most(
    luma: Seq<u8>,
    width: int,
    height: int,
    row: int,
    col: int,
)
    requires
        0 < row < height - 1,
        0 < col < width - 1,
        luma.len() >= width * height,
        forall|r: int, c: int|
            0 <= r < height && 0 <= c < width ==> #[trigger] luma[r * width + c] == if (r + c) % 2
                == 0 {
                255u8
            } else {
                0u8
            },
    ensures
        analysis::response(luma, width, height, row, col) == if (row + col) % 2 == 0 {
            -1020
        } else {
            1020int
        },
{
    assert(luma[row * width + (col - 1)] == luma[row * width + (col + 1)]);
    assert(luma[(row - 1) * width + col] == luma[(row + 1) * width + col]);
    assert(luma[row * width + col] != luma[row * width + (col + 1)]);
}

/// An index held inside `0..count`.
pub open spec fn held(index: int, count: int) -> int {
    if index < 0 {
        0
    } else if index >= count {
        count - 1
    } else {
        index
    }
}

/// An image with a border of one pixel around it, in which the outermost pixels are repeated.
pub open spec fn framed(luma: Seq<u8>, width: int, height: int) -> Seq<u8> {
    Seq::new(
        ((width + 2) * (height + 2)) as nat,
        |i: int|
            luma[held(i / (width + 2) - 1, height) * width + held(i % (width + 2) - 1, width)],
    )
}

proof fn framed_at(luma: Seq<u8>, width: int, height: int, row: int, col: int)
    requires
        0 < width,
        0 < height,
        0 <= row < height + 2,
        0 <= col < width + 2,
    ensures
        framed(luma, width, height)[row * (width + 2) + col] == luma[held(row - 1, height) * width
            + held(col - 1, width)],
{
    let wide = width + 2;
    place_inside(row, col, wide, height + 2);
    div_mod::lemma_fundamental_div_mod_converse(row * wide + col, wide, row, col);
}

/// Beyond the border an image goes on as it ends: every pixel responds as it does in the image
/// with its outermost pixels repeated once.
pub proof fn borders_are_repeated(luma: Seq<u8>, width: int, height: int, row: int, col: int)
    requires
        0 <= row < height,
        0 <= col < width,
    ensures
        analysis::response(luma, width, height, row, col) == analysis::response(
            framed(luma, width, height),
            width + 2,
            height + 2,
            row + 1,
            col + 1,
        ),
{
    framed_at(luma, width, height, row + 1, col + 1);
    framed_at(luma, width, height, row, col + 1);
    framed_at(luma, width, height, row + 2, col + 1);
    framed_at(luma, width, height, row + 1, col);
    framed_at(luma, width, height, row + 1, col + 2);
}

/// A sum of which only three terms in a row can be other than zero.
proof fn three_terms(count: nat, term: spec_fn(int) -> int, at: int)
    requires
        1 <= at,
        forall|i: int|
            0 <= i < count && i != at - 1 && i != at && i != at + 1 ==> #[trigger] term(i) == 0,
    ensures
        tiling::total(count, term) == (if at - 1 < count {
            term(at - 1)
        } else {
            0
        }) + (if at < count {
            term(at)
        } else {
            0
        }) + (if at + 1 < count {
            term(at + 1)
        } else {
            0
        }),
    decreases count,
{
    if count > 0 {
        three_terms((count - 1) as nat, term, at);
    }
}

/// The response of a single pixel that stands out of an even surface.
proof fn dot_response(
    luma: Seq<u8>,
    width: int,
    height: int,
    row: int,
    col: int,
    level: int,
    height_of_dot: int,
    at_row: int,
    at_col: int,
)
    requires
        0 < row < height - 1,
        0 < col < width - 1,
        0 <= at_row < height,
        0 <= at_col < width,
        luma.len() >= width * height,
        forall|i: int|
            0 <= i < width * height ==> #[trigger] luma[i] == if i == row * width + col {
                level + height_of_dot
            } else {
                level
            },
    ensures
        analysis::response(luma, width, height, at_row, at_col) == if at_row == row && at_col
            == col {
            -4 * height_of_dot
        } else if touch(at_row, at_col, row, col) {
            height_of_dot
        } else {
            0
        },
{
    let above = analysis::before(at_row);
    let below = analysis::after(at_row, height);
    let left = analysis::before(at_col);
    let right = analysis::after(at_col, width);
    place_inside(row, col, width, height);
    place_inside(at_row, at_col, width, height);
    place_inside(above, at_col, width, height);
    place_inside(below, at_col, width, height);
    place_inside(at_row, left, width, height);
    place_inside(at_row, right, width, height);
    let dot = row * width + col;
    if at_row * width + at_col == dot {
        places_differ(width, at_row, at_col, row, col);
    }
    if above * width + at_col == dot {
        places_differ(width, above, at_col, row, col);
    }
    if below * width + at_col == dot {
        places_differ(width, below, at_col, row, col);
    }
    if at_row * width + left == dot {
        places_differ(width, at_row, left, row, col);
    }
    if at_row * width + right == dot {
        places_differ(width, at_row, right, row, col);
    }
}

/// A single pixel that stands out of an even surface by `dot` is measured through itself and
/// the four pixels that touch it: the responses cancel out, and their squares add up to
/// twenty times the square of `dot`, once over all pixels.
pub proof fn a_dot_is_measured_by_its_size(
    luma: Seq<u8>,
    width: int,
    height: int,
    row: int,
    col: int,
    level: int,
    dot: int,
)
    requires
        0 < row < height - 1,
        0 < col < width - 1,
        luma.len() >= width * height,
        forall|i: int|
            0 <= i < width * height ==> #[trigger] luma[i] == if i == row * width + col {
                level + dot
            } else {
                level
            },
    ensures
        analysis::moments(luma, width, height) == (Moments {
            sum: 0,
            sum_squared: 20 * (dot * dot),
            count: width * height,
        }),
{
    let sums = analysis::row_sums(luma, width, height);
    let square_sums = analysis::row_square_sums(luma, width, height);
    assert forall|r: int| 0 <= r < height implies #[trigger] sums(r) == (if r == row {
        -2 * dot
    } else if r == row - 1 || r == row + 1 {
        dot
    } else {
        0
    }) && square_sums(r) == (if r == row {
        18 * (dot * dot)
    } else if r == row - 1 || r == row + 1 {
        dot * dot
    } else {
        0
    }) by {
        let terms = analysis::responses(luma, width, height, r);
        let squares = analysis::squares(luma, width, height, r);
        assert forall|c: int| 0 <= c < width implies #[trigger] terms(c) == (if r == row && c
            == col {
            -4 * dot
        } else if touch(r, c, row, col) {
            dot
        } else {
            0
        }) && squares(c) == (if r == row && c == col {
            16 * (dot * dot)
        } else if touch(r, c, row, col) {
            dot * dot
        } else {
            0
        }) by {
            dot_response(luma, width, height, row, col, level, dot, r, c);
            assert((-4 * dot) * (-4 * dot) == 16 * (dot * dot)) by (nonlinear_arith);
        }
        assert forall|c: int|
            0 <= c < width && c != col - 1 && c != col && c != col + 1 implies #[trigger] squares(c)
            == 0 by {
            assert(terms(c) == 0);
        }
        three_terms(width as nat, terms, col);
        three_terms(width as nat, squares, col);
        assert(terms(col - 1) == terms(col + 1));
        assert(terms(col) == terms(col));
    }
    assert forall|r: int|
        0 <= r < height && r != row - 1 && r != row && r != row + 1 implies #[trigger] square_sums(r)
        == 0 by {
        assert(sums(r) == 0);
    }
    three_terms(height as nat, sums, row);
    three_terms(height as nat, square_sums, row);
    assert(sums(row - 1) == dot && sums(row) == -2 * dot && sums(row + 1) == dot);
}

/// An image of at least three rows and columns is measured over all of its pixels, and a
/// smaller one is not measured. Bytes behind the last whole row do not count.
pub proof fn images_are_measured_whole(luma: Seq<u8>, width: int, height: int)
    requires
        0 < width,
        0 <= height,
        width * height <= luma.len() < width * (height + 1),
    ensures
        analysis::image_moments(luma, width) == analysis::moments(luma, width, height),
        analysis::image_moments(luma, width).count == if width < 3 || height < 3 {
            0
        } else {
            width * height
        },
        analysis::image_moments(luma, width).sum_squared >= 0,
{
    let rest = luma.len() - width * height;
    mul::lemma_mul_is_distributive_add(width, height, 1);
    mul::lemma_mul_is_commutative(width, height);
    div_mod::lemma_fundamental_div_mod_converse(luma.len() as int, width, height, rest);
    if width >= 3 && height >= 3 {
        let square_sums = analysis::row_square_sums(luma, width, height);
        assert forall|row: int| 0 <= row < height implies #[trigger] square_sums(row) >= 0 by {
            let squares = analysis::squares(luma, width, height, row);
            assert forall|col: int| 0 <= col < width implies #[trigger] squares(col) >= 0 by {
                let value = analysis::response(luma, width, height, row, col);
                assert(value * value >= 0) by (nonlinear_arith);
            }
            no_negative_terms(width as nat, squares);
        }
        no_negative_terms(height as nat, square_sums);
    }
}

proof fn no_negative_terms(count: nat, term: spec_fn(int) -> int)
    requires
        forall|i: int| 0 <= i < count ==> #[trigger] term(i) >= 0,
    ensures
        tiling::total(count, term) >= 0,
    decreases count,
{
    if count > 0 {
        no_negative_terms((count - 1) as nat, term);
        assert(term(count - 1) >= 0);
    }
}

/// The smaller of two numbers.
pub open spec fn smaller(left: int, right: int) -> int {
    if left < right {
        left
    } else {
        right
    }
}

/// A region that starts inside a frame measures the image that is cut out there: the pixels
/// from the region's corner on, as wide and as high as the region is and the frame goes on.
pub proof fn regions_measure_what_they_cut_out(
    luma: Seq<u8>,
    width: int,
    height: int,
    region: Rect,
    image: Seq<u8>,
)
    requires
        region.x < width,
        region.y < height,
        region.width > 0,
        region.height > 0,
        luma.len() == width * height,
        ({
            let columns = smaller(region.width as int, width - region.x);
            let rows = smaller(region.height as int, height - region.y);
            &&& image.len() == rows * columns
            &&& forall|row: int, col: int|
                0 <= row < rows && 0 <= col < columns ==> #[trigger] image[row * columns + col]
                    == luma[(region.y + row) * width + (region.x + col)]
        }),
    ensures
        analysis::region_moments(luma, width, region) == analysis::moments(
            image,
            smaller(region.width as int, width - region.x),
            smaller(region.height as int, height - region.y),
        ),
{
    let columns = smaller(region.width as int, width - region.x);
    let rows = smaller(region.height as int, height - region.y);
    mul::lemma_mul_is_commutative(width, height);
    div_mod::lemma_fundamental_div_mod_converse(luma.len() as int, width, height, 0);
    let part = analysis::cropped_row(
        luma,
        width,
        region.x as int,
        region.y as int,
        region.x + columns,
    );
    assert forall|row: int| 0 <= row < rows implies (#[trigger] part(row)).len() == columns by {
        place_inside(region.y + row, region.x + columns - 1, width, height);
    }
    tiling::joined_uniform(rows as nat, part, columns as nat);
    let cut = tiling::joined(rows as nat, part);
    assert forall|i: int| 0 <= i < cut.len() implies cut[i] == image[i] by {
        let (row, col) = (i / columns, i % columns);
        in_rows(i, rows, columns);
        place_inside(region.y + row, region.x + columns - 1, width, height);
        assert(part(row)[col] == luma[(region.y + row) * width + (region.x + col)]);
        assert(image[row * columns + col] == luma[(region.y + row) * width + (region.x + col)]);
    }
    assert(cut =~= image);
}

/// The row and the column of a place.
proof fn in_rows(place: int, rows: int, columns: int)
    requires
        0 <= place < rows * columns,
        0 < columns,
    ensures
        0 <= place / columns < rows,
        0 <= place % columns < columns,
        place == place / columns * columns + place % columns,
{
    div_mod::lemma_fundamental_div_mod(place, columns);
    div_mod::lemma_div_pos_is_pos(place, columns);
    let row = place / columns;
    let col = place % columns;
    mul::lemma_mul_is_commutative(columns, row);
    assert(row < rows) by (nonlinear_arith)
        requires
            place < rows * columns,
            place == row * columns + col,
            0 <= col,
            0 < columns,
    ;
}

/// A stride of two or more measures the image that is made of the pixels at rows and columns
/// 0, `stride`, twice `stride` and so on, as many as the frame has.
pub proof fn strides_skip_pixels(
    luma: Seq<u8>,
    width: int,
    height: int,
    stride: int,
    image: Seq<u8>,
    columns: int,
    rows: int,
)
    requires
        0 < width,
        0 < height,
        2 <= stride,
        luma.len() == width * height,
        (columns - 1) * stride < width <= columns * stride,
        (rows - 1) * stride < height <= rows * stride,
        image.len() == rows * columns,
        forall|row: int, col: int|
            0 <= row < rows && 0 <= col < columns ==> #[trigger] image[row * columns + col]
                == luma[row * stride * width + col * stride],
    ensures
        analysis::sampled_moments(luma, width, stride) == analysis::moments(image, columns, rows),
{
    rounded_up(width, stride, columns);
    rounded_up(height, stride, rows);
    mul::lemma_mul_is_commutative(width, height);
    div_mod::lemma_fundamental_div_mod_converse(luma.len() as int, width, height, 0);
    let part = analysis::sampled_row(luma, width, stride);
    assert forall|row: int| 0 <= row < rows implies (#[trigger] part(row)).len() == columns by {}
    tiling::joined_uniform(rows as nat, part, columns as nat);
    let sampled = tiling::joined(rows as nat, part);
    assert forall|i: int| 0 <= i < sampled.len() implies sampled[i] == image[i] by {
        let (row, col) = (i / columns, i % columns);
        in_rows(i, rows, columns);
        assert(part(row)[col] == luma[row * stride * width + col * stride]);
        assert(image[row * columns + col] == luma[row * stride * width + col * stride]);
    }
    assert(sampled =~= image);
}

proof fn rounded_up(value: int, step: int, count: int)
    requires
        0 < value,
        2 <= step,
        (count - 1) * step < value <= count * step,
    ensures
        analysis::steps(value, step) == count,
        0 < count,
{
    assert(0 < count) by (nonlinear_arith)
        requires
            0 < value <= count * step,
            2 <= step,
    ;
    mul::lemma_mul_is_distributive_sub_other_way(step, count, 1);
    if value == count * step {
        div_mod::lemma_fundamental_div_mod_converse(value, step, count, 0);
    } else {
        div_mod::lemma_fundamental_div_mod_converse(
            value,
            step,
            count - 1,
            value - (count - 1) * step,
        );
    }
}

} // verus!

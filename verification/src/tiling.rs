//! Sequences and sums put together from numbered parts.
//!
//! An image is rows one after another, and a row is pixels one after another. The
//! contracts of the pixel code are stated with the two operations here.

use vstd::arithmetic::mul;
use vstd::prelude::*;

verus! {

/// Parts `0` to `count - 1` one after another.
pub open spec fn joined<T>(count: nat, part: spec_fn(int) -> Seq<T>) -> Seq<T>
    decreases count,
{
    if count == 0 {
        Seq::empty()
    } else {
        joined((count - 1) as nat, part) + part(count - 1)
    }
}

/// The sum of terms `0` to `count - 1`.
pub open spec fn total(count: nat, term: spec_fn(int) -> int) -> int
    decreases count,
{
    if count == 0 {
        0
    } else {
        total((count - 1) as nat, term) + term(count - 1)
    }
}

/// Parts that agree one by one join to the same sequence.
pub proof fn joined_agree<T>(count: nat, left: spec_fn(int) -> Seq<T>, right: spec_fn(int) -> Seq<T>)
    requires
        forall|i: int| 0 <= i < count ==> #[trigger] left(i) == right(i),
    ensures
        joined(count, left) == joined(count, right),
    decreases count,
{
    if count > 0 {
        joined_agree((count - 1) as nat, left, right);
        assert(left(count - 1) == right(count - 1));
    }
}

/// The first `left + right` parts are the first `left` parts, then the next `right` parts.
pub proof fn joined_split<T>(left: nat, right: nat, part: spec_fn(int) -> Seq<T>)
    ensures
        joined(left + right, part) == joined(left, part) + joined(right, |i: int| part(left + i)),
    decreases right,
{
    let rest = |i: int| part(left + i);
    if right == 0 {
        assert(joined(left, part) =~= joined(left, part) + joined(0, rest));
    } else {
        let before = (right - 1) as nat;
        joined_split(left, before, part);
        assert(rest =~= |i: int| part(left + i));
        assert(rest(before as int) == part((left + before) as int));
        assert(joined(left + right, part) == joined(left + before, part) + part((left + before) as int));
        assert(joined(left, part) + joined(right, rest) =~= joined(left, part) + joined(
            before,
            rest,
        ) + rest(before as int));
    }
}

/// Parts of one width join to a sequence of `count * width` items, in which item `j` of
/// part `i` stands at `i * width + j`.
pub proof fn joined_uniform<T>(count: nat, part: spec_fn(int) -> Seq<T>, width: nat)
    requires
        forall|i: int| 0 <= i < count ==> (#[trigger] part(i)).len() == width,
    ensures
        joined(count, part).len() == count * width,
        forall|i: int, j: int|
            #![trigger part(i)[j]]
            0 <= i < count && 0 <= j < width ==> joined(count, part)[i * width + j] == part(i)[j],
    decreases count,
{
    if count == 0 {
        assert(0 * width == 0) by (nonlinear_arith);
    } else {
        let before = (count - 1) as nat;
        joined_uniform(before, part, width);
        mul::lemma_mul_is_distributive_add_other_way(width as int, before as int, 1);
        assert(part(before as int).len() == width);
        assert forall|i: int, j: int|
            #![trigger part(i)[j]]
            0 <= i < count && 0 <= j < width implies joined(count, part)[i * width + j] == part(
            i,
        )[j] by {
            if i < before {
                row_inside(i, before as int, width as int);
                assert(joined(before, part)[i * width + j] == part(i)[j]);
            }
        }
    }
}

/// Terms that are all zero sum to zero.
pub proof fn total_of_zeros(count: nat, term: spec_fn(int) -> int)
    requires
        forall|i: int| 0 <= i < count ==> #[trigger] term(i) == 0,
    ensures
        total(count, term) == 0,
    decreases count,
{
    if count > 0 {
        total_of_zeros((count - 1) as nat, term);
        assert(term(count - 1) == 0);
    }
}

/// Terms that agree one by one have the same sum.
pub proof fn total_agree(count: nat, left: spec_fn(int) -> int, right: spec_fn(int) -> int)
    requires
        forall|i: int| 0 <= i < count ==> #[trigger] left(i) == right(i),
    ensures
        total(count, left) == total(count, right),
    decreases count,
{
    if count > 0 {
        total_agree((count - 1) as nat, left, right);
        assert(left(count - 1) == right(count - 1));
    }
}

/// Row `row` of `rows` starts and ends inside `rows` whole strides.
pub(crate) proof fn row_inside(row: int, rows: int, stride: int)
    requires
        0 <= row < rows,
        0 <= stride,
    ensures
        0 <= row * stride,
        row * stride + stride <= rows * stride,
{
    mul::lemma_mul_inequality(row + 1, rows, stride);
    mul::lemma_mul_is_distributive_add_other_way(stride, row, 1);
    assert(0 <= row * stride) by (nonlinear_arith)
        requires
            0 <= row,
            0 <= stride,
    ;
}

} // verus!

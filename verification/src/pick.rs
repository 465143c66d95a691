//! Picking one item of a list: the first that passes a test, or the first with the least
//! key.

use vstd::prelude::*;

verus! {

/// Whether `index` is the first of `count` places that passes a test.
pub open spec fn is_first(count: int, test: spec_fn(int) -> bool, index: int) -> bool {
    &&& 0 <= index < count
    &&& test(index)
    &&& forall|i: int| 0 <= i < index ==> !#[trigger] test(i)
}

/// Whether none of `count` places passes a test.
pub open spec fn none_pass(count: int, test: spec_fn(int) -> bool) -> bool {
    forall|i: int| 0 <= i < count ==> !#[trigger] test(i)
}

/// Whether `index` is the first of `count` places that has the least key of all.
pub open spec fn is_first_least(count: int, key: spec_fn(int) -> int, index: int) -> bool {
    &&& 0 <= index < count
    &&& forall|i: int| 0 <= i < count ==> key(index) <= #[trigger] key(i)
    &&& forall|i: int| 0 <= i < index ==> key(index) < #[trigger] key(i)
}

/// How far apart two numbers are.
pub open spec fn distance(left: u32, right: u32) -> int {
    if left < right {
        right - left
    } else {
        left - right
    }
}

pub(crate) fn distance_between(left: u32, right: u32) -> (apart: u64)
    ensures
        apart == distance(left, right),
{
    if left < right {
        (right - left) as u64
    } else {
        (left - right) as u64
    }
}

/// The first place with the least key.
pub(crate) fn first_least(keys: &Vec<u64>) -> (place: Option<usize>)
    ensures
        match place {
            Some(index) => is_first_least(
                keys@.len() as int,
                |i: int| keys@[i] as int,
                index as int,
            ),
            None => keys@.len() == 0,
        },
{
    if keys.len() == 0 {
        return None;
    }
    let ghost key = |i: int| keys@[i] as int;
    let mut best: usize = 0;
    let mut i: usize = 1;
    while i < keys.len()
        invariant
            1 <= i <= keys.len(),
            key == |i: int| keys@[i] as int,
            is_first_least(i as int, key, best as int),
        decreases keys.len() - i,
    {
        if keys[i] < keys[best] {
            best = i;
        }
        i = i + 1;
    }
    Some(best)
}

/// The first place that passed.
pub(crate) fn first_true(passed: &Vec<bool>) -> (place: Option<usize>)
    ensures
        match place {
            Some(index) => is_first(passed@.len() as int, |i: int| passed@[i], index as int),
            None => none_pass(passed@.len() as int, |i: int| passed@[i]),
        },
{
    let mut i: usize = 0;
    while i < passed.len()
        invariant
            i <= passed.len(),
            forall|j: int| 0 <= j < i ==> !passed@[j],
        decreases passed.len() - i,
    {
        if passed[i] {
            return Some(i);
        }
        i = i + 1;
    }
    None
}

} // verus!

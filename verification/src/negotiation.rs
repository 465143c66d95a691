//! Format negotiation: which of a device's formats comes closest to what was asked for.

use crate::pick;
use crate::pick::{distance_between, first_least, first_true};
use crate::types::{Capabilities, FormatDescriptor, FrameRate, FramerateRange, PixelFormat};
use crate::types::{Resolution, StreamConfig};
use vstd::prelude::*;

verus! {

/// Whether `fps` frames per second are no fewer than a framerate.
pub open spec fn reaches(fps: u32, rate: FrameRate) -> bool {
    rate.numerator <= fps * rate.denominator
}

/// Whether `fps` frames per second are no more than a framerate.
pub open spec fn stays_within(fps: u32, rate: FrameRate) -> bool {
    fps * rate.denominator <= rate.numerator
}

/// Whether a range of framerates holds `fps` frames per second.
pub open spec fn holds(range: FramerateRange, fps: u32) -> bool {
    reaches(fps, range.min) && stays_within(fps, range.max)
}

/// Whether a range of framerates holds `fps` frames per second.
pub fn supports_framerate(range: &FramerateRange, fps: u32) -> (supported: bool)
    ensures
        supported == holds(*range, fps),
{
    proof {
        assert(0 <= fps * range.min.denominator <= u32::MAX * u64::MAX) by (nonlinear_arith)
            requires
                0 <= fps <= u32::MAX,
                0 <= range.min.denominator <= u64::MAX,
        ;
        assert(0 <= fps * range.max.denominator <= u32::MAX * u64::MAX) by (nonlinear_arith)
            requires
                0 <= fps <= u32::MAX,
                0 <= range.max.denominator <= u64::MAX,
        ;
    }
    range.min.numerator as u128 <= fps as u128 * range.min.denominator as u128 && fps as u128
        * range.max.denominator as u128 <= range.max.numerator as u128
}

/// How far apart two resolutions are: the difference in width plus the difference in height.
pub open spec fn resolution_delta(left: Resolution, right: Resolution) -> int {
    pick::distance(left.width, right.width) + pick::distance(left.height, right.height)
}

/// How far apart two resolutions are: the difference in width plus the difference in height.
pub fn resolution_distance(left: Resolution, right: Resolution) -> (delta: u64)
    ensures
        delta == resolution_delta(left, right),
{
    distance_between(left.width, right.width) + distance_between(left.height, right.height)
}

/// Whether a format is exactly what was asked for.
pub open spec fn exact_match(formats: Seq<FormatDescriptor>, config: StreamConfig) -> spec_fn(
    int,
) -> bool {
    |i: int|
        formats[i].pixel_format == config.pixel_format && formats[i].resolution
            == config.resolution && holds(formats[i].framerate_range, config.framerate)
}

/// Whether a format has the resolution that was asked for.
pub open spec fn same_resolution(formats: Seq<FormatDescriptor>, config: StreamConfig) -> spec_fn(
    int,
) -> bool {
    |i: int| formats[i].resolution == config.resolution
}

/// How far a format's resolution is from the one that was asked for.
pub open spec fn delta(formats: Seq<FormatDescriptor>, config: StreamConfig) -> spec_fn(int) -> int {
    |i: int| resolution_delta(formats[i].resolution, config.resolution)
}

/// Whether `index` is the place of the closest format: the first exact match; where there is
/// none, the first at the resolution that was asked for; and where there is none either, the
/// first with the nearest resolution.
pub open spec fn is_best(formats: Seq<FormatDescriptor>, config: StreamConfig, index: int) -> bool {
    let count = formats.len() as int;
    ||| pick::is_first(count, exact_match(formats, config), index)
    ||| pick::none_pass(count, exact_match(formats, config)) && pick::is_first(
        count,
        same_resolution(formats, config),
        index,
    )
    ||| pick::none_pass(count, exact_match(formats, config)) && pick::none_pass(
        count,
        same_resolution(formats, config),
    ) && pick::is_first_least(count, delta(formats, config), index)
}

/// Pick the closest supported format to a requested `StreamConfig`.
///
/// Tries, in order:
/// 1. An exact match on `(pixel_format, resolution, framerate)`.
/// 2. Any format at the requested resolution.
/// 3. The format whose resolution has the smallest total width + height delta
///    from the request.
///
/// Returns `None` only if `capabilities.formats` is empty.
pub fn best_format(capabilities: &Capabilities, config: &StreamConfig) -> (best: Option<
    FormatDescriptor,
>)
    ensures
        best is None <==> capabilities.formats@.len() == 0,
        best matches Some(format) ==> exists|index: int|
            #[trigger] is_best(capabilities.formats@, *config, index) && format
                == capabilities.formats@[index],
{
    let formats = &capabilities.formats;
    let ghost exact = exact_match(formats@, *config);
    let ghost same = same_resolution(formats@, *config);
    let ghost key = delta(formats@, *config);
    let mut first_exact: Option<usize> = None;
    let mut first_same: Option<usize> = None;
    let mut nearest: usize = 0;
    let mut nearest_delta: u64 = 0;
    let mut i: usize = 0;
    while i < formats.len() && first_exact.is_none()
        invariant
            i <= formats.len(),
            exact == exact_match(formats@, *config),
            same == same_resolution(formats@, *config),
            key == delta(formats@, *config),
            match first_exact {
                Some(place) => pick::is_first(formats@.len() as int, exact, place as int),
                None => pick::none_pass(i as int, exact),
            },
            match first_same {
                Some(place) => pick::is_first(i as int, same, place as int),
                None => pick::none_pass(i as int, same),
            },
            i > 0 ==> pick::is_first_least(i as int, key, nearest as int),
            i > 0 ==> nearest_delta == key(nearest as int),
        decreases formats.len() - i,
    {
        let format = formats[i];
        let here = format.resolution == config.resolution;
        assert(same(i as int) == here);
        if here && format.pixel_format == config.pixel_format && supports_framerate(
            &format.framerate_range,
            config.framerate,
        ) {
            assert(exact(i as int));
            first_exact = Some(i);
        } else {
            assert(!exact(i as int));
        }
        if here && first_same.is_none() {
            first_same = Some(i);
        }
        let apart: u64 = resolution_distance(format.resolution, config.resolution);
        assert(key(i as int) == apart);
        if i == 0 || apart < nearest_delta {
            nearest = i;
            nearest_delta = apart;
        }
        i = i + 1;
    }
    if let Some(place) = first_exact {
        assert(is_best(formats@, *config, place as int));
        return Some(formats[place]);
    }
    if let Some(place) = first_same {
        assert(is_best(formats@, *config, place as int));
        return Some(formats[place]);
    }
    if formats.len() == 0 {
        return None;
    }
    assert(is_best(formats@, *config, nearest as int));
    Some(formats[nearest])
}

/// A framerate given as a fraction, rounded to whole frames per second, halves up.
pub open spec fn rounded(numerator: u32, denominator: u32) -> int {
    (2 * numerator + denominator) / (2 * denominator)
}

/// Round a framerate given as a fraction to whole frames per second.
pub fn round_framerate(numerator: u32, denominator: u32) -> (fps: u32)
    requires
        denominator > 0,
    ensures
        fps == rounded(numerator, denominator),
{
    let twice: u64 = 2 * numerator as u64 + denominator as u64;
    proof {
        assert((2 * numerator + denominator) / (2 * denominator) <= u32::MAX) by (nonlinear_arith)
            requires
                0 <= numerator <= u32::MAX,
                0 < denominator <= u32::MAX,
        ;
    }
    (twice / (2 * denominator as u64)) as u32
}

/// Two 32-bit numbers packed into one, the first in the upper half.
pub open spec fn packed(high: u32, low: u32) -> int {
    high * 0x1_0000_0000 + low
}

/// Pack two 32-bit numbers into one, the first into the upper half.
pub fn pack_u32_pair(high: u32, low: u32) -> (pair: u64)
    ensures
        pair == packed(high, low),
{
    high as u64 * 0x1_0000_0000 + low as u64
}

/// Take two packed 32-bit numbers apart again.
pub fn unpack_u32_pair(pair: u64) -> (halves: (u32, u32))
    ensures
        packed(halves.0, halves.1) == pair,
{
    ((pair / 0x1_0000_0000) as u32, (pair % 0x1_0000_0000) as u32)
}

/// Packing loses nothing: two different pairs never pack to the same number.
pub proof fn packing_loses_nothing(high: u32, low: u32, other_high: u32, other_low: u32)
    requires
        packed(high, low) == packed(other_high, other_low),
    ensures
        high == other_high,
        low == other_low,
{
}

/// A capture mode as a driver lists it.
#[derive(Clone, Copy, Debug)]
pub struct NativeMode {
    /// Width and height, if the driver says.
    pub size: Option<(u32, u32)>,
    /// Framerate as numerator and denominator, if the driver says.
    pub rate: Option<(u32, u32)>,
}

/// The capture mode that was picked.
#[derive(Clone, Copy, Debug, PartialEq, Eq, Structural)]
pub struct NativeMatch {
    /// Its resolution.
    pub resolution: Resolution,
    /// Its framerate in whole frames per second.
    pub framerate: u32,
}

/// A mode's framerate in whole frames per second, or 30 where the driver does not say.
pub open spec fn mode_framerate(rate: Option<(u32, u32)>) -> int {
    match rate {
        None => 30,
        Some((numerator, denominator)) => if denominator == 0 {
            30
        } else {
            rounded(numerator, denominator)
        },
    }
}

/// Whether a mode has the size that was asked for.
pub open spec fn size_matches(modes: Seq<NativeMode>, target: Resolution) -> spec_fn(int) -> bool {
    |i: int| modes[i].size == Some((target.width, target.height))
}

/// How far a mode's size is from the one that was asked for. A mode without a size is
/// farther than any other.
pub open spec fn size_delta(modes: Seq<NativeMode>, target: Resolution) -> spec_fn(int) -> int {
    |i: int|
        match modes[i].size {
            None => 0x1_0000_0000_0000,
            Some((width, height)) => resolution_delta(Resolution { width, height }, target),
        }
}

/// Whether `index` is the place of the mode to use: the first of the size that was asked
/// for, or else the first of those nearest to it.
pub open spec fn is_native_pick(modes: Seq<NativeMode>, target: Resolution, index: int) -> bool {
    let count = modes.len() as int;
    &&& 0 <= index < count
    &&& modes[index].size is Some
    &&& pick::is_first(count, size_matches(modes, target), index) || (pick::none_pass(
        count,
        size_matches(modes, target),
    ) && pick::is_first_least(count, size_delta(modes, target), index))
}

/// Pick the capture mode to use out of those that a driver lists, or `None` where none of
/// them has a size.
pub fn pick_native_mode(modes: &Vec<NativeMode>, target: Resolution) -> (picked: Option<
    NativeMatch,
>)
    ensures
        match picked {
            Some(found) => exists|index: int|
                {
                    &&& #[trigger] is_native_pick(modes@, target, index)
                    &&& modes@[index].size == Some(
                        (found.resolution.width, found.resolution.height),
                    )
                    &&& found.framerate == mode_framerate(modes@[index].rate)
                },
            None => forall|i: int| 0 <= i < modes@.len() ==> (#[trigger] modes@[i]).size is None,
        },
{
    let ghost matching = size_matches(modes@, target);
    let ghost key = size_delta(modes@, target);
    let mut matches: Vec<bool> = Vec::new();
    let mut deltas: Vec<u64> = Vec::new();
    let mut i: usize = 0;
    while i < modes.len()
        invariant
            i <= modes.len(),
            matching == size_matches(modes@, target),
            key == size_delta(modes@, target),
            matches@.len() == i,
            deltas@.len() == i,
            forall|j: int| 0 <= j < i ==> #[trigger] matches@[j] == matching(j),
            forall|j: int| 0 <= j < i ==> #[trigger] deltas@[j] == key(j),
        decreases modes.len() - i,
    {
        let (same, apart): (bool, u64) = match modes[i].size {
            None => (false, 0x1_0000_0000_0000),
            Some((width, height)) => (
                width == target.width && height == target.height,
                resolution_distance(Resolution { width, height }, target),
            ),
        };
        matches.push(same);
        deltas.push(apart);
        i = i + 1;
    }
    let place: usize = match first_true(&matches) {
        Some(place) => {
            assert(pick::is_first(modes@.len() as int, matching, place as int)) by {
                let passed = |i: int| matches@[i];
                assert(passed(place as int));
                assert forall|j: int| 0 <= j < place implies !#[trigger] matching(j) by {
                    assert(!passed(j));
                }
            }
            place
        },
        None => {
            assert(pick::none_pass(modes@.len() as int, matching)) by {
                let passed = |i: int| matches@[i];
                assert forall|j: int| 0 <= j < modes@.len() implies !#[trigger] matching(j) by {
                    assert(!passed(j));
                }
            }
            match first_least(&deltas) {
                Some(place) => {
                    assert(pick::is_first_least(modes@.len() as int, key, place as int)) by {
                        let least = |i: int| deltas@[i] as int;
                        assert forall|j: int| 0 <= j < modes@.len() implies key(place as int)
                            <= #[trigger] key(j) by {
                            assert(least(place as int) <= least(j));
                        }
                        assert forall|j: int| 0 <= j < place implies key(place as int)
                            < #[trigger] key(j) by {
                            assert(least(place as int) < least(j));
                        }
                    }
                    place
                },
                None => {
                    return None;
                },
            }
        },
    };
    match modes[place].size {
        None => {
            assert forall|j: int| 0 <= j < modes@.len() implies (#[trigger] modes@[j]).size is None by {
                assert(key(place as int) <= key(j));
            }
            None
        },
        Some((width, height)) => {
            assert(is_native_pick(modes@, target, place as int));
            let framerate: u32 = match modes[place].rate {
                None => 30,
                Some((numerator, denominator)) => if denominator == 0 {
                    30
                } else {
                    round_framerate(numerator, denominator)
                },
            };
            Some(NativeMatch { resolution: Resolution { width, height }, framerate })
        },
    }
}

/// The configuration that a driver ended up with: what it reports, or what was asked of it
/// where it does not say, and never less than one frame per second.
pub fn applied_config(
    picked: NativeMatch,
    reported_size: Option<(u32, u32)>,
    reported_rate: Option<(u32, u32)>,
    pixel_format: PixelFormat,
) -> (config: StreamConfig)
    ensures
        config.pixel_format == pixel_format,
        (config.resolution.width, config.resolution.height) == (match reported_size {
            Some(size) => size,
            None => (picked.resolution.width, picked.resolution.height),
        }),
        config.framerate == ({
            let fallback = if picked.framerate < 1 {
                1int
            } else {
                picked.framerate as int
            };
            let fps = match reported_rate {
                None => fallback,
                Some((numerator, denominator)) => if denominator == 0 {
                    fallback
                } else {
                    rounded(numerator, denominator)
                },
            };
            if fps < 1 {
                1
            } else {
                fps
            }
        }),
{
    let fallback: u32 = if picked.framerate < 1 {
        1
    } else {
        picked.framerate
    };
    let (width, height): (u32, u32) = match reported_size {
        Some(size) => size,
        None => (picked.resolution.width, picked.resolution.height),
    };
    let fps: u32 = match reported_rate {
        None => fallback,
        Some((numerator, denominator)) => if denominator == 0 {
            fallback
        } else {
            round_framerate(numerator, denominator)
        },
    };
    StreamConfig {
        resolution: Resolution { width, height },
        framerate: if fps < 1 {
            1
        } else {
            fps
        },
        pixel_format,
    }
}

} // verus!

//! What holds of format negotiation.

use crate::macos;
use crate::macos::FormatChoice;
use crate::negotiation;
use crate::negotiation::{NativeMatch, NativeMode};
use crate::pick;
use crate::types::{Capabilities, FormatDescriptor, FramerateRange, PixelFormat, Resolution};
use crate::types::StreamConfig;
use vstd::arithmetic::div_mod;
use vstd::prelude::*;

verus! {

/// There is only one closest format.
pub proof fn best_format_is_unique(
    formats: Seq<FormatDescriptor>,
    config: StreamConfig,
    left: int,
    right: int,
)
    requires
        negotiation::is_best(formats, config, left),
        negotiation::is_best(formats, config, right),
    ensures
        left == right,
{
    let exact = negotiation::exact_match(formats, config);
    let same = negotiation::same_resolution(formats, config);
    let key = negotiation::delta(formats, config);
    assert(exact(left) == exact(right));
    assert(same(left) == same(right));
    assert(key(left) == key(right));
}

/// What was asked for is granted where the device has it: if any format matches exactly,
/// then so does the closest one.
pub proof fn exact_request_is_granted(
    formats: Seq<FormatDescriptor>,
    config: StreamConfig,
    place: int,
    best: int,
)
    requires
        0 <= place < formats.len(),
        formats[place].pixel_format == config.pixel_format,
        formats[place].resolution == config.resolution,
        negotiation::holds(formats[place].framerate_range, config.framerate),
        negotiation::is_best(formats, config, best),
    ensures
        formats[best].pixel_format == config.pixel_format,
        formats[best].resolution == config.resolution,
        negotiation::holds(formats[best].framerate_range, config.framerate),
{
    let exact = negotiation::exact_match(formats, config);
    assert(exact(place));
    assert(exact(best));
}

/// No format is nearer to the resolution that was asked for than the closest one.
pub proof fn best_format_is_nearest(
    formats: Seq<FormatDescriptor>,
    config: StreamConfig,
    place: int,
    best: int,
)
    requires
        0 <= place < formats.len(),
        negotiation::is_best(formats, config, best),
    ensures
        negotiation::resolution_delta(formats[best].resolution, config.resolution)
            <= negotiation::resolution_delta(formats[place].resolution, config.resolution),
{
    let key = negotiation::delta(formats, config);
    assert(key(best) <= key(place));
}

/// There is only one capture mode to use.
pub proof fn native_pick_is_unique(
    modes: Seq<NativeMode>,
    target: Resolution,
    left: int,
    right: int,
)
    requires
        negotiation::is_native_pick(modes, target, left),
        negotiation::is_native_pick(modes, target, right),
    ensures
        left == right,
{
    let matching = negotiation::size_matches(modes, target);
    let key = negotiation::size_delta(modes, target);
    assert(matching(left) == matching(right));
    assert(key(left) == key(right));
}

/// A session runs at the size that was asked for where the device has it.
pub proof fn requested_size_is_applied(
    choices: Seq<FormatChoice>,
    target: Resolution,
    place: int,
    selected: int,
)
    requires
        0 <= place < choices.len(),
        choices[place].resolution == target,
        macos::is_selected(choices, target, selected),
    ensures
        choices[selected].resolution == target,
{
    let same = macos::same_size(choices, target);
    assert(same(place));
    if pick::is_first(choices.len() as int, macos::ideal(choices, target), selected) {
        assert(macos::ideal(choices, target)(selected));
    } else {
        assert(same(selected));
    }
}

/// How much larger one of two numbers is than the other.
pub open spec fn gap(left: u32, right: u32) -> int {
    if left > right {
        left - right
    } else {
        right - left
    }
}

/// Two resolutions are as far apart as their widths and their heights are together, so never
/// less than either, and not at all only where they are the same.
pub proof fn widths_and_heights_add_up(left: Resolution, right: Resolution, delta: u64)
    requires
        call_ensures(negotiation::resolution_distance, (left, right), delta),
    ensures
        delta == gap(left.width, right.width) + gap(left.height, right.height),
        delta >= left.width - right.width,
        delta >= right.width - left.width,
        delta >= left.height - right.height,
        delta >= right.height - left.height,
        delta == 0 <==> left == right,
{
}

/// How far a format is from a request: not at all where it is exactly what was asked for, less
/// than any other where it has the resolution, and otherwise by how much its width and its
/// height differ.
pub open spec fn misses_by(format: FormatDescriptor, config: StreamConfig) -> int {
    let (low, high) = (format.framerate_range.min, format.framerate_range.max);
    if format.resolution.width != config.resolution.width || format.resolution.height
        != config.resolution.height {
        1 + gap(format.resolution.width, config.resolution.width) + gap(
            format.resolution.height,
            config.resolution.height,
        )
    } else if format.pixel_format == config.pixel_format && low.numerator <= config.framerate
        * low.denominator && config.framerate * high.denominator <= high.numerator {
        0
    } else {
        1
    }
}

/// The closest format is one of the device's, none of which misses the request by less, and
/// none before it by as little. There is one unless the device has no formats.
pub proof fn no_format_is_closer(
    capabilities: Capabilities,
    config: StreamConfig,
    best: Option<FormatDescriptor>,
)
    requires
        call_ensures(negotiation::best_format, (&capabilities, &config), best),
    ensures
        best is None <==> capabilities.formats@.len() == 0,
        best matches Some(format) ==> exists|index: int|
            {
                &&& 0 <= index < capabilities.formats@.len()
                &&& format == #[trigger] capabilities.formats@[index]
                &&& forall|i: int|
                    0 <= i < capabilities.formats@.len() ==> misses_by(format, config)
                        <= misses_by(#[trigger] capabilities.formats@[i], config)
                &&& forall|i: int|
                    0 <= i < index ==> misses_by(format, config) < misses_by(
                        #[trigger] capabilities.formats@[i],
                        config,
                    )
            },
{
    if let Some(format) = best {
        let formats = capabilities.formats@;
        let index = choose|index: int|
            #[trigger] negotiation::is_best(formats, config, index) && format == formats[index];
        let exact = negotiation::exact_match(formats, config);
        let same = negotiation::same_resolution(formats, config);
        let key = negotiation::delta(formats, config);
        assert forall|i: int| 0 <= i < formats.len() implies misses_by(format, config) <= misses_by(
            #[trigger] formats[i],
            config,
        ) && (i < index ==> misses_by(format, config) < misses_by(formats[i], config)) by {
            assert(exact(i) == (misses_by(formats[i], config) == 0));
            assert(same(i) == (misses_by(formats[i], config) <= 1));
            assert(!same(i) ==> misses_by(formats[i], config) == 1 + key(i));
            assert(exact(index) == (misses_by(format, config) == 0));
            assert(same(index) == (misses_by(format, config) <= 1));
            assert(!same(index) ==> misses_by(format, config) == 1 + key(index));
            assert(key(index) <= key(i) || same(index));
        }
    }
}

/// A range of whole framerates holds those between its ends, and the ends themselves.
pub proof fn framerates_lie_between(
    range: FramerateRange,
    fps: u32,
    supported: bool,
    low: int,
    high: int,
)
    requires
        call_ensures(negotiation::supports_framerate, (&range, fps), supported),
        range.min.denominator > 0,
        range.max.denominator > 0,
        range.min.numerator == low * range.min.denominator,
        range.max.numerator == high * range.max.denominator,
    ensures
        supported == (low <= fps <= high),
{
    let (below, above) = (range.min.denominator as int, range.max.denominator as int);
    assert((low * below <= fps * below) == (low <= fps)) by (nonlinear_arith)
        requires
            below > 0,
    ;
    assert((fps * above <= high * above) == (fps <= high)) by (nonlinear_arith)
        requires
            above > 0,
    ;
}

/// A framerate that is no whole number is rounded to the nearest one, halves up.
pub proof fn framerates_are_rounded(numerator: u32, denominator: u32, fps: u32)
    requires
        denominator > 0,
        call_ensures(negotiation::round_framerate, (numerator, denominator), fps),
    ensures
        2 * (fps * denominator) <= 2 * numerator + denominator,
        2 * numerator < 2 * (fps * denominator) + denominator,
{
    let (top, bottom) = (2 * numerator + denominator, 2 * denominator);
    div_mod::lemma_fundamental_div_mod(top, bottom);
    assert(bottom * fps == 2 * (fps * denominator)) by (nonlinear_arith)
        requires
            bottom == 2 * denominator,
    ;
}

/// Packing two numbers and taking them apart gives them back, the first from the upper half.
pub proof fn packed_numbers_come_apart(high: u32, low: u32, pair: u64, halves: (u32, u32))
    requires
        call_ensures(negotiation::pack_u32_pair, (high, low), pair),
        call_ensures(negotiation::unpack_u32_pair, (pair,), halves),
    ensures
        halves == (high, low),
        pair / 0x1_0000_0000 == high,
        pair % 0x1_0000_0000 == low,
{
}

/// How far a capture mode of known size is from the size that was asked for.
pub open spec fn mode_misses_by(size: (u32, u32), target: Resolution) -> int {
    gap(size.0, target.width) + gap(size.1, target.height)
}

/// The capture mode to use is one that says its size, none of the others that do is nearer in
/// width and height together, and none before it is as near. There is one unless none does.
pub proof fn no_mode_is_closer(
    modes: Vec<NativeMode>,
    target: Resolution,
    picked: Option<NativeMatch>,
)
    requires
        call_ensures(negotiation::pick_native_mode, (&modes, target), picked),
    ensures
        picked is None <==> forall|i: int|
            0 <= i < modes@.len() ==> (#[trigger] modes@[i]).size is None,
        picked matches Some(found) ==> exists|index: int|
            {
                let size = (found.resolution.width, found.resolution.height);
                &&& 0 <= index < modes@.len()
                &&& (#[trigger] modes@[index]).size == Some(size)
                &&& forall|i: int|
                    0 <= i < modes@.len() ==> ((#[trigger] modes@[i]).size matches Some(other)
                        ==> mode_misses_by(size, target) <= mode_misses_by(other, target) && (i
                        < index ==> mode_misses_by(size, target) < mode_misses_by(other, target)))
            },
{
    if let Some(found) = picked {
        let size = (found.resolution.width, found.resolution.height);
        let matching = negotiation::size_matches(modes@, target);
        let key = negotiation::size_delta(modes@, target);
        let index = choose|index: int|
            {
                &&& #[trigger] negotiation::is_native_pick(modes@, target, index)
                &&& modes@[index].size == Some((found.resolution.width, found.resolution.height))
                &&& found.framerate == negotiation::mode_framerate(modes@[index].rate)
            };
        assert forall|i: int| 0 <= i < modes@.len() implies ((#[trigger] modes@[i]).size matches Some(
            other,
        ) ==> mode_misses_by(size, target) <= mode_misses_by(other, target) && (i < index
            ==> mode_misses_by(size, target) < mode_misses_by(other, target))) by {
            if let Some(other) = modes@[i].size {
                assert(matching(i) == (mode_misses_by(other, target) == 0));
                assert(matching(index) == (mode_misses_by(size, target) == 0));
                assert(key(i) == mode_misses_by(other, target));
                assert(key(index) == mode_misses_by(size, target));
            }
        }
        assert(modes@[index].size is Some);
    }
}

/// A mode's framerate is the one the driver gives, rounded, and 30 where it gives none.
pub proof fn picked_framerates_are_the_modes_own(
    mode: NativeMode,
    modes: Vec<NativeMode>,
    target: Resolution,
    picked: Option<NativeMatch>,
)
    requires
        modes@ == seq![mode],
        mode.size is Some,
        call_ensures(negotiation::pick_native_mode, (&modes, target), picked),
    ensures
        picked matches Some(found) && match mode.rate {
            Some((numerator, denominator)) if denominator > 0 => 2 * (found.framerate * denominator)
                <= 2 * numerator + denominator && 2 * numerator < 2 * (found.framerate
                * denominator) + denominator,
            _ => found.framerate == 30,
        },
{
    assert(modes@[0] == mode);
    let found = picked->0;
    let index = choose|index: int|
        {
            &&& #[trigger] negotiation::is_native_pick(modes@, target, index)
            &&& modes@[index].size == Some((found.resolution.width, found.resolution.height))
            &&& found.framerate == negotiation::mode_framerate(modes@[index].rate)
        };
    assert(index == 0);
    if let Some((numerator, denominator)) = mode.rate {
        if denominator > 0 {
            let (top, bottom) = (2 * numerator + denominator, 2 * denominator);
            div_mod::lemma_fundamental_div_mod(top, bottom);
            assert(bottom * found.framerate == 2 * (found.framerate * denominator))
                by (nonlinear_arith)
                requires
                    bottom == 2 * denominator,
            ;
        }
    }
}

/// How far a device format is from what was asked for: not at all where it has the size and
/// the framerate, less than any other where it has the size, and otherwise by how much its
/// width and its height differ.
pub open spec fn choice_misses_by(choice: FormatChoice, target: Resolution) -> int {
    if choice.resolution.width != target.width || choice.resolution.height != target.height {
        1 + gap(choice.resolution.width, target.width) + gap(
            choice.resolution.height,
            target.height,
        )
    } else if choice.supports_framerate {
        0
    } else {
        1
    }
}

/// No device format is closer to what was asked for than the selected one, and none before it
/// is as close.
pub proof fn no_choice_is_closer(
    choices: Seq<FormatChoice>,
    target: Resolution,
    selected: int,
    place: int,
)
    requires
        macos::is_selected(choices, target, selected),
        0 <= place < choices.len(),
    ensures
        0 <= selected < choices.len(),
        choice_misses_by(choices[selected], target) <= choice_misses_by(choices[place], target),
        place < selected ==> choice_misses_by(choices[selected], target) < choice_misses_by(
            choices[place],
            target,
        ),
{
    let ideal = macos::ideal(choices, target);
    let same = macos::same_size(choices, target);
    let key = macos::size_delta(choices, target);
    assert(ideal(place) == (choice_misses_by(choices[place], target) == 0));
    assert(same(place) == (choice_misses_by(choices[place], target) <= 1));
    assert(ideal(selected) == (choice_misses_by(choices[selected], target) == 0));
    assert(same(selected) == (choice_misses_by(choices[selected], target) <= 1));
    assert(!same(place) ==> choice_misses_by(choices[place], target) == 1 + key(place));
    assert(!same(selected) ==> choice_misses_by(choices[selected], target) == 1 + key(selected));
}

/// A driver's word counts: the session runs at the size and the framerate that it reports, and
/// at those of the picked mode where it reports none, but never at less than a frame a second.
pub proof fn drivers_have_the_last_word(
    picked: NativeMatch,
    size: Option<(u32, u32)>,
    rate: Option<(u32, u32)>,
    format: PixelFormat,
    config: StreamConfig,
)
    requires
        call_ensures(negotiation::applied_config, (picked, size, rate, format), config),
    ensures
        config.pixel_format == format,
        size matches Some((width, height)) ==> config.resolution.width == width
            && config.resolution.height == height,
        size is None ==> config.resolution == picked.resolution,
        config.framerate >= 1,
        rate is None && picked.framerate >= 1 ==> config.framerate == picked.framerate,
        rate matches Some((numerator, denominator)) ==> denominator > 0 && numerator >= denominator
            ==> 2 * (config.framerate * denominator) <= 2 * numerator + denominator && 2 * numerator
            < 2 * (config.framerate * denominator) + denominator,
{
    if let Some((numerator, denominator)) = rate {
        if denominator > 0 && numerator >= denominator {
            let (top, bottom) = (2 * numerator + denominator, 2 * denominator);
            let fps = negotiation::rounded(numerator, denominator);
            div_mod::lemma_fundamental_div_mod(top, bottom);
            div_mod::lemma_div_is_ordered(bottom, top, bottom);
            div_mod::lemma_div_by_self(bottom);
            assert(config.framerate == fps);
            assert(bottom * fps == 2 * (fps * denominator)) by (nonlinear_arith)
                requires
                    bottom == 2 * denominator,
            ;
        }
    }
}

/// A session on the other kind of driver runs at the selected format's own size, delivers BGRA,
/// and keeps the framerate that was asked for unless one was set.
pub proof fn selected_formats_are_applied(
    choices: Vec<FormatChoice>,
    selected: usize,
    rate: Option<(u32, u32)>,
    requested: StreamConfig,
    applied: StreamConfig,
)
    requires
        selected < choices@.len(),
        call_ensures(macos::applied_config, (&choices, selected, rate, requested), applied),
    ensures
        applied.resolution == choices@[selected as int].resolution,
        applied.pixel_format == PixelFormat::Bgra8,
        rate is None ==> applied.framerate == requested.framerate,
{
}

} // verus!

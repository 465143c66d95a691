//! What holds of a camera's controls and of focus sweeps.

use crate::autofocus::AutofocusState;
use crate::controls;
use crate::controls::{AutoMode, Capability, ControlCapabilities, ControlField, ControlKind};
use crate::controls::{ControlRange, Controls, NumericRow, RowStatus};
use vstd::prelude::*;

verus! {

/// Each control stands in the field that is called after it, in a device's capabilities and
/// among the values.
pub proof fn controls_are_called_what_they_are<V>(
    capabilities: ControlCapabilities<V>,
    values: Controls<V>,
)
    ensures
        capabilities.range(ControlField::Focus) == capabilities.focus,
        capabilities.range(ControlField::Exposure) == capabilities.exposure,
        capabilities.range(ControlField::WhiteBalanceTemperature)
            == capabilities.white_balance_temperature,
        capabilities.range(ControlField::Brightness) == capabilities.brightness,
        capabilities.range(ControlField::Contrast) == capabilities.contrast,
        capabilities.range(ControlField::Saturation) == capabilities.saturation,
        capabilities.range(ControlField::Sharpness) == capabilities.sharpness,
        capabilities.range(ControlField::Gain) == capabilities.gain,
        capabilities.range(ControlField::BacklightCompensation)
            == capabilities.backlight_compensation,
        capabilities.range(ControlField::Pan) == capabilities.pan,
        capabilities.range(ControlField::Tilt) == capabilities.tilt,
        capabilities.range(ControlField::Zoom) == capabilities.zoom,
        capabilities.auto(AutoMode::Focus) == capabilities.auto_focus,
        capabilities.auto(AutoMode::Exposure) == capabilities.auto_exposure,
        capabilities.auto(AutoMode::WhiteBalance) == capabilities.auto_white_balance,
        values.value(ControlField::Focus) == values.focus,
        values.value(ControlField::Exposure) == values.exposure,
        values.value(ControlField::WhiteBalanceTemperature) == values.white_balance_temperature,
        values.value(ControlField::Brightness) == values.brightness,
        values.value(ControlField::Contrast) == values.contrast,
        values.value(ControlField::Saturation) == values.saturation,
        values.value(ControlField::Sharpness) == values.sharpness,
        values.value(ControlField::Gain) == values.gain,
        values.value(ControlField::BacklightCompensation) == values.backlight_compensation,
        values.value(ControlField::Pan) == values.pan,
        values.value(ControlField::Tilt) == values.tilt,
        values.value(ControlField::Zoom) == values.zoom,
        values.auto(AutoMode::Focus) == values.auto_focus,
        values.auto(AutoMode::Exposure) == values.auto_exposure,
        values.auto(AutoMode::WhiteBalance) == values.auto_white_balance,
{
}

/// A device's list of capabilities has a row for every control, each once, and says of it what
/// the device does.
pub proof fn every_control_has_its_row<V: Copy>(
    capabilities: ControlCapabilities<V>,
    field: ControlField,
    mode: AutoMode,
    left: int,
    right: int,
)
    ensures
        ({
            let rows = controls::rows(capabilities);
            &&& rows.contains(
                (ControlKind::Number(field), Capability::Range(capabilities.range(field))),
            )
            &&& rows.contains((ControlKind::Auto(mode), Capability::Toggle(capabilities.auto(mode))))
            &&& rows.contains(
                (
                    ControlKind::PowerLineFrequency,
                    Capability::Menu(capabilities.power_line_frequency),
                ),
            )
            &&& 0 <= left < right < rows.len() ==> rows[left].0 != rows[right].0
        }),
{
    let rows = controls::rows(capabilities);
    let place = match field {
        ControlField::Focus => 0int,
        ControlField::Exposure => 2,
        ControlField::WhiteBalanceTemperature => 4,
        ControlField::Brightness => 6,
        ControlField::Contrast => 7,
        ControlField::Saturation => 8,
        ControlField::Sharpness => 9,
        ControlField::Gain => 10,
        ControlField::BacklightCompensation => 11,
        ControlField::Pan => 13,
        ControlField::Tilt => 14,
        ControlField::Zoom => 15,
    };
    assert(rows[place] == (
        ControlKind::Number(field),
        Capability::Range(capabilities.range(field)),
    ));
    let mode_place = match mode {
        AutoMode::Focus => 1int,
        AutoMode::Exposure => 3,
        AutoMode::WhiteBalance => 5,
    };
    assert(rows[mode_place] == (
        ControlKind::Auto(mode),
        Capability::<V>::Toggle(capabilities.auto(mode)),
    ));
    assert(rows[12] == (
        ControlKind::PowerLineFrequency,
        Capability::<V>::Menu(capabilities.power_line_frequency),
    ));
}

proof fn shown_so_far<V>(
    capabilities: ControlCapabilities<V>,
    count: nat,
    field: ControlField,
    range: ControlRange<V>,
)
    requires
        count <= 12,
    ensures
        controls::shown_fields(capabilities, count).contains((field, range)) <==> capabilities.range(
            field,
        ) == Some(range) && exists|i: int| 0 <= i < count && controls::all_fields()[i] == field,
    decreases count,
{
    if count > 0 {
        let before = (count - 1) as nat;
        let shorter = controls::shown_fields(capabilities, before);
        let all = controls::shown_fields(capabilities, count);
        let last = controls::all_fields()[before as int];
        shown_so_far(capabilities, before, field, range);
        if all.contains((field, range)) {
            let i = choose|i: int| 0 <= i < all.len() && all[i] == (field, range);
            if i < shorter.len() {
                assert(shorter[i] == (field, range));
            } else {
                assert(last == field);
            }
        }
        if shorter.contains((field, range)) {
            let i = choose|i: int| 0 <= i < shorter.len() && shorter[i] == (field, range);
            assert(all[i] == (field, range));
        }
        if last == field && capabilities.range(field) == Some(range) {
            assert(all[all.len() - 1] == (field, range));
        }
    }
}

/// A control can be set exactly where the device has it, within the device's range.
pub proof fn sliders_are_the_devices_controls<V: Copy>(
    capabilities: ControlCapabilities<V>,
    list: Vec<(ControlField, ControlRange<V>)>,
    field: ControlField,
    range: ControlRange<V>,
)
    requires
        call_ensures(controls::numeric_rows::<V>, (&capabilities,), list),
    ensures
        list@.contains((field, range)) <==> capabilities.range(field) == Some(range),
{
    shown_so_far(capabilities, 12, field, range);
    let place = match field {
        ControlField::Focus => 0int,
        ControlField::Exposure => 1,
        ControlField::WhiteBalanceTemperature => 2,
        ControlField::Brightness => 3,
        ControlField::Contrast => 4,
        ControlField::Saturation => 5,
        ControlField::Sharpness => 6,
        ControlField::Gain => 7,
        ControlField::BacklightCompensation => 8,
        ControlField::Pan => 9,
        ControlField::Tilt => 10,
        ControlField::Zoom => 11,
    };
    assert(controls::all_fields()[place] == field);
}

/// Focus, exposure and white balance are out of the user's hands while the camera is about to
/// take care of them, and no other control ever is.
pub proof fn only_automatic_controls_are_locked<V: Copy>(
    range: ControlRange<V>,
    field: ControlField,
    current: Controls<V>,
    pending: Controls<V>,
    row: NumericRow<V>,
)
    requires
        call_ensures(controls::numeric_row::<V>, (&range, field, &current, &pending), row),
    ensures
        row.locked == match field {
            ControlField::Focus => pending.auto_focus == Some(true),
            ControlField::Exposure => pending.auto_exposure == Some(true),
            ControlField::WhiteBalanceTemperature => pending.auto_white_balance == Some(true),
            _ => false,
        },
        row.locked <==> row.status is AutoOn,
        pending.value(field) matches Some(next) ==> row.enabled && row.value == next,
        pending.value(field) is None ==> !row.enabled && row.value == row.fallback,
        current.value(field) is None ==> row.fallback == range.default && !(row.status is Now),
        current.value(field) matches Some(now) ==> row.fallback == now && (!row.locked
            ==> row.status == RowStatus::Now(now)),
{
}

/// The best step of a sweep that is over is one that was measured, no step scored more, and
/// none before it as much; there is none exactly where nothing could be measured.
pub proof fn sweeps_lock_the_best_step(state: AutofocusState, step: int)
    requires
        state.valid(),
        0 <= step < state.scores@.len(),
    ensures
        state.best is None ==> state.scores@[step] is None,
        state.best matches Some((place, best)) ==> {
            &&& place < state.scores@.len()
            &&& state.scores@[place as int] == Some(best)
            &&& state.scores@[step] matches Some(score) ==> score < best || score == best && place
                <= step
        },
{
    assert(state.scores@[step] is None || state.scores@[step] is Some);
}

} // verus!

//! Runtime camera controls: focus, exposure, brightness and the like.
//!
//! `V` is the type of a control's value throughout. Nothing here looks into a value.

use crate::error::Error;
use crate::text::append;
use crate::types::Device;
use vstd::prelude::*;

verus! {

/// The values a control takes, in the platform's native unit.
#[derive(Clone, Copy, Debug)]
pub struct ControlRange<V> {
    /// Lowest value.
    pub min: V,
    /// Highest value.
    pub max: V,
    /// Distance between values, zero where the control is continuous.
    pub step: V,
    /// Value out of the box.
    pub default: V,
}

/// Which controls a device exposes, and their native ranges.
///
/// Fields are `None` for controls the platform / device does not expose.
#[derive(Clone, Copy, Debug)]
pub struct ControlCapabilities<V> {
    /// Range of the focus.
    pub focus: Option<ControlRange<V>>,
    /// Range of the exposure.
    pub exposure: Option<ControlRange<V>>,
    /// Range of the white balance temperature.
    pub white_balance_temperature: Option<ControlRange<V>>,
    /// Range of the brightness.
    pub brightness: Option<ControlRange<V>>,
    /// Range of the contrast.
    pub contrast: Option<ControlRange<V>>,
    /// Range of the saturation.
    pub saturation: Option<ControlRange<V>>,
    /// Range of the sharpness.
    pub sharpness: Option<ControlRange<V>>,
    /// Range of the gain.
    pub gain: Option<ControlRange<V>>,
    /// Range of the backlight compensation.
    pub backlight_compensation: Option<ControlRange<V>>,
    /// Range of the pan.
    pub pan: Option<ControlRange<V>>,
    /// Range of the tilt.
    pub tilt: Option<ControlRange<V>>,
    /// Range of the zoom.
    pub zoom: Option<ControlRange<V>>,
    /// Whether the focus can be left to the camera.
    pub auto_focus: Option<bool>,
    /// Whether the exposure can be left to the camera.
    pub auto_exposure: Option<bool>,
    /// Whether the white balance can be left to the camera.
    pub auto_white_balance: Option<bool>,
    /// Whether the device has a menu of power line frequencies.
    pub power_line_frequency: bool,
}

/// Values for controls. `None` leaves a control alone.
#[derive(Clone, Copy, Debug)]
pub struct Controls<V> {
    /// The focus.
    pub focus: Option<V>,
    /// The exposure.
    pub exposure: Option<V>,
    /// The white balance temperature.
    pub white_balance_temperature: Option<V>,
    /// The brightness.
    pub brightness: Option<V>,
    /// The contrast.
    pub contrast: Option<V>,
    /// The saturation.
    pub saturation: Option<V>,
    /// The sharpness.
    pub sharpness: Option<V>,
    /// The gain.
    pub gain: Option<V>,
    /// The backlight compensation.
    pub backlight_compensation: Option<V>,
    /// The pan.
    pub pan: Option<V>,
    /// The tilt.
    pub tilt: Option<V>,
    /// The zoom.
    pub zoom: Option<V>,
    /// Whether the focus is left to the camera.
    pub auto_focus: Option<bool>,
    /// Whether the exposure is left to the camera.
    pub auto_exposure: Option<bool>,
    /// Whether the white balance is left to the camera.
    pub auto_white_balance: Option<bool>,
}

/// A control that takes a number.
#[derive(Clone, Copy, Debug, PartialEq, Eq, Structural)]
pub enum ControlField {
    /// The focus.
    Focus,
    /// The exposure.
    Exposure,
    /// The white balance temperature.
    WhiteBalanceTemperature,
    /// The brightness.
    Brightness,
    /// The contrast.
    Contrast,
    /// The saturation.
    Saturation,
    /// The sharpness.
    Sharpness,
    /// The gain.
    Gain,
    /// The backlight compensation.
    BacklightCompensation,
    /// The pan.
    Pan,
    /// The tilt.
    Tilt,
    /// The zoom.
    Zoom,
}

/// A control that the camera can take care of by itself.
#[derive(Clone, Copy, Debug, PartialEq, Eq, Structural)]
pub enum AutoMode {
    /// The focus.
    Focus,
    /// The exposure.
    Exposure,
    /// The white balance.
    WhiteBalance,
}

/// A row of a device's list of capabilities.
#[derive(Clone, Copy, Debug, PartialEq, Eq, Structural)]
pub enum ControlKind {
    /// A control that takes a number.
    Number(ControlField),
    /// A control that the camera can take care of by itself.
    Auto(AutoMode),
    /// The menu of power line frequencies.
    PowerLineFrequency,
}

/// What a device says of a control.
#[derive(Clone, Copy, Debug)]
pub enum Capability<V> {
    /// The range of a control that takes a number, if the device has it.
    Range(Option<ControlRange<V>>),
    /// Whether the camera can take care of a control, if the device has it.
    Toggle(Option<bool>),
    /// Whether the device has a menu.
    Menu(bool),
}

impl<V> ControlCapabilities<V> {
    /// The range of a control.
    pub open spec fn range(self, field: ControlField) -> Option<ControlRange<V>> {
        match field {
            ControlField::Focus => self.focus,
            ControlField::Exposure => self.exposure,
            ControlField::WhiteBalanceTemperature => self.white_balance_temperature,
            ControlField::Brightness => self.brightness,
            ControlField::Contrast => self.contrast,
            ControlField::Saturation => self.saturation,
            ControlField::Sharpness => self.sharpness,
            ControlField::Gain => self.gain,
            ControlField::BacklightCompensation => self.backlight_compensation,
            ControlField::Pan => self.pan,
            ControlField::Tilt => self.tilt,
            ControlField::Zoom => self.zoom,
        }
    }

    /// Whether the camera can take care of a control by itself.
    pub open spec fn auto(self, mode: AutoMode) -> Option<bool> {
        match mode {
            AutoMode::Focus => self.auto_focus,
            AutoMode::Exposure => self.auto_exposure,
            AutoMode::WhiteBalance => self.auto_white_balance,
        }
    }
}

impl<V> Controls<V> {
    /// The value of a control.
    pub open spec fn value(self, field: ControlField) -> Option<V> {
        match field {
            ControlField::Focus => self.focus,
            ControlField::Exposure => self.exposure,
            ControlField::WhiteBalanceTemperature => self.white_balance_temperature,
            ControlField::Brightness => self.brightness,
            ControlField::Contrast => self.contrast,
            ControlField::Saturation => self.saturation,
            ControlField::Sharpness => self.sharpness,
            ControlField::Gain => self.gain,
            ControlField::BacklightCompensation => self.backlight_compensation,
            ControlField::Pan => self.pan,
            ControlField::Tilt => self.tilt,
            ControlField::Zoom => self.zoom,
        }
    }

    /// Whether a control is left to the camera.
    pub open spec fn auto(self, mode: AutoMode) -> Option<bool> {
        match mode {
            AutoMode::Focus => self.auto_focus,
            AutoMode::Exposure => self.auto_exposure,
            AutoMode::WhiteBalance => self.auto_white_balance,
        }
    }
}

impl<V> Default for Controls<V> {
    fn default() -> (controls: Controls<V>)
        ensures
            forall|field: ControlField| (#[trigger] controls.value(field)) is None,
            forall|mode: AutoMode| (#[trigger] controls.auto(mode)) is None,
    {
        Controls {
            focus: None,
            exposure: None,
            white_balance_temperature: None,
            brightness: None,
            contrast: None,
            saturation: None,
            sharpness: None,
            gain: None,
            backlight_compensation: None,
            pan: None,
            tilt: None,
            zoom: None,
            auto_focus: None,
            auto_exposure: None,
            auto_white_balance: None,
        }
    }
}

/// The range of a control.
pub fn capability_range<V: Copy>(capabilities: &ControlCapabilities<V>, field: ControlField) -> (range:
    Option<ControlRange<V>>)
    ensures
        range == capabilities.range(field),
{
    match field {
        ControlField::Focus => capabilities.focus,
        ControlField::Exposure => capabilities.exposure,
        ControlField::WhiteBalanceTemperature => capabilities.white_balance_temperature,
        ControlField::Brightness => capabilities.brightness,
        ControlField::Contrast => capabilities.contrast,
        ControlField::Saturation => capabilities.saturation,
        ControlField::Sharpness => capabilities.sharpness,
        ControlField::Gain => capabilities.gain,
        ControlField::BacklightCompensation => capabilities.backlight_compensation,
        ControlField::Pan => capabilities.pan,
        ControlField::Tilt => capabilities.tilt,
        ControlField::Zoom => capabilities.zoom,
    }
}

/// Whether the camera can take care of a control by itself.
pub fn capability_auto<V>(capabilities: &ControlCapabilities<V>, mode: AutoMode) -> (auto: Option<
    bool,
>)
    ensures
        auto == capabilities.auto(mode),
{
    match mode {
        AutoMode::Focus => capabilities.auto_focus,
        AutoMode::Exposure => capabilities.auto_exposure,
        AutoMode::WhiteBalance => capabilities.auto_white_balance,
    }
}

/// The value of a control.
pub fn controls_field_get<V: Copy>(controls: &Controls<V>, field: ControlField) -> (value: Option<
    V,
>)
    ensures
        value == controls.value(field),
{
    match field {
        ControlField::Focus => controls.focus,
        ControlField::Exposure => controls.exposure,
        ControlField::WhiteBalanceTemperature => controls.white_balance_temperature,
        ControlField::Brightness => controls.brightness,
        ControlField::Contrast => controls.contrast,
        ControlField::Saturation => controls.saturation,
        ControlField::Sharpness => controls.sharpness,
        ControlField::Gain => controls.gain,
        ControlField::BacklightCompensation => controls.backlight_compensation,
        ControlField::Pan => controls.pan,
        ControlField::Tilt => controls.tilt,
        ControlField::Zoom => controls.zoom,
    }
}

/// Set the value of one control, and leave all others.
pub fn controls_field_set<V>(controls: &mut Controls<V>, field: ControlField, value: Option<V>)
    ensures
        final(controls).value(field) == value,
        forall|other: ControlField|
            other != field ==> #[trigger] final(controls).value(other) == old(controls).value(
                other,
            ),
        forall|mode: AutoMode| #[trigger] final(controls).auto(mode) == old(controls).auto(mode),
{
    match field {
        ControlField::Focus => {
            controls.focus = value;
        },
        ControlField::Exposure => {
            controls.exposure = value;
        },
        ControlField::WhiteBalanceTemperature => {
            controls.white_balance_temperature = value;
        },
        ControlField::Brightness => {
            controls.brightness = value;
        },
        ControlField::Contrast => {
            controls.contrast = value;
        },
        ControlField::Saturation => {
            controls.saturation = value;
        },
        ControlField::Sharpness => {
            controls.sharpness = value;
        },
        ControlField::Gain => {
            controls.gain = value;
        },
        ControlField::BacklightCompensation => {
            controls.backlight_compensation = value;
        },
        ControlField::Pan => {
            controls.pan = value;
        },
        ControlField::Tilt => {
            controls.tilt = value;
        },
        ControlField::Zoom => {
            controls.zoom = value;
        },
    }
}

/// Whether a control is left to the camera.
pub fn bool_field_get<V>(controls: &Controls<V>, mode: AutoMode) -> (value: Option<bool>)
    ensures
        value == controls.auto(mode),
{
    match mode {
        AutoMode::Focus => controls.auto_focus,
        AutoMode::Exposure => controls.auto_exposure,
        AutoMode::WhiteBalance => controls.auto_white_balance,
    }
}

/// Set whether one control is left to the camera, and leave all others.
pub fn bool_field_set<V>(controls: &mut Controls<V>, mode: AutoMode, value: Option<bool>)
    ensures
        final(controls).auto(mode) == value,
        forall|other: AutoMode|
            other != mode ==> #[trigger] final(controls).auto(other) == old(controls).auto(other),
        forall|field: ControlField| #[trigger]
            final(controls).value(field) == old(controls).value(field),
{
    match mode {
        AutoMode::Focus => {
            controls.auto_focus = value;
        },
        AutoMode::Exposure => {
            controls.auto_exposure = value;
        },
        AutoMode::WhiteBalance => {
            controls.auto_white_balance = value;
        },
    }
}

/// The name of a control that takes a number.
pub open spec fn field_name(field: ControlField) -> Seq<char> {
    match field {
        ControlField::Focus => "focus"@,
        ControlField::Exposure => "exposure"@,
        ControlField::WhiteBalanceTemperature => "white_balance_temperature"@,
        ControlField::Brightness => "brightness"@,
        ControlField::Contrast => "contrast"@,
        ControlField::Saturation => "saturation"@,
        ControlField::Sharpness => "sharpness"@,
        ControlField::Gain => "gain"@,
        ControlField::BacklightCompensation => "backlight_compensation"@,
        ControlField::Pan => "pan"@,
        ControlField::Tilt => "tilt"@,
        ControlField::Zoom => "zoom"@,
    }
}

/// The name of a control that the camera can take care of.
pub open spec fn mode_name(mode: AutoMode) -> Seq<char> {
    match mode {
        AutoMode::Focus => "auto_focus"@,
        AutoMode::Exposure => "auto_exposure"@,
        AutoMode::WhiteBalance => "auto_white_balance"@,
    }
}

/// The name of a control.
pub fn label(kind: ControlKind) -> (name: &'static str)
    ensures
        name@ == (match kind {
            ControlKind::Number(field) => field_name(field),
            ControlKind::Auto(mode) => mode_name(mode),
            ControlKind::PowerLineFrequency => "power_line_frequency"@,
        }),
{
    match kind {
        ControlKind::Number(field) => match field {
            ControlField::Focus => "focus",
            ControlField::Exposure => "exposure",
            ControlField::WhiteBalanceTemperature => "white_balance_temperature",
            ControlField::Brightness => "brightness",
            ControlField::Contrast => "contrast",
            ControlField::Saturation => "saturation",
            ControlField::Sharpness => "sharpness",
            ControlField::Gain => "gain",
            ControlField::BacklightCompensation => "backlight_compensation",
            ControlField::Pan => "pan",
            ControlField::Tilt => "tilt",
            ControlField::Zoom => "zoom",
        },
        ControlKind::Auto(mode) => match mode {
            AutoMode::Focus => "auto_focus",
            AutoMode::Exposure => "auto_exposure",
            AutoMode::WhiteBalance => "auto_white_balance",
        },
        ControlKind::PowerLineFrequency => "power_line_frequency",
    }
}

/// The rows of a device's list of capabilities: each control that takes a number, followed
/// by whether the camera can take care of it where that is possible, and the power line
/// menu before panning, tilting and zooming.
pub open spec fn rows<V>(capabilities: ControlCapabilities<V>) -> Seq<(ControlKind, Capability<V>)> {
    seq![
        (ControlKind::Number(ControlField::Focus), Capability::Range(capabilities.focus)),
        (ControlKind::Auto(AutoMode::Focus), Capability::Toggle(capabilities.auto_focus)),
        (ControlKind::Number(ControlField::Exposure), Capability::Range(capabilities.exposure)),
        (ControlKind::Auto(AutoMode::Exposure), Capability::Toggle(capabilities.auto_exposure)),
        (ControlKind::Number(ControlField::WhiteBalanceTemperature), Capability::Range(capabilities.white_balance_temperature)),
        (ControlKind::Auto(AutoMode::WhiteBalance), Capability::Toggle(capabilities.auto_white_balance)),
        (ControlKind::Number(ControlField::Brightness), Capability::Range(capabilities.brightness)),
        (ControlKind::Number(ControlField::Contrast), Capability::Range(capabilities.contrast)),
        (ControlKind::Number(ControlField::Saturation), Capability::Range(capabilities.saturation)),
        (ControlKind::Number(ControlField::Sharpness), Capability::Range(capabilities.sharpness)),
        (ControlKind::Number(ControlField::Gain), Capability::Range(capabilities.gain)),
        (ControlKind::Number(ControlField::BacklightCompensation), Capability::Range(capabilities.backlight_compensation)),
        (ControlKind::PowerLineFrequency, Capability::Menu(capabilities.power_line_frequency)),
        (ControlKind::Number(ControlField::Pan), Capability::Range(capabilities.pan)),
        (ControlKind::Number(ControlField::Tilt), Capability::Range(capabilities.tilt)),
        (ControlKind::Number(ControlField::Zoom), Capability::Range(capabilities.zoom)),
    ]
}

/// List what a device says of every control.
pub fn capability_rows<V: Copy>(capabilities: &ControlCapabilities<V>) -> (list: Vec<
    (ControlKind, Capability<V>),
>)
    ensures
        list@ == rows(*capabilities),
{
    let mut list: Vec<(ControlKind, Capability<V>)> = Vec::new();
    list.push((ControlKind::Number(ControlField::Focus), Capability::Range(capabilities.focus)));
    list.push((ControlKind::Auto(AutoMode::Focus), Capability::Toggle(capabilities.auto_focus)));
    list.push((ControlKind::Number(ControlField::Exposure), Capability::Range(capabilities.exposure)));
    list.push((ControlKind::Auto(AutoMode::Exposure), Capability::Toggle(capabilities.auto_exposure)));
    list.push((ControlKind::Number(ControlField::WhiteBalanceTemperature), Capability::Range(capabilities.white_balance_temperature)));
    list.push((ControlKind::Auto(AutoMode::WhiteBalance), Capability::Toggle(capabilities.auto_white_balance)));
    list.push((ControlKind::Number(ControlField::Brightness), Capability::Range(capabilities.brightness)));
    list.push((ControlKind::Number(ControlField::Contrast), Capability::Range(capabilities.contrast)));
    list.push((ControlKind::Number(ControlField::Saturation), Capability::Range(capabilities.saturation)));
    list.push((ControlKind::Number(ControlField::Sharpness), Capability::Range(capabilities.sharpness)));
    list.push((ControlKind::Number(ControlField::Gain), Capability::Range(capabilities.gain)));
    list.push((ControlKind::Number(ControlField::BacklightCompensation), Capability::Range(capabilities.backlight_compensation)));
    list.push((ControlKind::PowerLineFrequency, Capability::Menu(capabilities.power_line_frequency)));
    list.push((ControlKind::Number(ControlField::Pan), Capability::Range(capabilities.pan)));
    list.push((ControlKind::Number(ControlField::Tilt), Capability::Range(capabilities.tilt)));
    list.push((ControlKind::Number(ControlField::Zoom), Capability::Range(capabilities.zoom)));
    assert(list@ =~= rows(*capabilities));
    list
}

/// Whether a device has a control.
pub fn is_supported<V>(capability: &Capability<V>) -> (supported: bool)
    ensures
        supported == (match *capability {
            Capability::Range(range) => range is Some,
            Capability::Toggle(auto) => auto is Some,
            Capability::Menu(there) => there,
        }),
{
    match capability {
        Capability::Range(range) => range.is_some(),
        Capability::Toggle(auto) => auto.is_some(),
        Capability::Menu(there) => *there,
    }
}

/// What to say of a control in a few words, or `None` where its range says it all.
pub fn capability_detail<V>(capability: &Capability<V>) -> (detail: Option<&'static str>)
    ensures
        match *capability {
            Capability::Range(Some(_)) => detail is None,
            Capability::Toggle(Some(true)) => detail matches Some(text) && text@
                == "auto toggle supported"@,
            Capability::Toggle(Some(false)) => detail matches Some(text) && text@
                == "manual only"@,
            Capability::Menu(true) => detail matches Some(text) && text@ == "menu supported"@,
            _ => detail matches Some(text) && text@ == "not supported"@,
        },
{
    match capability {
        Capability::Range(Some(_)) => None,
        Capability::Toggle(Some(true)) => Some("auto toggle supported"),
        Capability::Toggle(Some(false)) => Some("manual only"),
        Capability::Menu(true) => Some("menu supported"),
        _ => Some("not supported"),
    }
}

/// The mode that takes a control out of the user's hands, if there is one.
pub open spec fn paired(field: ControlField) -> Option<AutoMode> {
    match field {
        ControlField::Focus => Some(AutoMode::Focus),
        ControlField::Exposure => Some(AutoMode::Exposure),
        ControlField::WhiteBalanceTemperature => Some(AutoMode::WhiteBalance),
        _ => None,
    }
}

/// The mode that takes a control out of the user's hands, if there is one.
pub fn paired_auto(field: ControlField) -> (mode: Option<AutoMode>)
    ensures
        mode == paired(field),
{
    match field {
        ControlField::Focus => Some(AutoMode::Focus),
        ControlField::Exposure => Some(AutoMode::Exposure),
        ControlField::WhiteBalanceTemperature => Some(AutoMode::WhiteBalance),
        _ => None,
    }
}

/// Whether a control is out of the user's hands: its mode is about to be set to automatic.
pub open spec fn locked<V>(pending: Controls<V>, field: ControlField) -> bool {
    match paired(field) {
        Some(mode) => pending.auto(mode) == Some(true),
        None => false,
    }
}

/// What is shown beside a control's slider.
#[derive(Clone, Copy, Debug)]
pub enum RowStatus<V> {
    /// The camera takes care of the control.
    AutoOn,
    /// The control's current value.
    Now(V),
    /// Nothing is known.
    Unknown,
}

/// How a control that takes a number is shown for editing.
#[derive(Clone, Copy, Debug)]
pub struct NumericRow<V> {
    /// Whether a value is about to be set.
    pub enabled: bool,
    /// Whether the control is out of the user's hands.
    pub locked: bool,
    /// Where the slider stands.
    pub value: V,
    /// The value that ticking the control starts from.
    pub fallback: V,
    /// What is shown beside the slider.
    pub status: RowStatus<V>,
}

/// Lay out a control that takes a number for editing.
pub fn numeric_row<V: Copy>(
    range: &ControlRange<V>,
    field: ControlField,
    current: &Controls<V>,
    pending: &Controls<V>,
) -> (row: NumericRow<V>)
    ensures
        row.enabled == (pending.value(field) is Some),
        row.locked == locked(*pending, field),
        row.fallback == (match current.value(field) {
            Some(now) => now,
            None => range.default,
        }),
        row.value == (match pending.value(field) {
            Some(next) => next,
            None => row.fallback,
        }),
        row.status == (if row.locked {
            RowStatus::AutoOn
        } else {
            match current.value(field) {
                Some(now) => RowStatus::Now(now),
                None => RowStatus::Unknown,
            }
        }),
{
    let now = controls_field_get(current, field);
    let next = controls_field_get(pending, field);
    let is_locked = match paired_auto(field) {
        Some(mode) => match bool_field_get(pending, mode) {
            Some(auto) => auto,
            None => false,
        },
        None => false,
    };
    let fallback = match now {
        Some(value) => value,
        None => range.default,
    };
    NumericRow {
        enabled: next.is_some(),
        locked: is_locked,
        value: match next {
            Some(value) => value,
            None => fallback,
        },
        fallback,
        status: if is_locked {
            RowStatus::AutoOn
        } else {
            match now {
                Some(value) => RowStatus::Now(value),
                None => RowStatus::Unknown,
            }
        },
    }
}

/// Tick a control, which starts from `fallback`, or untick it, which leaves it alone.
pub fn tick_control<V>(pending: &mut Controls<V>, field: ControlField, ticked: bool, fallback: V)
    ensures
        final(pending).value(field) == (if ticked {
            Some(fallback)
        } else {
            None
        }),
        forall|other: ControlField|
            other != field ==> #[trigger] final(pending).value(other) == old(pending).value(other),
        forall|mode: AutoMode| #[trigger] final(pending).auto(mode) == old(pending).auto(mode),
{
    let value = if ticked {
        Some(fallback)
    } else {
        None
    };
    controls_field_set(pending, field, value);
}

/// Why a control cannot be changed while its mode is automatic.
pub fn auto_lock_hover(paired_label: &str) -> (hover: String)
    ensures
        hover@ == "Disabled because "@ + paired_label@ + " is set to 'auto'. Change "@
            + paired_label@ + " to 'leave' or 'manual' to enable this slider."@,
{
    let reason = append("Disabled because ".to_owned(), paired_label);
    let remedy = append(append(reason, " is set to 'auto'. Change "), paired_label);
    append(remedy, " to 'leave' or 'manual' to enable this slider.")
}

/// Every control that takes a number, in the order in which they are shown.
pub open spec fn all_fields() -> Seq<ControlField> {
    seq![
        ControlField::Focus,
        ControlField::Exposure,
        ControlField::WhiteBalanceTemperature,
        ControlField::Brightness,
        ControlField::Contrast,
        ControlField::Saturation,
        ControlField::Sharpness,
        ControlField::Gain,
        ControlField::BacklightCompensation,
        ControlField::Pan,
        ControlField::Tilt,
        ControlField::Zoom,
    ]
}

/// Those of the first `count` controls that a device has.
pub open spec fn shown_fields<V>(capabilities: ControlCapabilities<V>, count: nat) -> Seq<
    (ControlField, ControlRange<V>),
>
    decreases count,
{
    if count == 0 {
        Seq::empty()
    } else {
        let before = shown_fields(capabilities, (count - 1) as nat);
        match capabilities.range(all_fields()[count - 1]) {
            Some(range) => before.push((all_fields()[count - 1], range)),
            None => before,
        }
    }
}

/// The controls of a device that take a number, in the order in which they are shown.
pub fn numeric_rows<V: Copy>(capabilities: &ControlCapabilities<V>) -> (list: Vec<
    (ControlField, ControlRange<V>),
>)
    ensures
        list@ == shown_fields(*capabilities, 12),
{
    let mut fields: Vec<ControlField> = Vec::new();
    fields.push(ControlField::Focus);
    fields.push(ControlField::Exposure);
    fields.push(ControlField::WhiteBalanceTemperature);
    fields.push(ControlField::Brightness);
    fields.push(ControlField::Contrast);
    fields.push(ControlField::Saturation);
    fields.push(ControlField::Sharpness);
    fields.push(ControlField::Gain);
    fields.push(ControlField::BacklightCompensation);
    fields.push(ControlField::Pan);
    fields.push(ControlField::Tilt);
    fields.push(ControlField::Zoom);
    assert(fields@ =~= all_fields());
    let mut list: Vec<(ControlField, ControlRange<V>)> = Vec::new();
    let mut i: usize = 0;
    while i < fields.len()
        invariant
            i <= fields.len(),
            fields@ == all_fields(),
            list@ == shown_fields(*capabilities, i as nat),
        decreases fields.len() - i,
    {
        if let Some(range) = capability_range(capabilities, fields[i]) {
            list.push((fields[i], range));
        }
        i = i + 1;
    }
    list
}

/// Whether a mode is offered: only where the camera can take care of the control.
pub fn offers_auto<V>(capabilities: &ControlCapabilities<V>, mode: AutoMode) -> (offered: bool)
    ensures
        offered == (capabilities.auto(mode) == Some(true)),
{
    match capability_auto(capabilities, mode) {
        Some(auto) => auto,
        None => false,
    }
}

/// The device to apply a change to at once: the connected one, where changes are applied
/// live.
pub fn live_apply_if_enabled(live: bool, device: &Option<Device>) -> (target: Option<Device>)
    ensures
        target == (if live {
            *device
        } else {
            None
        }),
{
    if !live {
        return None;
    }
    match device {
        Some(device) => Some(device.clone()),
        None => None,
    }
}

/// The request to carry out of one that was taken up and those that came in since: the
/// latest. The others are superseded.
pub fn latest_request<T>(first: T, newer: Vec<T>) -> (latest: T)
    ensures
        latest == (if newer@.len() == 0 {
            first
        } else {
            newer@.last()
        }),
{
    let mut queue = newer;
    match queue.pop() {
        Some(last) => last,
        None => first,
    }
}

/// The controls that put a camera into the user's hands before a focus sweep: nothing
/// automatic, everything else left alone.
pub fn manual_controls<V>() -> (controls: Controls<V>)
    ensures
        forall|field: ControlField| (#[trigger] controls.value(field)) is None,
        forall|mode: AutoMode| #[trigger] controls.auto(mode) == Some(false),
{
    let mut controls: Controls<V> = Controls::default();
    bool_field_set(&mut controls, AutoMode::Focus, Some(false));
    bool_field_set(&mut controls, AutoMode::Exposure, Some(false));
    bool_field_set(&mut controls, AutoMode::WhiteBalance, Some(false));
    controls
}

/// Controls that set the focus and leave everything else alone.
pub fn focus_controls<V>(focus: V) -> (controls: Controls<V>)
    ensures
        controls.value(ControlField::Focus) == Some(focus),
        forall|field: ControlField|
            field != ControlField::Focus ==> (#[trigger] controls.value(field)) is None,
        forall|mode: AutoMode| (#[trigger] controls.auto(mode)) is None,
{
    let mut controls: Controls<V> = Controls::default();
    controls_field_set(&mut controls, ControlField::Focus, Some(focus));
    controls
}

/// Take the focus that a sweep found into the values about to be set: the focus stays where
/// it is, and is not left to the camera.
pub fn lock_focus<V>(pending: &mut Controls<V>, focus: V)
    ensures
        final(pending).value(ControlField::Focus) == Some(focus),
        final(pending).auto(AutoMode::Focus) == Some(false),
        forall|field: ControlField|
            field != ControlField::Focus ==> #[trigger] final(pending).value(field)
                == old(pending).value(field),
        forall|mode: AutoMode|
            mode != AutoMode::Focus ==> #[trigger] final(pending).auto(mode)
                == old(pending).auto(mode),
{
    controls_field_set(pending, ControlField::Focus, Some(focus));
    bool_field_set(pending, AutoMode::Focus, Some(false));
}

/// Whether values leave every control alone.
pub open spec fn leaves_all<V>(controls: Controls<V>) -> bool {
    &&& forall|field: ControlField| (#[trigger] controls.value(field)) is None
    &&& forall|mode: AutoMode| (#[trigger] controls.auto(mode)) is None
}

/// What a viewer knows of the controls of the camera that it shows.
#[derive(Debug)]
pub struct ControlPanel<V> {
    /// Which controls the camera has, if they are known.
    pub capabilities: Option<ControlCapabilities<V>>,
    /// Why they are not known, if asking failed.
    pub error: Option<String>,
    /// The values that the camera reported.
    pub current: Controls<V>,
    /// The values that are about to be set.
    pub pending: Controls<V>,
    /// The camera whose controls can be set.
    pub device: Option<Device>,
}

/// What a camera answered when it was asked about its controls.
#[derive(Debug)]
pub struct ControlAnswer<V> {
    /// The camera.
    pub device: Device,
    /// Which controls it has.
    pub capabilities: Result<ControlCapabilities<V>, Error>,
    /// Their values.
    pub current: Result<Controls<V>, Error>,
}

/// Start over with the controls of the source that was just chosen. `answer` is `None` for a
/// source that is no device. Values that could not be read count as unknown, and nothing is
/// about to be set.
pub fn refresh_capabilities<V>(answer: Option<ControlAnswer<V>>) -> (panel: ControlPanel<V>)
    ensures
        leaves_all(panel.pending),
        match answer {
            None => {
                &&& panel.capabilities is None
                &&& panel.error is None
                &&& panel.device is None
                &&& leaves_all(panel.current)
            },
            Some(given) => match given.capabilities {
                Ok(capabilities) => {
                    &&& panel.capabilities == Some(capabilities)
                    &&& panel.error is None
                    &&& panel.device == Some(given.device)
                    &&& match given.current {
                        Ok(current) => panel.current == current,
                        Err(_) => leaves_all(panel.current),
                    }
                },
                Err(error) => {
                    &&& panel.capabilities is None
                    &&& panel.error matches Some(message) && message@ == error@.text()
                    &&& panel.device is None
                    &&& leaves_all(panel.current)
                },
            },
        },
{
    let pending: Controls<V> = Controls::default();
    match answer {
        None => ControlPanel {
            capabilities: None,
            error: None,
            current: Controls::default(),
            pending,
            device: None,
        },
        Some(given) => match given.capabilities {
            Ok(capabilities) => ControlPanel {
                capabilities: Some(capabilities),
                error: None,
                current: match given.current {
                    Ok(current) => current,
                    Err(_) => Controls::default(),
                },
                pending,
                device: Some(given.device),
            },
            Err(error) => ControlPanel {
                capabilities: None,
                error: Some(error.message()),
                current: Controls::default(),
                pending,
                device: None,
            },
        },
    }
}

} // verus!

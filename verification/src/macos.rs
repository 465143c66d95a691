//! AVFoundation: what its codes mean and which of its formats to use.

use crate::buffer;
use crate::decode::no_bytes;
use crate::error::{Error, ErrorView};
use crate::negotiation;
use crate::negotiation::{resolution_distance, round_framerate};
use crate::pick;
use crate::types::{Device, DeviceId, Frame, FrameQuality, PixelFormat, Position, Resolution};
use crate::types::{StreamConfig, Transport};
use std::time::Duration;
use vstd::prelude::*;

verus! {

/// `yuvs`
pub const YUVS: u32 = 0x7975_7673;

/// `yuv2`
pub const YUV2: u32 = 0x7975_7632;

/// `420f`
pub const FULL_RANGE_420: u32 = 0x3432_3066;

/// `420v`
pub const VIDEO_RANGE_420: u32 = 0x3432_3076;

/// `BGRA`
pub const BGRA: u32 = 0x4247_5241;

/// `RGBA`
pub const RGBA: u32 = 0x5247_4241;

/// `jpeg`
pub const JPEG: u32 = 0x6a70_6567;

/// `dmb1`
pub const DMB1: u32 = 0x646d_6231;

/// `usb` and a space
pub const USB: i32 = 0x7573_6220;

/// `bltn`
pub const BUILT_IN: i32 = 0x626c_746e;

/// `virt`
pub const VIRTUAL: i32 = 0x7669_7274;

/// The pixel format that a media subtype stands for. One that is not known is taken for
/// BGRA, which the session delivers anyway.
pub fn fourcc_to_pixel_format(code: u32) -> (format: PixelFormat)
    ensures
        format == (if code == YUVS || code == YUV2 {
            PixelFormat::Yuyv
        } else if code == FULL_RANGE_420 || code == VIDEO_RANGE_420 {
            PixelFormat::Nv12
        } else if code == RGBA {
            PixelFormat::Rgba8
        } else if code == JPEG || code == DMB1 {
            PixelFormat::Mjpeg
        } else {
            PixelFormat::Bgra8
        }),
{
    match code {
        YUVS | YUV2 => PixelFormat::Yuyv,
        FULL_RANGE_420 | VIDEO_RANGE_420 => PixelFormat::Nv12,
        BGRA => PixelFormat::Bgra8,
        RGBA => PixelFormat::Rgba8,
        JPEG | DMB1 => PixelFormat::Mjpeg,
        _ => PixelFormat::Bgra8,
    }
}

/// The transport that a code stands for.
pub open spec fn transport_of(code: i32) -> Transport {
    if code == USB {
        Transport::Usb
    } else if code == BUILT_IN {
        Transport::BuiltIn
    } else if code == VIRTUAL {
        Transport::Virtual
    } else {
        Transport::Other
    }
}

/// The transport that a code stands for.
pub fn transport_from_code(code: i32) -> (transport: Transport)
    ensures
        transport == transport_of(code),
{
    if code == USB {
        Transport::Usb
    } else if code == BUILT_IN {
        Transport::BuiltIn
    } else if code == VIRTUAL {
        Transport::Virtual
    } else {
        Transport::Other
    }
}

/// Where AVFoundation says a camera is mounted.
#[derive(Clone, Copy, Debug, PartialEq, Eq, Structural)]
pub enum Mounting {
    /// In front.
    Front,
    /// At the back.
    Back,
    /// Anywhere else.
    Elsewhere,
}

/// The device that AVFoundation describes.
pub fn device_to_public(id: String, name: String, mounting: Mounting, transport_code: i32) -> (device:
    Device)
    ensures
        device.id@ == id@,
        device.name@ == name@,
        device.position == (match mounting {
            Mounting::Front => Position::Front,
            Mounting::Back => Position::Back,
            Mounting::Elsewhere => Position::External,
        }),
        device.transport == transport_of(transport_code),
{
    Device {
        id: DeviceId(id),
        name,
        position: match mounting {
            Mounting::Front => Position::Front,
            Mounting::Back => Position::Back,
            Mounting::Elsewhere => Position::External,
        },
        transport: transport_from_code(transport_code),
    }
}

/// A device format as far as choosing one goes.
#[derive(Clone, Copy, Debug)]
pub struct FormatChoice {
    /// Its size.
    pub resolution: Resolution,
    /// Whether it reaches the framerate that was asked for.
    pub supports_framerate: bool,
}

/// Whether a format has the size and reaches the framerate that were asked for.
pub open spec fn ideal(choices: Seq<FormatChoice>, target: Resolution) -> spec_fn(int) -> bool {
    |i: int| choices[i].resolution == target && choices[i].supports_framerate
}

/// Whether a format has the size that was asked for.
pub open spec fn same_size(choices: Seq<FormatChoice>, target: Resolution) -> spec_fn(int) -> bool {
    |i: int| choices[i].resolution == target
}

/// How far a format's size is from the one that was asked for.
pub open spec fn size_delta(choices: Seq<FormatChoice>, target: Resolution) -> spec_fn(int) -> int {
    |i: int| negotiation::resolution_delta(choices[i].resolution, target)
}

/// Whether `index` is the place of the format to use: the first of the size and framerate
/// that were asked for; where there is none, the first of the size; and where there is none
/// either, the first of those nearest in size.
pub open spec fn is_selected(choices: Seq<FormatChoice>, target: Resolution, index: int) -> bool {
    let count = choices.len() as int;
    ||| pick::is_first(count, ideal(choices, target), index)
    ||| pick::none_pass(count, ideal(choices, target)) && pick::is_first(
        count,
        same_size(choices, target),
        index,
    )
    ||| pick::none_pass(count, ideal(choices, target)) && pick::none_pass(
        count,
        same_size(choices, target),
    ) && pick::is_first_least(count, size_delta(choices, target), index)
}

/// Choose the device format to use. Without formats there is none.
pub fn select_format(choices: &Vec<FormatChoice>, target: Resolution) -> (selected: Result<
    usize,
    Error,
>)
    ensures
        match selected {
            Ok(index) => is_selected(choices@, target, index as int),
            Err(error) => choices@.len() == 0 && error@ == ErrorView::FormatNotSupported,
        },
{
    let ghost best = ideal(choices@, target);
    let ghost same = same_size(choices@, target);
    let ghost key = size_delta(choices@, target);
    let mut first_same: Option<usize> = None;
    let mut nearest: usize = 0;
    let mut nearest_delta: u64 = 0;
    let mut i: usize = 0;
    while i < choices.len()
        invariant
            i <= choices.len(),
            best == ideal(choices@, target),
            same == same_size(choices@, target),
            key == size_delta(choices@, target),
            pick::none_pass(i as int, best),
            match first_same {
                Some(place) => pick::is_first(i as int, same, place as int),
                None => pick::none_pass(i as int, same),
            },
            i > 0 ==> pick::is_first_least(i as int, key, nearest as int),
            i > 0 ==> nearest_delta == key(nearest as int),
        decreases choices.len() - i,
    {
        let choice = choices[i];
        let here = choice.resolution == target;
        assert(same(i as int) == here);
        assert(best(i as int) == (here && choice.supports_framerate));
        if here && choice.supports_framerate {
            return Ok(i);
        }
        if here && first_same.is_none() {
            first_same = Some(i);
        }
        let apart: u64 = resolution_distance(choice.resolution, target);
        assert(key(i as int) == apart);
        if i == 0 || apart < nearest_delta {
            nearest = i;
            nearest_delta = apart;
        }
        i = i + 1;
    }
    if let Some(place) = first_same {
        return Ok(place);
    }
    if choices.len() == 0 {
        return Err(Error::FormatNotSupported);
    }
    Ok(nearest)
}

/// The configuration that a session ends up with, given the format that was selected and the
/// framerate that was set, as numerator and denominator, if one was: the format's own size,
/// the framerate in whole frames per second, and BGRA, which is what the session is told to
/// deliver.
pub fn applied_config(
    choices: &Vec<FormatChoice>,
    selected: usize,
    rate: Option<(u32, u32)>,
    requested: StreamConfig,
) -> (applied: StreamConfig)
    requires
        selected < choices@.len(),
    ensures
        applied.resolution == choices@[selected as int].resolution,
        applied.framerate == (match rate {
            Some((numerator, denominator)) => if denominator > 0 {
                negotiation::rounded(numerator, denominator)
            } else {
                requested.framerate as int
            },
            None => requested.framerate as int,
        }),
        applied.pixel_format == PixelFormat::Bgra8,
{
    let framerate: u32 = match rate {
        Some((numerator, denominator)) => if denominator > 0 {
            round_framerate(numerator, denominator)
        } else {
            requested.framerate
        },
        None => requested.framerate,
    };
    StreamConfig {
        resolution: choices[selected].resolution,
        framerate,
        pixel_format: PixelFormat::Bgra8,
    }
}

/// A framerate range as far as choosing one goes.
#[derive(Clone, Copy, Debug)]
pub struct RangeChoice {
    /// Whether it holds the framerate that was asked for.
    pub inside: bool,
    /// How far it is from that framerate: a non-negative 64-bit float's bits, which are
    /// ordered as the floats are.
    pub distance: u64,
}

/// Whether `index` is the place of the framerate range to use: the first that holds the
/// framerate that was asked for, or else the first of those nearest to it.
pub open spec fn is_picked(choices: Seq<RangeChoice>, index: int) -> bool {
    let count = choices.len() as int;
    ||| pick::is_first(count, |i: int| choices[i].inside, index)
    ||| pick::none_pass(count, |i: int| choices[i].inside) && pick::is_first_least(
        count,
        |i: int| choices[i].distance as int,
        index,
    )
}

/// Choose the framerate range to use. Without ranges there is none.
pub fn pick_frame_duration(choices: &Vec<RangeChoice>) -> (picked: Option<usize>)
    ensures
        match picked {
            Some(index) => is_picked(choices@, index as int),
            None => choices@.len() == 0,
        },
{
    let ghost inside = |i: int| choices@[i].inside;
    let ghost distance = |i: int| choices@[i].distance as int;
    let mut nearest: usize = 0;
    let mut i: usize = 0;
    while i < choices.len()
        invariant
            i <= choices.len(),
            inside == |i: int| choices@[i].inside,
            distance == |i: int| choices@[i].distance as int,
            pick::none_pass(i as int, inside),
            i > 0 ==> pick::is_first_least(i as int, distance, nearest as int),
        decreases choices.len() - i,
    {
        assert(inside(i as int) == choices@[i as int].inside);
        assert(distance(i as int) == choices@[i as int].distance);
        if choices[i].inside {
            assert(pick::is_first(choices@.len() as int, inside, i as int));
            return Some(i);
        }
        if i == 0 || choices[i].distance < choices[nearest].distance {
            nearest = i;
        }
        i = i + 1;
    }
    if choices.len() == 0 {
        return None;
    }
    Some(nearest)
}

/// What the system says of this program's access to cameras.
#[derive(Clone, Copy, Debug, PartialEq, Eq, Structural)]
pub enum Authorization {
    /// It was granted.
    Authorized,
    /// The user has not been asked yet.
    NotDetermined,
    /// It was denied, or cannot be granted.
    Refused,
}

/// What to do about access to cameras.
#[derive(Debug)]
pub enum AccessStep {
    /// Go on.
    Proceed,
    /// Ask the user.
    Ask,
    /// Fail.
    Fail(Error),
}

/// Decide what to do about access to cameras.
pub fn ensure_authorized(status: Authorization) -> (step: AccessStep)
    ensures
        match status {
            Authorization::Authorized => step is Proceed,
            Authorization::NotDetermined => step is Ask,
            Authorization::Refused => step matches AccessStep::Fail(error) && error@
                == ErrorView::PermissionDenied,
        },
{
    match status {
        Authorization::Authorized => AccessStep::Proceed,
        Authorization::NotDetermined => AccessStep::Ask,
        Authorization::Refused => AccessStep::Fail(Error::PermissionDenied),
    }
}

/// Decide what the user's answer means, if there was one in time.
pub fn request_authorization(answer: Option<bool>) -> (access: Result<(), Error>)
    ensures
        match access {
            Ok(_) => answer == Some(true),
            Err(error) => answer != Some(true) && error@ == ErrorView::PermissionDenied,
        },
{
    match answer {
        Some(granted) => if granted {
            Ok(())
        } else {
            Err(Error::PermissionDenied)
        },
        None => Err(Error::PermissionDenied),
    }
}

/// The frame that a captured pixel buffer holds.
pub fn captured_frame(width: u32, height: u32, stride: u32, timestamp: Duration, data: &[u8]) -> (frame:
    Frame)
    ensures
        frame@.width == width,
        frame@.height == height,
        frame@.stride == stride,
        frame@.timestamp == timestamp,
        frame@.pixel_format == PixelFormat::Bgra8,
        frame@.quality == FrameQuality::Intact,
        frame@.plane_primary == data@,
        frame@.plane_secondary == Seq::<u8>::empty(),
{
    Frame {
        width,
        height,
        stride,
        timestamp,
        pixel_format: PixelFormat::Bgra8,
        quality: FrameQuality::Intact,
        plane_primary: buffer::copy_from_slice(data),
        plane_secondary: no_bytes(),
    }
}

} // verus!

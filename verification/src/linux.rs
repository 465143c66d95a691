//! Video4Linux: what a driver's entries, codes and buffers mean.

use crate::buffer;
use crate::decode::no_bytes;
use crate::error::{Error, ErrorView};
use crate::text;
use crate::text::append_number;
use crate::types::{Device, DeviceId, FormatDescriptor, Frame, FrameQuality, FrameRate, FramerateRange};
use crate::types::{PixelFormat, Position, Resolution, Transport};
use bytes::Bytes;
use std::time::Duration;
use vstd::prelude::*;
use vstd::slice::slice_subrange;

verus! {

/// `MJPG`
pub const MJPG: u32 = 0x4d4a_5047;

/// `JPEG`
pub const JPEG: u32 = 0x4a50_4547;

/// `YUYV`
pub const YUYV: u32 = 0x5955_5956;

/// `YUY2`
pub const YUY2: u32 = 0x5955_5932;

/// `NV12`
pub const NV12: u32 = 0x4e56_3132;

/// `RGB3`
pub const RGB3: u32 = 0x5247_4233;

/// `RGB` and a zero byte
pub const RGB0: u32 = 0x5247_4200;

/// `BGR3`
pub const BGR3: u32 = 0x4247_5233;

/// `AB24`
pub const AB24: u32 = 0x4142_3234;

/// `RGBA`
pub const RGBA: u32 = 0x5247_4241;

/// `BA24`
pub const BA24: u32 = 0x4241_3234;

/// `BGRA`
pub const BGRA: u32 = 0x4247_5241;

/// The pixel format that a four-character code stands for, its first character in the most
/// significant byte. A code that is not known is taken for compressed frames.
pub open spec fn format_of(code: u32) -> PixelFormat {
    if code == YUYV || code == YUY2 {
        PixelFormat::Yuyv
    } else if code == NV12 {
        PixelFormat::Nv12
    } else if code == RGB3 || code == RGB0 {
        PixelFormat::Rgb8
    } else if code == AB24 || code == RGBA {
        PixelFormat::Rgba8
    } else if code == BGR3 || code == BA24 || code == BGRA {
        PixelFormat::Bgra8
    } else {
        PixelFormat::Mjpeg
    }
}

/// The four-character code by which a pixel format is asked for.
pub open spec fn code_of(format: PixelFormat) -> u32 {
    match format {
        PixelFormat::Mjpeg => MJPG,
        PixelFormat::Yuyv => YUYV,
        PixelFormat::Nv12 => NV12,
        PixelFormat::Rgb8 => RGB3,
        PixelFormat::Rgba8 => AB24,
        PixelFormat::Bgra8 => BA24,
    }
}

/// The pixel format that a four-character code stands for.
pub fn fourcc_to_pixel_format(code: u32) -> (format: PixelFormat)
    ensures
        format == format_of(code),
{
    match code {
        MJPG | JPEG => PixelFormat::Mjpeg,
        YUYV | YUY2 => PixelFormat::Yuyv,
        NV12 => PixelFormat::Nv12,
        RGB3 | RGB0 => PixelFormat::Rgb8,
        BGR3 => PixelFormat::Bgra8,
        AB24 | RGBA => PixelFormat::Rgba8,
        BA24 | BGRA => PixelFormat::Bgra8,
        _ => PixelFormat::Mjpeg,
    }
}

/// The four-character code by which a pixel format is asked for.
pub fn pixel_format_to_fourcc(format: PixelFormat) -> (code: u32)
    ensures
        code == code_of(format),
{
    match format {
        PixelFormat::Mjpeg => MJPG,
        PixelFormat::Yuyv => YUYV,
        PixelFormat::Nv12 => NV12,
        PixelFormat::Rgb8 => RGB3,
        PixelFormat::Rgba8 => AB24,
        PixelFormat::Bgra8 => BA24,
    }
}

/// Asking for a pixel format by its code gives that format.
pub proof fn codes_read_back(format: PixelFormat)
    ensures
        format_of(code_of(format)) == format,
{
}

/// The time from one frame to the next, in seconds, as a fraction.
#[derive(Clone, Copy, Debug, PartialEq, Eq, Structural)]
pub struct Fraction {
    /// Numerator.
    pub numerator: u32,
    /// Denominator.
    pub denominator: u32,
}

/// The times from one frame to the next that a driver offers.
#[derive(Clone, Copy, Debug, PartialEq, Eq, Structural)]
pub enum FrameInterval {
    /// One time.
    Discrete(Fraction),
    /// Every time from the shortest to the longest, in steps.
    Stepwise {
        /// The shortest.
        min: Fraction,
        /// The longest.
        max: Fraction,
    },
}

/// Frames per second, given the time from one to the next. Where that is zero, it is taken
/// for a numerator of one.
pub open spec fn rate_of(interval: Fraction) -> FrameRate {
    FrameRate {
        numerator: interval.denominator as u64,
        denominator: if interval.numerator < 1 {
            1
        } else {
            interval.numerator as u64
        },
    }
}

fn frames_per_second(interval: Fraction) -> (rate: FrameRate)
    ensures
        rate == rate_of(interval),
{
    FrameRate {
        numerator: interval.denominator as u64,
        denominator: if interval.numerator < 1 {
            1
        } else {
            interval.numerator as u64
        },
    }
}

/// The framerates that an interval stands for: the longest time from frame to frame is the
/// lowest framerate.
pub fn interval_to_fps_range(interval: &FrameInterval) -> (range: FramerateRange)
    ensures
        range == (match *interval {
            FrameInterval::Discrete(value) => FramerateRange {
                min: rate_of(value),
                max: rate_of(value),
            },
            FrameInterval::Stepwise { min, max } => FramerateRange {
                min: rate_of(max),
                max: rate_of(min),
            },
        }),
{
    match interval {
        FrameInterval::Discrete(value) => {
            let rate = frames_per_second(*value);
            FramerateRange { min: rate, max: rate }
        },
        FrameInterval::Stepwise { min, max } => FramerateRange {
            min: frames_per_second(*max),
            max: frames_per_second(*min),
        },
    }
}

/// A capture mode as the driver lists it.
#[derive(Clone, Copy, Debug)]
pub struct DriverMode {
    /// Four-character code of the pixel format.
    pub code: u32,
    /// Width in pixels.
    pub width: u32,
    /// Height in pixels.
    pub height: u32,
    /// Times from frame to frame.
    pub interval: FrameInterval,
}

/// Whether a format is what a mode stands for.
pub open spec fn describes(format: FormatDescriptor, mode: DriverMode) -> bool {
    &&& format.resolution == (Resolution { width: mode.width, height: mode.height })
    &&& format.pixel_format == format_of(mode.code)
    &&& match mode.interval {
        FrameInterval::Discrete(value) => format.framerate_range.min == rate_of(value)
            && format.framerate_range.max == rate_of(value),
        FrameInterval::Stepwise { min, max } => format.framerate_range.min == rate_of(max)
            && format.framerate_range.max == rate_of(min),
    }
}

/// The formats that a driver's modes stand for, one for each, in order.
pub fn format_descriptors(modes: &Vec<DriverMode>) -> (formats: Vec<FormatDescriptor>)
    ensures
        formats@.len() == modes@.len(),
        forall|i: int|
            0 <= i < modes@.len() ==> describes(#[trigger] formats@[i], modes@[i]),
{
    let mut formats: Vec<FormatDescriptor> = Vec::new();
    let mut i: usize = 0;
    while i < modes.len()
        invariant
            i <= modes.len(),
            formats@.len() == i,
            forall|j: int| 0 <= j < i ==> describes(#[trigger] formats@[j], modes@[j]),
        decreases modes.len() - i,
    {
        let mode = modes[i];
        formats.push(
            FormatDescriptor {
                resolution: Resolution { width: mode.width, height: mode.height },
                framerate_range: interval_to_fps_range(&mode.interval),
                pixel_format: fourcc_to_pixel_format(mode.code),
            },
        );
        i = i + 1;
    }
    formats
}

/// A video device node.
#[derive(Debug)]
pub struct DeviceNode {
    /// Number of the node.
    pub index: u64,
    /// Name that the driver reports, if any.
    pub name: Option<String>,
    /// Path of the node, where it is text.
    pub path: Option<String>,
}

/// Whether a node has a path.
pub open spec fn is_usable(node: DeviceNode) -> bool {
    node.path matches Some(path) && path@.len() > 0
}

/// Whether a device is what a node stands for: known by its path, and named by its driver or
/// else after its number.
pub open spec fn is_device_of(device: Device, node: DeviceNode) -> bool {
    &&& node.path matches Some(path) && device.id@ == path@
    &&& device.name@ == (match node.name {
        Some(name) => name@,
        None => "/dev/video"@ + text::decimal(node.index as nat),
    })
    &&& device.position == Position::External
    &&& device.transport == Transport::Usb
}

/// The places of the usable ones among the first `count` nodes.
pub open spec fn usable(nodes: Seq<DeviceNode>, count: nat) -> Seq<int>
    decreases count,
{
    if count == 0 {
        Seq::empty()
    } else if is_usable(nodes[count - 1]) {
        usable(nodes, (count - 1) as nat).push(count - 1)
    } else {
        usable(nodes, (count - 1) as nat)
    }
}

/// The devices that the nodes stand for. A node without a path is passed over.
pub fn node_devices(nodes: &Vec<DeviceNode>) -> (devices: Vec<Device>)
    ensures
        devices@.len() == usable(nodes@, nodes@.len()).len(),
        forall|i: int|
            0 <= i < devices@.len() ==> is_device_of(
                #[trigger] devices@[i],
                nodes@[usable(nodes@, nodes@.len())[i]],
            ),
{
    let mut devices: Vec<Device> = Vec::new();
    let mut i: usize = 0;
    while i < nodes.len()
        invariant
            i <= nodes.len(),
            devices@.len() == usable(nodes@, i as nat).len(),
            forall|j: int|
                0 <= j < devices@.len() ==> is_device_of(
                    #[trigger] devices@[j],
                    nodes@[usable(nodes@, i as nat)[j]],
                ),
        decreases nodes.len() - i,
    {
        let node = &nodes[i];
        if let Some(path) = &node.path {
            if path.as_str().unicode_len() > 0 {
                let name = match &node.name {
                    Some(name) => name.clone(),
                    None => append_number("/dev/video".to_owned(), node.index),
                };
                devices.push(
                    Device {
                        id: DeviceId(path.clone()),
                        name,
                        position: Position::External,
                        transport: Transport::Usb,
                    },
                );
            }
        }
        i = i + 1;
    }
    devices
}

/// Bytes of the luma plane of an NV12 buffer.
pub open spec fn luma_size(width: u32, height: u32, stride: u32) -> int {
    (if stride == 0 {
        width as int
    } else {
        stride as int
    }) * height
}

/// A driver's buffer as the planes of a frame: an NV12 buffer is cut behind its luma plane,
/// and any other, or one too short for that, is a single plane.
pub open spec fn planes(
    data: Seq<u8>,
    format: PixelFormat,
    width: u32,
    height: u32,
    stride: u32,
) -> (Seq<u8>, Seq<u8>) {
    let size = luma_size(width, height, stride);
    if format == PixelFormat::Nv12 && data.len() >= size {
        (data.subrange(0, size), data.subrange(size, data.len() as int))
    } else {
        (data, Seq::empty())
    }
}

/// Cut a driver's buffer into the planes of a frame.
pub fn split_planes(data: &[u8], format: PixelFormat, width: u32, height: u32, stride: u32) -> (split:
    (Bytes, Bytes))
    ensures
        (buffer::contents(split.0), buffer::contents(split.1)) == planes(
            data@,
            format,
            width,
            height,
            stride,
        ),
{
    if format == PixelFormat::Nv12 {
        let step: u64 = if stride == 0 {
            width as u64
        } else {
            stride as u64
        };
        proof {
            assert(0 <= step * height <= 0xffff_ffff * 0xffff_ffff) by (nonlinear_arith)
                requires
                    0 <= step <= 0xffff_ffff,
                    0 <= height <= 0xffff_ffff,
            ;
        }
        let size: u64 = step * height as u64;
        if data.len() as u64 >= size {
            let primary = buffer::copy_from_slice(slice_subrange(data, 0, size as usize));
            let secondary = buffer::copy_from_slice(
                slice_subrange(data, size as usize, data.len()),
            );
            return (primary, secondary);
        }
    }
    (buffer::copy_from_slice(data), no_bytes())
}

/// Cutting a buffer into planes loses nothing and adds nothing.
pub proof fn planes_make_up_the_buffer(
    data: Seq<u8>,
    format: PixelFormat,
    width: u32,
    height: u32,
    stride: u32,
)
    ensures
        planes(data, format, width, height, stride).0 + planes(
            data,
            format,
            width,
            height,
            stride,
        ).1 == data,
{
    assert(0 <= luma_size(width, height, stride)) by (nonlinear_arith)
        requires
            luma_size(width, height, stride) == (if stride == 0 {
                width as int
            } else {
                stride as int
            }) * height,
    ;
    let (primary, secondary) = planes(data, format, width, height, stride);
    assert(primary + secondary =~= data);
}

/// The frame that a driver's buffer holds.
pub fn captured_frame(
    data: &[u8],
    format: PixelFormat,
    width: u32,
    height: u32,
    stride: u32,
    timestamp: Duration,
) -> (frame: Frame)
    ensures
        frame@.width == width,
        frame@.height == height,
        frame@.stride == stride,
        frame@.timestamp == timestamp,
        frame@.pixel_format == format,
        frame@.quality == FrameQuality::Intact,
        (frame@.plane_primary, frame@.plane_secondary) == planes(
            data@,
            format,
            width,
            height,
            stride,
        ),
{
    let (plane_primary, plane_secondary) = split_planes(data, format, width, height, stride);
    Frame {
        width,
        height,
        stride,
        timestamp,
        pixel_format: format,
        quality: FrameQuality::Intact,
        plane_primary,
        plane_secondary,
    }
}

/// Why a call to the driver failed, as far as it matters.
#[derive(Clone, Copy, Debug, PartialEq, Eq, Structural)]
pub enum IoFailure {
    /// Access was denied.
    PermissionDenied,
    /// There is no such device.
    NotFound,
    /// Anything else.
    Other,
}

/// A failed call to the driver as this library's error.
pub fn map_io_error(failure: IoFailure, description: String) -> (error: Error)
    ensures
        error@ == (match failure {
            IoFailure::PermissionDenied => ErrorView::PermissionDenied,
            IoFailure::NotFound => ErrorView::DeviceNotFound(description@),
            IoFailure::Other => ErrorView::Backend {
                platform: "linux"@,
                message: description@,
            },
        }),
{
    match failure {
        IoFailure::PermissionDenied => Error::PermissionDenied,
        IoFailure::NotFound => Error::DeviceNotFound(description),
        IoFailure::Other => Error::Backend { platform: "linux", message: description },
    }
}

/// The answer to everything about controls where a platform has none yet.
pub fn controls_not_implemented(platform: &'static str) -> (error: Error)
    ensures
        error@ == (ErrorView::Unsupported {
            platform: platform@,
            reason: "controls not yet implemented"@,
        }),
{
    Error::Unsupported { platform, reason: "controls not yet implemented" }
}

} // verus!

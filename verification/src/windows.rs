//! Media Foundation: what its media types, samples and result codes mean.

use crate::error::{Error, ErrorView};
use crate::linux;
use crate::linux::split_planes;
use crate::negotiation;
use crate::negotiation::{pick_native_mode, NativeMatch, NativeMode};
use crate::text;
use crate::text::{append, append_hex};
use crate::types::{Device, DeviceId, FormatDescriptor, Frame, FrameQuality, FrameRate, FramerateRange};
use crate::types::{PixelFormat, Position, Resolution, StreamConfig, Transport};
use std::time::Duration;
use vstd::prelude::*;

verus! {

/// The subtypes of video that matter.
#[derive(Clone, Copy, Debug, PartialEq, Eq, Structural)]
pub enum VideoSubtype {
    /// `MFVideoFormat_RGB32`
    Rgb32,
    /// `MFVideoFormat_ARGB32`
    Argb32,
    /// `MFVideoFormat_NV12`
    Nv12,
    /// `MFVideoFormat_YUY2`
    Yuy2,
    /// `MFVideoFormat_MJPG`
    Mjpg,
    /// `MFVideoFormat_RGB24`
    Rgb24,
    /// Any other.
    Other,
}

/// The pixel format that a subtype stands for. One that is not known is taken for compressed
/// frames.
pub open spec fn format_of(subtype: VideoSubtype) -> PixelFormat {
    match subtype {
        VideoSubtype::Rgb32 => PixelFormat::Bgra8,
        VideoSubtype::Argb32 => PixelFormat::Rgba8,
        VideoSubtype::Nv12 => PixelFormat::Nv12,
        VideoSubtype::Yuy2 => PixelFormat::Yuyv,
        _ => PixelFormat::Mjpeg,
    }
}

/// The subtype by which a pixel format is asked for.
pub open spec fn subtype_of(format: PixelFormat) -> VideoSubtype {
    match format {
        PixelFormat::Bgra8 => VideoSubtype::Rgb32,
        PixelFormat::Rgba8 => VideoSubtype::Argb32,
        PixelFormat::Nv12 => VideoSubtype::Nv12,
        PixelFormat::Yuyv => VideoSubtype::Yuy2,
        PixelFormat::Mjpeg => VideoSubtype::Mjpg,
        PixelFormat::Rgb8 => VideoSubtype::Rgb24,
    }
}

/// The pixel format that a subtype stands for.
pub fn guid_to_pixel_format(subtype: VideoSubtype) -> (format: PixelFormat)
    ensures
        format == format_of(subtype),
{
    match subtype {
        VideoSubtype::Rgb32 => PixelFormat::Bgra8,
        VideoSubtype::Argb32 => PixelFormat::Rgba8,
        VideoSubtype::Nv12 => PixelFormat::Nv12,
        VideoSubtype::Yuy2 => PixelFormat::Yuyv,
        _ => PixelFormat::Mjpeg,
    }
}

/// The subtype by which a pixel format is asked for.
pub fn pixel_format_to_guid(format: PixelFormat) -> (subtype: VideoSubtype)
    ensures
        subtype == subtype_of(format),
{
    match format {
        PixelFormat::Bgra8 => VideoSubtype::Rgb32,
        PixelFormat::Rgba8 => VideoSubtype::Argb32,
        PixelFormat::Nv12 => VideoSubtype::Nv12,
        PixelFormat::Yuyv => VideoSubtype::Yuy2,
        PixelFormat::Mjpeg => VideoSubtype::Mjpg,
        PixelFormat::Rgb8 => VideoSubtype::Rgb24,
    }
}

/// Asking for a pixel format by its subtype gives that format, but for RGB8: its subtype is
/// not one of those that are read.
pub proof fn subtypes_read_back(format: PixelFormat)
    requires
        format != PixelFormat::Rgb8,
    ensures
        format_of(subtype_of(format)) == format,
{
}

/// The format that a media type stands for. A framerate over zero seconds is no framerate.
pub fn descriptor_from_media_type(size: (u32, u32), rate: (u32, u32), subtype: VideoSubtype) -> (descriptor:
    FormatDescriptor)
    ensures
        descriptor.resolution == (Resolution { width: size.0, height: size.1 }),
        descriptor.pixel_format == format_of(subtype),
        descriptor.framerate_range.min == descriptor.framerate_range.max,
        descriptor.framerate_range.max == (if rate.1 == 0 {
            FrameRate { numerator: 0, denominator: 1 }
        } else {
            FrameRate { numerator: rate.0 as u64, denominator: rate.1 as u64 }
        }),
{
    let fps = if rate.1 == 0 {
        FrameRate { numerator: 0, denominator: 1 }
    } else {
        FrameRate { numerator: rate.0 as u64, denominator: rate.1 as u64 }
    };
    FormatDescriptor {
        resolution: Resolution { width: size.0, height: size.1 },
        framerate_range: FramerateRange { min: fps, max: fps },
        pixel_format: guid_to_pixel_format(subtype),
    }
}

/// The device that an activation stands for, or a failure where it has no symbolic link.
pub fn activation_device(name: Option<String>, link: Option<String>) -> (device: Result<
    Device,
    Error,
>)
    ensures
        match link {
            None => device matches Err(error) && error@ == (ErrorView::Backend {
                platform: "windows"@,
                message: "missing symbolic link"@,
            }),
            Some(path) => device matches Ok(found) && {
                &&& found.id@ == path@
                &&& found.name@ == (match name {
                    Some(given) => given@,
                    None => "Camera"@,
                })
                &&& found.position == Position::External
                &&& found.transport == Transport::Usb
            },
        },
{
    match link {
        None => Err(
            Error::Backend {
                platform: "windows",
                message: "missing symbolic link".to_owned(),
            },
        ),
        Some(path) => Ok(
            Device {
                id: DeviceId(path),
                name: match name {
                    Some(given) => given,
                    None => "Camera".to_owned(),
                },
                position: Position::External,
                transport: Transport::Usb,
            },
        ),
    }
}

/// Pick the capture mode of a stream to use, or say why there is none.
///
/// `failure` describes why the stream's list of modes ended. It matters where the list is
/// empty.
pub fn pick_native_resolution(modes: &Vec<NativeMode>, failure: &str, target: Resolution) -> (picked:
    Result<NativeMatch, Error>)
    ensures
        match picked {
            Ok(found) => exists|index: int|
                {
                    &&& #[trigger] negotiation::is_native_pick(modes@, target, index)
                    &&& modes@[index].size == Some(
                        (found.resolution.width, found.resolution.height),
                    )
                    &&& found.framerate == negotiation::mode_framerate(modes@[index].rate)
                },
            Err(error) => {
                &&& forall|i: int| 0 <= i < modes@.len() ==> (#[trigger] modes@[i]).size is None
                &&& error@ == (if modes@.len() == 0 {
                    ErrorView::Backend {
                        platform: "windows"@,
                        message: "device has no enumerable video media types (GetNativeMediaType: "@
                            + failure@ + ")"@,
                    }
                } else {
                    ErrorView::FormatNotSupported
                })
            },
        },
{
    match pick_native_mode(modes, target) {
        Some(found) => Ok(found),
        None => {
            if modes.len() == 0 {
                let message = append(
                    "device has no enumerable video media types (GetNativeMediaType: ".to_owned(),
                    failure,
                );
                Err(Error::Backend { platform: "windows", message: append(message, ")") })
            } else {
                Err(Error::FormatNotSupported)
            }
        },
    }
}

/// Whether a stream can be used.
pub open spec fn usable(tried: Seq<(u32, Result<NativeMatch, Error>)>) -> spec_fn(int) -> bool {
    |i: int| tried[i].1 is Ok
}

/// Choose the stream to read from: the first video stream where it can be used, else the
/// first of the others that can. Where none can, the failure of the last one tried counts.
pub fn find_video_stream(
    first_video: u32,
    first: Result<NativeMatch, Error>,
    others: Vec<(u32, Result<NativeMatch, Error>)>,
) -> (chosen: Result<(u32, NativeMatch), Error>)
    ensures
        match first {
            Ok(found) => chosen == Ok::<(u32, NativeMatch), Error>((first_video, found)),
            Err(_) => match chosen {
                Ok((stream, found)) => exists|index: int|
                    #[trigger] crate::pick::is_first(others@.len() as int, usable(others@), index)
                        && others@[index] == (stream, Ok::<NativeMatch, Error>(found)),
                Err(error) => crate::pick::none_pass(others@.len() as int, usable(others@))
                    && error == (if others@.len() == 0 {
                    Error::FormatNotSupported
                } else {
                    others@.last().1->Err_0
                }),
            },
        },
{
    if let Ok(found) = first {
        return Ok((first_video, found));
    }
    let ghost can_use = usable(others@);
    let mut i: usize = 0;
    while i < others.len()
        invariant
            i <= others.len(),
            first is Err,
            can_use == usable(others@),
            forall|j: int| 0 <= j < i ==> !#[trigger] can_use(j),
        decreases others.len() - i,
    {
        if let Ok(found) = &others[i].1 {
            assert(can_use(i as int));
            assert(crate::pick::is_first(others@.len() as int, can_use, i as int));
            return Ok((others[i].0, *found));
        }
        assert(!can_use(i as int));
        i = i + 1;
    }
    let mut tried = others;
    match tried.pop() {
        None => Err(Error::FormatNotSupported),
        Some((_, outcome)) => match outcome {
            Err(error) => Err(error),
            Ok(_) => {
                assert(can_use(others@.len() - 1));
                Err(Error::FormatNotSupported)
            },
        },
    }
}

/// Bytes per row of a format without padding.
pub open spec fn tight_stride(format: PixelFormat, width: u32) -> int {
    match format {
        PixelFormat::Bgra8 => width * 4,
        PixelFormat::Rgba8 => width * 4,
        PixelFormat::Rgb8 => width * 3,
        PixelFormat::Yuyv => width * 2,
        PixelFormat::Nv12 => width as int,
        PixelFormat::Mjpeg => 0,
    }
}

/// Bytes per row of a format without padding.
pub fn expected_stride_bytes(format: PixelFormat, width: u32) -> (stride: u32)
    requires
        tight_stride(format, width) <= u32::MAX,
    ensures
        stride == tight_stride(format, width),
{
    match format {
        PixelFormat::Bgra8 | PixelFormat::Rgba8 => width * 4,
        PixelFormat::Rgb8 => width * 3,
        PixelFormat::Yuyv => width * 2,
        PixelFormat::Nv12 => width,
        PixelFormat::Mjpeg => 0,
    }
}

/// The stride that a media type declares. It is a signed number in an unsigned field, and
/// negative where the rows are stored bottom-up.
pub open spec fn declared_stride(field: u32) -> int {
    if field < 0x8000_0000 {
        field as int
    } else {
        0x1_0000_0000 - field
    }
}

/// The stride of a sample: the declared one, or else the one without padding.
pub fn sample_stride(field: Option<u32>, format: PixelFormat, width: u32) -> (stride: u32)
    requires
        field is None ==> tight_stride(format, width) <= u32::MAX,
    ensures
        stride == (match field {
            Some(declared) => declared_stride(declared),
            None => tight_stride(format, width),
        }),
{
    match field {
        Some(declared) => if declared < 0x8000_0000 {
            declared
        } else {
            (0x1_0000_0000 - declared as u64) as u32
        },
        None => expected_stride_bytes(format, width),
    }
}

/// How many bytes of a locked buffer to read: as many as it says it holds, and never more
/// than it can hold.
pub fn sample_length(current: u32, max: u32) -> (length: u32)
    ensures
        length == (if current < max {
            current
        } else {
            max
        }),
{
    if current < max {
        current
    } else {
        max
    }
}

/// A sample's time in nanoseconds, given in units of 100 nanoseconds. A time that is not
/// positive counts as zero, and one that is too large as the largest that fits.
pub fn sample_nanos(ticks: i64) -> (nanos: u64)
    ensures
        nanos == (if ticks <= 0 {
            0
        } else if ticks * 100 > u64::MAX {
            u64::MAX as int
        } else {
            ticks * 100
        }),
{
    if ticks <= 0 {
        return 0;
    }
    match (ticks as u64).checked_mul(100) {
        Some(nanos) => nanos,
        None => u64::MAX,
    }
}

/// The frame that a sample holds. An NV12 sample is cut behind its luma plane.
pub fn sample_frame(
    applied: StreamConfig,
    stride: u32,
    timestamp: Duration,
    data: &[u8],
) -> (frame: Frame)
    ensures
        frame@.width == applied.resolution.width,
        frame@.height == applied.resolution.height,
        frame@.stride == stride,
        frame@.timestamp == timestamp,
        frame@.pixel_format == applied.pixel_format,
        frame@.quality == FrameQuality::Intact,
        (frame@.plane_primary, frame@.plane_secondary) == linux::planes(
            data@,
            applied.pixel_format,
            applied.resolution.width,
            applied.resolution.height,
            stride,
        ),
{
    let (plane_primary, plane_secondary) = split_planes(
        data,
        applied.pixel_format,
        applied.resolution.width,
        applied.resolution.height,
        stride,
    );
    Frame {
        width: applied.resolution.width,
        height: applied.resolution.height,
        stride,
        timestamp,
        pixel_format: applied.pixel_format,
        quality: FrameQuality::Intact,
        plane_primary,
        plane_secondary,
    }
}

/// Whether initializing COM needs undoing, given its result code: it does where it succeeded
/// or had been done before (0 or 1). A negative code is a failure.
pub fn com_outcome(code: i32) -> (outcome: Result<bool, Error>)
    ensures
        match outcome {
            Ok(undo) => code >= 0 && undo == (code == 0 || code == 1),
            Err(error) => code < 0 && error@ == (ErrorView::Backend {
                platform: "windows"@,
                message: "CoInitializeEx failed: 0x"@ + text::hex8(
                    (code + 0x1_0000_0000) as u32,
                ),
            }),
        },
{
    if code >= 0 {
        return Ok(code == 0 || code == 1);
    }
    let bits: u32 = (code as i64 + 0x1_0000_0000) as u32;
    Err(
        Error::Backend {
            platform: "windows",
            message: append_hex("CoInitializeEx failed: 0x".to_owned(), bits),
        },
    )
}

} // verus!

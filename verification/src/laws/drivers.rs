//! What holds of the frames and the formats that drivers and decoders hand over.

use crate::convert;
use crate::decode;
use crate::error::Error;
use crate::laws::colors;
use crate::laws::pixels;
use crate::linux;
use crate::linux::{DeviceNode, DriverMode, Fraction, FrameInterval};
use crate::macos;
use crate::macos::RangeChoice;
use crate::negotiation;
use crate::negotiation::NativeMatch;
use crate::rtsp;
use crate::types::{Device, FormatDescriptor, FrameQuality, FrameView, FramerateRange, PixelFormat};
use crate::windows;
use vstd::arithmetic::{div_mod, mul};
use vstd::prelude::*;

verus! {

/// A framerate is one over the time from frame to frame: a mode with one such time supports
/// just the framerate at which that many frames fill a second.
pub proof fn intervals_are_framerates(
    interval: Fraction,
    range: FramerateRange,
    fps: u32,
    supported: bool,
)
    requires
        interval.numerator > 0,
        call_ensures(linux::interval_to_fps_range, (&FrameInterval::Discrete(interval),), range),
        call_ensures(negotiation::supports_framerate, (&range, fps), supported),
    ensures
        supported == (fps * interval.numerator == interval.denominator),
{
}

/// A mode with a span of times from frame to frame supports a framerate exactly where one over
/// it lies in the span: neither shorter than the shortest time nor longer than the longest.
pub proof fn spans_are_framerate_ranges(
    min: Fraction,
    max: Fraction,
    range: FramerateRange,
    fps: u32,
    supported: bool,
)
    requires
        min.numerator > 0,
        max.numerator > 0,
        call_ensures(
            linux::interval_to_fps_range,
            (&FrameInterval::Stepwise { min, max },),
            range,
        ),
        call_ensures(negotiation::supports_framerate, (&range, fps), supported),
    ensures
        supported == (fps * min.numerator <= min.denominator && max.denominator <= fps
            * max.numerator),
{
}

/// The framerate of a network stream is one over the time that a frame lasts, rounded to the
/// nearest whole number.
pub proof fn stream_framerates_are_rounded(numerator: u32, denominator: u32)
    requires
        numerator > 0,
    ensures
        2 * (rtsp::whole_rate((numerator, denominator)) * numerator) <= 2 * denominator
            + numerator,
        2 * denominator < 2 * (rtsp::whole_rate((numerator, denominator)) * numerator) + numerator,
{
    let fps = rtsp::whole_rate((numerator, denominator));
    let (top, bottom) = (2 * denominator + numerator, 2 * numerator);
    div_mod::lemma_fundamental_div_mod(top, bottom);
    assert(bottom * fps == 2 * (fps * numerator)) by (nonlinear_arith)
        requires
            bottom == 2 * numerator,
    ;
}

/// A frame counts as intact exactly where no packet was lost before it.
pub proof fn lost_packets_are_told(loss: u16)
    ensures
        rtsp::quality_after(loss) == FrameQuality::Intact <==> loss == 0,
        rtsp::quality_after(loss) == FrameQuality::Recovering <==> loss > 0,
{
}

/// Every pixel of an NV12 buffer is found where NV12 keeps it: its brightness in its own row,
/// and its chroma, shared with three others, behind the rows of brightness.
#[verifier::rlimit(40)]
pub proof fn nv12_buffers_show_their_pixels(
    data: Seq<u8>,
    frame: FrameView,
    row: int,
    col: int,
    byte: int,
)
    requires
        frame.pixel_format == PixelFormat::Nv12,
        (frame.plane_primary, frame.plane_secondary) == linux::planes(
            data,
            PixelFormat::Nv12,
            frame.width,
            frame.height,
            frame.stride,
        ),
        colors::pitch(frame) >= frame.width,
        colors::pitch(frame) % 2 == 0,
        data.len() >= colors::pitch(frame) * frame.height + colors::pitch(frame) * ((frame.height
            + 1) / 2),
        0 <= row < frame.height,
        0 <= col < frame.width,
        0 <= byte < 3,
    ensures
        ({
            let step = colors::pitch(frame);
            let chroma = step * frame.height + row / 2 * step + col / 2 * 2;
            convert::rgb8(frame) matches Ok(rgb) && rgb[3 * (row * frame.width + col) + byte]
                == convert::yuv_pixel(data[row * step + col], data[chroma], data[chroma + 1])[byte]
        }),
{
    let (width, height, step) = (frame.width as int, frame.height as int, colors::pitch(frame));
    let size = step * height;
    assert(linux::luma_size(frame.width, frame.height, frame.stride) == size);
    assert(0 <= size) by (nonlinear_arith)
        requires
            0 <= step,
            0 <= height,
            size == step * height,
    ;
    mul::lemma_mul_inequality(row, height - 1, step);
    mul::lemma_mul_inequality(row / 2, (height - 1) / 2, step);
    mul::lemma_mul_is_distributive_sub_other_way(step, height, 1);
    mul::lemma_mul_is_commutative(step, height);
    assert(0 <= step * ((height + 1) / 2)) by (nonlinear_arith)
        requires
            0 <= step,
            0 <= height,
    ;
    let half = (height - 1) / 2;
    assert(half + 1 == (height + 1) / 2);
    mul::lemma_mul_is_distributive_add_other_way(step, half, 1);
    mul::lemma_mul_is_commutative(step, half + 1);
    assert(half * step + (width - 1) / 2 * 2 + 2 <= (half + 1) * step);
    assert(frame.plane_primary.len() == size);
    assert(frame.plane_secondary.len() == data.len() - size);
    assert(0 <= row * step && 0 <= row / 2 * step) by (nonlinear_arith)
        requires
            0 <= row,
            0 <= row / 2,
            0 <= step,
    ;
    colors::pixels_stay_in_place(frame, row, col, byte);
}

/// A stride that leaves no padding means the same as none.
pub proof fn tight_strides_are_no_strides(frame: FrameView, tight: FrameView)
    requires
        frame.stride == 0,
        frame.pixel_format != PixelFormat::Mjpeg,
        windows::tight_stride(frame.pixel_format, frame.width) <= u32::MAX,
        tight == (FrameView {
            stride: windows::tight_stride(frame.pixel_format, frame.width) as u32,
            ..frame
        }),
    ensures
        convert::rgb8(tight) == convert::rgb8(frame),
        convert::rgba8(tight) == convert::rgba8(frame),
        convert::luma8(tight) == convert::luma8(frame),
{
}

/// A decoder's NV12 frame shows the same colors once it is delivered as BGRA.
#[verifier::rlimit(40)]
pub proof fn announced_frames_show_the_same(frame: FrameView)
    requires
        frame.pixel_format == PixelFormat::Nv12,
        decode::becomes_bgra(frame),
    ensures
        decode::announced(frame, PixelFormat::Bgra8).pixel_format == PixelFormat::Bgra8,
        decode::announced(frame, PixelFormat::Bgra8).width == frame.width,
        decode::announced(frame, PixelFormat::Bgra8).height == frame.height,
        convert::rgb8(decode::announced(frame, PixelFormat::Bgra8)) == convert::rgb8(frame),
{
    let shown = decode::announced(frame, PixelFormat::Bgra8);
    announced_length(frame);
    pixels::output_is_tightly_packed(shown);
    pixels::output_is_tightly_packed(frame);
    let left = convert::rgb8(shown)->Ok_0;
    let right = convert::rgb8(frame)->Ok_0;
    assert forall|i: int| 0 <= i < left.len() implies left[i] == right[i] by {
        announced_byte(frame, i / 3, i % 3);
    }
    assert(left =~= right);
}

/// A frame that is delivered as BGRA holds all of its pixels.
#[verifier::rlimit(40)]
proof fn announced_length(frame: FrameView)
    requires
        frame.pixel_format == PixelFormat::Nv12,
        decode::becomes_bgra(frame),
    ensures
        decode::announced(frame, PixelFormat::Bgra8).plane_primary.len() == frame.height * (4
            * frame.width),
        pixels::holds_rows(decode::announced(frame, PixelFormat::Bgra8)),
        pixels::holds_rows(frame),
{
    let (width, height) = (frame.width as int, frame.height as int);
    let step = convert::row_step(frame.stride, width);
    let rows = decode::bgra_row(frame.plane_primary, frame.plane_secondary, frame.width, step);
    assert forall|i: int| 0 <= i < height implies (#[trigger] rows(i)).len() == width * 4 by {
        let pixel = decode::bgra_pixel(frame.plane_primary, frame.plane_secondary, step, i);
        assert forall|j: int| 0 <= j < width implies (#[trigger] pixel(j)).len() == 4 by {}
        crate::tiling::joined_uniform(width as nat, pixel, 4);
    }
    crate::tiling::joined_uniform(height as nat, rows, (width * 4) as nat);
}

/// A byte of a pixel of a frame that is delivered as BGRA.
#[verifier::rlimit(40)]
proof fn announced_byte(frame: FrameView, place: int, byte: int)
    requires
        frame.pixel_format == PixelFormat::Nv12,
        decode::becomes_bgra(frame),
        decode::announced(frame, PixelFormat::Bgra8).plane_primary.len() == frame.height * (4
            * frame.width),
        0 <= place < frame.width * frame.height,
        0 <= byte < 3,
    ensures
        ({
            let shown = decode::announced(frame, PixelFormat::Bgra8);
            convert::rgb8(shown) matches Ok(left) && convert::rgb8(frame) matches Ok(right)
                && left[3 * place + byte] == right[3 * place + byte]
        }),
{
    let shown = decode::announced(frame, PixelFormat::Bgra8);
    let (width, height) = (frame.width as int, frame.height as int);
    assert(width > 0) by (nonlinear_arith)
        requires
            0 <= place < width * height,
            0 <= width,
            0 <= height,
    ;
    let row = place / width;
    let col = place % width;
    div_mod::lemma_fundamental_div_mod(place, width);
    div_mod::lemma_div_pos_is_pos(place, width);
    mul::lemma_mul_is_commutative(width, row);
    assert(row < height) by (nonlinear_arith)
        requires
            place < width * height,
            place == row * width + col,
            0 <= col,
            0 < width,
    ;
    assert(colors::holds_pixels(shown, false));
    colors::pixels_stay_in_place(shown, row, col, byte);
    pixels::bgra_agrees_with_rgb(
        frame.plane_primary,
        frame.plane_secondary,
        frame.width,
        frame.height,
        frame.stride,
        place,
    );
    assert(row * (4 * width) + 4 * col == 4 * place) by (nonlinear_arith)
        requires
            place == row * width + col,
    ;
}

proof fn usable_places(nodes: Seq<DeviceNode>, count: nat, place: int)
    requires
        count <= nodes.len(),
    ensures
        linux::usable(nodes, count).contains(place) <==> 0 <= place < count && linux::is_usable(
            nodes[place],
        ),
        forall|i: int, j: int|
            0 <= i < j < linux::usable(nodes, count).len() ==> #[trigger] linux::usable(
                nodes,
                count,
            )[i] < #[trigger] linux::usable(nodes, count)[j],
        forall|i: int|
            0 <= i < linux::usable(nodes, count).len() ==> 0 <= #[trigger] linux::usable(
                nodes,
                count,
            )[i] < count,
    decreases count,
{
    if count > 0 {
        let before = linux::usable(nodes, (count - 1) as nat);
        let all = linux::usable(nodes, count);
        usable_places(nodes, (count - 1) as nat, place);
        if before.contains(place) {
            let i = choose|i: int| 0 <= i < before.len() && before[i] == place;
            assert(all[i] == place);
        }
        if all.contains(place) {
            let i = choose|i: int| 0 <= i < all.len() && all[i] == place;
            if i < before.len() {
                assert(before[i] == place);
            }
        }
        if place == count - 1 && linux::is_usable(nodes[place]) {
            assert(all[all.len() - 1] == place);
        }
    }
}

/// Every video node with a path is a device of that path, and every device is such a node.
pub proof fn nodes_with_paths_are_devices(
    nodes: Vec<DeviceNode>,
    devices: Vec<Device>,
    place: int,
)
    requires
        call_ensures(linux::node_devices, (&nodes,), devices),
    ensures
        0 <= place < nodes@.len() ==> (nodes@[place].path matches Some(path) ==> path@.len() > 0
            ==> exists|i: int|
            0 <= i < devices@.len() && (#[trigger] devices@[i]).id.0@ == path@),
        0 <= place < devices@.len() ==> exists|i: int|
            0 <= i < nodes@.len() && ((#[trigger] nodes@[i]).path matches Some(path) && path@.len()
                > 0 && devices@[place].id.0@ == path@),
        devices@.len() <= nodes@.len(),
{
    let places = linux::usable(nodes@, nodes@.len());
    usable_places(nodes@, nodes@.len(), place);
    if 0 <= place < nodes@.len() && linux::is_usable(nodes@[place]) {
        let i = choose|i: int| 0 <= i < places.len() && places[i] == place;
        assert(linux::is_device_of(devices@[i], nodes@[places[i]]));
    }
    if 0 <= place < devices@.len() {
        let i = places[place];
        usable_places(nodes@, nodes@.len(), i);
        assert(places.contains(i));
        assert(linux::is_device_of(devices@[place], nodes@[i]));
    }
    usable_is_short(nodes@, nodes@.len());
}

proof fn usable_is_short(nodes: Seq<DeviceNode>, count: nat)
    ensures
        linux::usable(nodes, count).len() <= count,
    decreases count,
{
    if count > 0 {
        usable_is_short(nodes, (count - 1) as nat);
    }
}

/// Every pixel of a decoder's NV12 sample is found where NV12 keeps it, and comes out as blue,
/// green, red and opaque. A sample that is too short comes out as nothing at all.
#[verifier::rlimit(40)]
pub proof fn samples_show_their_pixels(
    sample: Seq<u8>,
    width: u32,
    height: u32,
    stride: u32,
    row: int,
    col: int,
)
    requires
        width <= stride,
        stride % 2 == 0,
        height % 2 == 0,
        0 <= row < height,
        0 <= col < width,
    ensures
        ({
            let bgra = decode::sample_bgra(sample, width, height, stride);
            let place = 4 * (row * width + col);
            let chroma = stride * height + row / 2 * stride + col / 2 * 2;
            if 2 * sample.len() >= 3 * (stride * height) {
                let color = convert::yuv_pixel(
                    sample[row * stride + col],
                    sample[chroma],
                    sample[chroma + 1],
                );
                bgra[place] == color[2] && bgra[place + 1] == color[1] && bgra[place + 2]
                    == color[0] && bgra[place + 3] == 255
            } else {
                bgra.len() == 4 * (width * height) && bgra[place] == 0 && bgra[place + 3] == 0
            }
        }),
{
    let size = stride * height;
    let total = decode::sample_size(height, stride);
    assert(2 * total == 3 * size) by (nonlinear_arith)
        requires
            total == stride * height + stride * (height / 2),
            size == stride * height,
            height % 2 == 0,
    ;
    assert(0 <= size) by (nonlinear_arith)
        requires
            size == stride * height,
            0 <= stride,
            0 <= height,
    ;
    let place = row * width + col;
    crate::tiling::row_inside(row, height as int, width as int);
    mul::lemma_mul_is_commutative(width as int, height as int);
    mul::lemma_mul_is_commutative(stride as int, height as int);
    if sample.len() >= total {
        let (step, half) = (stride as int, height as int / 2);
        let luma = sample.subrange(0, size);
        let chroma = sample.subrange(size, total);
        let rows = decode::bgra_row(luma, chroma, width, step);
        let pixel = decode::bgra_pixel(luma, chroma, step, row);
        assert forall|i: int| 0 <= i < height implies (#[trigger] rows(i)).len() == width * 4 by {
            let across = decode::bgra_pixel(luma, chroma, step, i);
            assert forall|j: int| 0 <= j < width implies (#[trigger] across(j)).len() == 4 by {}
            crate::tiling::joined_uniform(width as nat, across, 4);
        }
        assert forall|byte: int| 0 <= byte < 4 implies decode::sample_bgra(
            sample,
            width,
            height,
            stride,
        )[place * 4 + byte] == #[trigger] pixel(col)[byte] by {
            pixels::pixel_byte(rows, pixel, width, height, 4, row, col, byte);
        }
        crate::tiling::row_inside(row, height as int, step);
        crate::tiling::row_inside(row / 2, half, step);
        assert(half * step == total - size) by (nonlinear_arith)
            requires
                total == size + stride * (height / 2),
                step == stride,
                half == height / 2,
        ;
        assert(luma[row * step + col] == sample[row * stride + col]);
        let at = row / 2 * step + col / 2 * 2;
        assert(0 <= at && at + 1 < total - size);
        assert(chroma[at] == sample[size + at]);
        assert(chroma[at + 1] == sample[size + at + 1]);
        assert(pixel(col)[0] == decode::sample_bgra(sample, width, height, stride)[4 * place]);
        assert(pixel(col)[1] == decode::sample_bgra(sample, width, height, stride)[4 * place + 1]);
        assert(pixel(col)[2] == decode::sample_bgra(sample, width, height, stride)[4 * place + 2]);
        assert(pixel(col)[3] == decode::sample_bgra(sample, width, height, stride)[4 * place + 3]);
    } else {
        assert(width * height * 4 == 4 * (width * height));
    }
}

/// A decoded image takes its rows of brightness and half as many of chroma, each as wide as the
/// image and at most fifteen bytes wider.
pub proof fn decoded_images_fit_their_samples(width: u32, height: u32, stride: u32, size: u32)
    requires
        width <= 0xffff_fff0,
        decode::nv12_bytes(width, height) <= u32::MAX,
        call_ensures(decode::nv12_stride, (width,), stride),
        call_ensures(decode::nv12_frame_size, (width, height), size),
    ensures
        width <= stride <= width + 15,
        stride % 16 == 0,
        size == stride * height + stride * (height / 2),
{
    assert(stride == (width + 15) / 16 * 16);
}

/// The two planes of a decoded image are read whole, and only where they share a stride.
pub proof fn planes_share_a_stride(
    y_stride: usize,
    y_rows: usize,
    uv_stride: usize,
    uv_rows: usize,
    layout: Option<decode::BiplanarLayout>,
)
    requires
        call_ensures(decode::biplanar_layout, (y_stride, y_rows, uv_stride, uv_rows), layout),
        y_stride * y_rows <= usize::MAX,
        uv_stride * uv_rows <= usize::MAX,
    ensures
        layout is Some <==> y_stride == uv_stride && y_stride > 0 && y_rows > 0 && uv_rows > 0,
        layout matches Some(found) ==> found.y_len == y_stride * y_rows && found.uv_len
            == uv_stride * uv_rows && (y_stride <= u32::MAX ==> found.stride == y_stride),
{
    assert((y_stride * y_rows == 0) == (y_stride == 0 || y_rows == 0)) by (nonlinear_arith)
        requires
            0 <= y_stride,
            0 <= y_rows,
    ;
    assert((uv_stride * uv_rows == 0) == (uv_stride == 0 || uv_rows == 0)) by (nonlinear_arith)
        requires
            0 <= uv_stride,
            0 <= uv_rows,
    ;
}

/// A declared stride counts without its sign, which says only which way the rows run.
pub proof fn strides_count_without_their_sign(stride: i32, field: u32)
    requires
        stride > i32::MIN,
        field == if stride < 0 {
            stride + 0x1_0000_0000
        } else {
            stride as int
        },
    ensures
        windows::declared_stride(field) == if stride < 0 {
            -stride
        } else {
            stride as int
        },
{
}

/// The first video among a session's streams is the one that is played.
pub proof fn the_first_video_is_played(media: Vec<String>, place: Result<usize, Error>)
    requires
        call_ensures(rtsp::find_video_stream, (&media,), place),
    ensures
        place matches Ok(index) ==> index < media@.len() && media@[index as int]@ == "video"@
            && forall|i: int| 0 <= i < index ==> (#[trigger] media@[i])@ != "video"@,
        place is Err ==> forall|i: int|
            0 <= i < media@.len() ==> (#[trigger] media@[i])@ != "video"@,
{
    let video = rtsp::is_video(media@);
    assert(forall|i: int| #[trigger] video(i) == (media@[i]@ == "video"@));
    if let Ok(index) = place {
        assert(video(index as int));
        assert forall|i: int| 0 <= i < index implies (#[trigger] media@[i])@ != "video"@ by {
            assert(!video(i));
        }
    } else {
        assert forall|i: int| 0 <= i < media@.len() implies (#[trigger] media@[i])@ != "video"@ by {
            assert(!video(i));
        }
    }
}

/// A framerate range that holds what was asked for is used before any that does not, the first
/// such one, and otherwise the first of those that come nearest.
pub proof fn framerate_ranges_are_picked(
    choices: Vec<RangeChoice>,
    picked: Option<usize>,
    place: int,
)
    requires
        call_ensures(macos::pick_frame_duration, (&choices,), picked),
        0 <= place < choices@.len(),
    ensures
        picked matches Some(index) && index < choices@.len() && {
            let (chosen, other) = (choices@[index as int], choices@[place]);
            &&& other.inside ==> chosen.inside && index <= place
            &&& !chosen.inside ==> chosen.distance <= other.distance && (chosen.distance
                == other.distance ==> index <= place)
        },
{
    let inside = |i: int| choices@[i].inside;
    let distance = |i: int| choices@[i].distance as int;
    let index = picked->0 as int;
    assert(inside(place) == choices@[place].inside);
    assert(inside(index) == choices@[index].inside);
    assert(distance(place) == choices@[place].distance);
    assert(distance(index) == choices@[index].distance);
}

/// A four-character code, its first character in the most significant byte.
pub open spec fn fourcc(first: u8, second: u8, third: u8, fourth: u8) -> int {
    first * 0x100_0000 + second * 0x1_0000 + third * 0x100 + fourth
}

/// Pixel formats go by the codes that spell them.
pub proof fn codes_spell_their_formats()
    ensures
        linux::code_of(PixelFormat::Mjpeg) == fourcc(0x4d, 0x4a, 0x50, 0x47),
        linux::code_of(PixelFormat::Yuyv) == fourcc(0x59, 0x55, 0x59, 0x56),
        linux::code_of(PixelFormat::Nv12) == fourcc(0x4e, 0x56, 0x31, 0x32),
        linux::code_of(PixelFormat::Rgb8) == fourcc(0x52, 0x47, 0x42, 0x33),
        linux::code_of(PixelFormat::Rgba8) == fourcc(0x41, 0x42, 0x32, 0x34),
        linux::code_of(PixelFormat::Bgra8) == fourcc(0x42, 0x41, 0x32, 0x34),
        linux::format_of(fourcc(0x59, 0x55, 0x59, 0x32) as u32) == PixelFormat::Yuyv,
        linux::format_of(fourcc(0x4a, 0x50, 0x45, 0x47) as u32) == PixelFormat::Mjpeg,
        linux::format_of(fourcc(0x52, 0x47, 0x42, 0x41) as u32) == PixelFormat::Rgba8,
        linux::format_of(fourcc(0x42, 0x47, 0x52, 0x41) as u32) == PixelFormat::Bgra8,
{
}

/// A driver's modes are its formats, one for each and in order: of the mode's size, in the
/// pixel format that its code stands for, and at its framerates.
pub proof fn modes_are_formats(
    modes: Vec<DriverMode>,
    formats: Vec<FormatDescriptor>,
    place: int,
    range: FramerateRange,
    format: PixelFormat,
)
    requires
        call_ensures(linux::format_descriptors, (&modes,), formats),
        0 <= place < modes@.len(),
        call_ensures(linux::interval_to_fps_range, (&modes@[place].interval,), range),
        call_ensures(linux::fourcc_to_pixel_format, (modes@[place].code,), format),
    ensures
        formats@.len() == modes@.len(),
        formats@[place].resolution.width == modes@[place].width,
        formats@[place].resolution.height == modes@[place].height,
        formats@[place].pixel_format == format,
        formats@[place].framerate_range == range,
{
    assert(linux::describes(formats@[place], modes@[place]));
}

/// The first video stream is read where it can be used, and otherwise the first of the others
/// that can; where none can, there is none.
pub proof fn the_first_usable_stream_is_read(
    first_video: u32,
    first: Result<NativeMatch, Error>,
    others: Vec<(u32, Result<NativeMatch, Error>)>,
    chosen: Result<(u32, NativeMatch), Error>,
)
    requires
        call_ensures(windows::find_video_stream, (first_video, first, others), chosen),
    ensures
        first matches Ok(found) ==> chosen == Ok::<(u32, NativeMatch), Error>((first_video, found)),
        first is Err && chosen is Err ==> forall|i: int|
            0 <= i < others@.len() ==> (#[trigger] others@[i]).1 is Err,
        first is Err && chosen is Ok ==> exists|index: int|
            {
                &&& 0 <= index < others@.len()
                &&& #[trigger] others@[index] == (
                    chosen->Ok_0.0,
                    Ok::<NativeMatch, Error>(chosen->Ok_0.1),
                )
                &&& forall|i: int| 0 <= i < index ==> (#[trigger] others@[i]).1 is Err
            },
{
    let usable = windows::usable(others@);
    assert(forall|i: int| #[trigger] usable(i) == (others@[i].1 is Ok));
    if first is Err {
        if let Ok((stream, found)) = chosen {
            let index = choose|index: int|
                #[trigger] crate::pick::is_first(others@.len() as int, usable, index)
                    && others@[index] == (stream, Ok::<NativeMatch, Error>(found));
            assert forall|i: int| 0 <= i < index implies (#[trigger] others@[i]).1 is Err by {
                assert(!usable(i));
            }
            assert(others@[index] == (chosen->Ok_0.0, Ok::<NativeMatch, Error>(chosen->Ok_0.1)));
        } else {
            assert forall|i: int| 0 <= i < others@.len() implies (#[trigger] others@[i]).1 is Err by {
                assert(!usable(i));
            }
        }
    }
}

/// Every NV12 frame that holds its pixels can be delivered as BGRA, as long as that fits into
/// memory, and every frame as what it is.
pub proof fn whole_frames_can_be_delivered(frame: FrameView, format: PixelFormat)
    requires
        colors::holds_pixels(frame, false),
        4 * frame.width <= u32::MAX,
        4 * (frame.width * frame.height) <= usize::MAX,
    ensures
        frame.pixel_format == PixelFormat::Nv12 ==> decode::deliverable(frame, PixelFormat::Bgra8),
        decode::deliverable(frame, frame.pixel_format),
        decode::announced(frame, frame.pixel_format) == frame,
        !decode::deliverable(frame, format) ==> decode::announced(frame, format) == frame,
{
}

} // verus!

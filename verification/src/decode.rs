//! The parts of hardware H.264 / H.265 decoding that do not touch the hardware.
//!
//! Each platform has a native decoder: `VideoToolbox` on macOS and a Media Foundation
//! transform on Windows. Both take codec extradata and length-prefixed NAL units. Here are
//! the parameter sets in the extradata, the layout of what the decoders deliver, and the
//! queue that collects it.

use crate::buffer;
use crate::convert;
use crate::error::{backend_error, Error, ErrorView};
use crate::text;
use crate::text::append_signed;
use crate::tiling;
use crate::types::{Frame, FrameQuality, FrameView, PixelFormat};
use bytes::Bytes;
use std::time::Duration;
use vstd::arithmetic::mul;
use vstd::prelude::*;
use vstd::slice::{slice_subrange, slice_to_vec};

verus! {

/// Which video codec the decoder is configured for.
#[derive(Clone, Copy, Debug, PartialEq, Eq, Hash, Structural)]
pub enum VideoCodec {
    /// H.264 / AVC
    H264,
    /// H.265 / HEVC
    H265,
}

/// The two bytes at `at` as a big-endian number.
pub open spec fn be16(data: Seq<u8>, at: int) -> int {
    data[at] * 256 + data[at + 1]
}

/// Up to `count` parameter sets that follow each other from `at` on, each after its length
/// in two bytes, and where reading them stopped: behind the last one, or at the first that
/// the data is too short for.
pub open spec fn sets_at(data: Seq<u8>, at: int, count: nat) -> (Seq<Seq<u8>>, int)
    decreases count,
{
    if count == 0 || at + 2 > data.len() {
        (Seq::empty(), at)
    } else {
        let end = at + 2 + be16(data, at);
        if end > data.len() {
            (Seq::empty(), at + 2)
        } else {
            let (rest, stop) = sets_at(data, end, (count - 1) as nat);
            (seq![data.subrange(at + 2, end)] + rest, stop)
        }
    }
}

/// The parameter sets in up to `count` arrays that follow each other from `at` on. An array
/// starts with a byte of flags and the number of its sets in two bytes.
pub open spec fn arrays_at(data: Seq<u8>, at: int, count: nat) -> Seq<Seq<u8>>
    decreases count,
{
    if count == 0 || at + 3 > data.len() {
        Seq::empty()
    } else {
        let (sets, stop) = sets_at(data, at + 3, be16(data, at + 1) as nat);
        sets + arrays_at(data, stop, (count - 1) as nat)
    }
}

/// A failure to read a codec's extradata.
pub open spec fn extradata_error(message: Seq<char>) -> ErrorView {
    ErrorView::Backend { platform: "macos"@, message }
}

/// The parameter sets of an AVCC record: sequence parameter sets, then picture parameter
/// sets.
pub open spec fn avcc_sets(data: Seq<u8>) -> Result<Seq<Seq<u8>>, ErrorView> {
    if data.len() < 7 {
        Err(extradata_error("AVCC record too short"@))
    } else {
        let (sps, middle) = sets_at(data, 6, (data[5] % 32) as nat);
        if middle >= data.len() {
            Err(extradata_error("AVCC record missing PPS count"@))
        } else {
            let all = sps + sets_at(data, middle + 1, data[middle] as nat).0;
            if all.len() == 0 {
                Err(extradata_error("AVCC record produced no parameter sets"@))
            } else {
                Ok(all)
            }
        }
    }
}

/// The parameter sets of an HVCC record, in the order of its arrays.
pub open spec fn hvcc_sets(data: Seq<u8>) -> Result<Seq<Seq<u8>>, ErrorView> {
    if data.len() < 23 {
        Err(extradata_error("HVCC record too short"@))
    } else {
        let all = arrays_at(data, 23, data[22] as nat);
        if all.len() == 0 {
            Err(extradata_error("HVCC record produced no parameter sets"@))
        } else {
            Ok(all)
        }
    }
}

/// Byte vectors as sequences.
pub open spec fn set_views(sets: Seq<Vec<u8>>) -> Seq<Seq<u8>> {
    sets.map_values(|set: Vec<u8>| set@)
}

/// Whether sizes are the lengths of the sets that they stand beside.
pub open spec fn sizes_fit(sets: Seq<Seq<u8>>, sizes: Seq<usize>) -> bool {
    &&& sets.len() == sizes.len()
    &&& forall|i: int| 0 <= i < sets.len() ==> (#[trigger] sets[i]).len() == sizes[i]
}

/// Whether reading extradata came out as expected.
pub open spec fn is_sets(
    result: Result<(Vec<Vec<u8>>, Vec<usize>), Error>,
    expected: Result<Seq<Seq<u8>>, ErrorView>,
) -> bool {
    match result {
        Ok((sets, sizes)) => expected == Ok::<Seq<Seq<u8>>, ErrorView>(set_views(sets@))
            && sizes_fit(set_views(sets@), sizes@),
        Err(error) => expected == Err::<Seq<Seq<u8>>, ErrorView>(error@),
    }
}

/// Append up to `count` parameter sets that start at `at`, and say where reading stopped.
fn push_sets(
    data: &[u8],
    at: usize,
    count: usize,
    sets: &mut Vec<Vec<u8>>,
    sizes: &mut Vec<usize>,
) -> (stop: usize)
    requires
        at <= data.len(),
        sizes_fit(set_views(old(sets)@), old(sizes)@),
    ensures
        set_views(final(sets)@) == set_views(old(sets)@) + sets_at(data@, at as int, count as nat).0,
        stop == sets_at(data@, at as int, count as nat).1,
        stop <= data.len(),
        sizes_fit(set_views(final(sets)@), final(sizes)@),
{
    let ghost before = set_views(sets@);
    let ghost all = sets_at(data@, at as int, count as nat);
    let mut offset: usize = at;
    let mut left: usize = count;
    assert(before + all.0 =~= set_views(sets@) + sets_at(data@, offset as int, left as nat).0);
    while left > 0
        invariant
            offset <= data.len(),
            before == set_views(old(sets)@),
            all == sets_at(data@, at as int, count as nat),
            before + all.0 == set_views(sets@) + sets_at(data@, offset as int, left as nat).0,
            all.1 == sets_at(data@, offset as int, left as nat).1,
            sizes_fit(set_views(sets@), sizes@),
        decreases left,
    {
        if data.len() - offset < 2 {
            assert(set_views(sets@) + Seq::<Seq<u8>>::empty() =~= set_views(sets@));
            return offset;
        }
        let len: usize = data[offset] as usize * 256 + data[offset + 1] as usize;
        if data.len() - offset - 2 < len {
            assert(set_views(sets@) + Seq::<Seq<u8>>::empty() =~= set_views(sets@));
            return offset + 2;
        }
        let set = slice_to_vec(slice_subrange(data, offset + 2, offset + 2 + len));
        let ghost end = offset + 2 + len;
        let ghost views = set_views(sets@);
        proof {
            let rest = sets_at(data@, end, (left - 1) as nat).0;
            assert(views + (seq![set@] + rest) =~= views.push(set@) + rest);
        }
        sets.push(set);
        sizes.push(len);
        proof {
            assert(set_views(sets@) =~= views.push(set@));
        }
        offset = offset + 2 + len;
        left = left - 1;
    }
    assert(set_views(sets@) + Seq::<Seq<u8>>::empty() =~= set_views(sets@));
    offset
}

/// Read the parameter sets, and their sizes, out of an AVCC record (H.264).
pub fn parse_avcc(data: &[u8]) -> (result: Result<(Vec<Vec<u8>>, Vec<usize>), Error>)
    ensures
        is_sets(result, avcc_sets(data@)),
{
    if data.len() < 7 {
        return Err(backend_error("macos", "AVCC record too short"));
    }
    let mut sets: Vec<Vec<u8>> = Vec::new();
    let mut sizes: Vec<usize> = Vec::new();
    assert(set_views(sets@) =~= Seq::<Seq<u8>>::empty());
    let middle: usize = push_sets(data, 6, (data[5] % 32) as usize, &mut sets, &mut sizes);
    assert(set_views(sets@) =~= sets_at(data@, 6, (data@[5] % 32) as nat).0);
    if middle >= data.len() {
        return Err(backend_error("macos", "AVCC record missing PPS count"));
    }
    push_sets(data, middle + 1, data[middle] as usize, &mut sets, &mut sizes);
    if sets.len() == 0 {
        assert(set_views(sets@).len() == 0);
        return Err(backend_error("macos", "AVCC record produced no parameter sets"));
    }
    assert(set_views(sets@).len() > 0);
    Ok((sets, sizes))
}

/// Read the parameter sets, and their sizes, out of an HVCC record (H.265).
pub fn parse_hvcc(data: &[u8]) -> (result: Result<(Vec<Vec<u8>>, Vec<usize>), Error>)
    ensures
        is_sets(result, hvcc_sets(data@)),
{
    if data.len() < 23 {
        return Err(backend_error("macos", "HVCC record too short"));
    }
    let mut sets: Vec<Vec<u8>> = Vec::new();
    let mut sizes: Vec<usize> = Vec::new();
    let mut offset: usize = 23;
    let mut left: usize = data[22] as usize;
    let ghost all = arrays_at(data@, 23, data@[22] as nat);
    assert(set_views(sets@) =~= Seq::<Seq<u8>>::empty());
    assert(all =~= set_views(sets@) + arrays_at(data@, offset as int, left as nat));
    while left > 0
        invariant
            offset <= data.len(),
            all == set_views(sets@) + arrays_at(data@, offset as int, left as nat),
            sizes_fit(set_views(sets@), sizes@),
        decreases left,
    {
        if data.len() - offset < 3 {
            left = 0;
        } else {
            let count: usize = data[offset + 1] as usize * 256 + data[offset + 2] as usize;
            let ghost views = set_views(sets@);
            let stop: usize = push_sets(data, offset + 3, count, &mut sets, &mut sizes);
            proof {
                let (found, end) = sets_at(data@, offset + 3, count as nat);
                let rest = arrays_at(data@, end, (left - 1) as nat);
                assert(views + (found + rest) =~= views + found + rest);
            }
            offset = stop;
            left = left - 1;
        }
    }
    assert(set_views(sets@) =~= all);
    if sets.len() == 0 {
        return Err(backend_error("macos", "HVCC record produced no parameter sets"));
    }
    Ok((sets, sizes))
}

/// Read the parameter sets, and their sizes, out of a codec's extradata.
pub fn parameter_sets(codec: VideoCodec, extradata: &[u8]) -> (result: Result<
    (Vec<Vec<u8>>, Vec<usize>),
    Error,
>)
    ensures
        is_sets(
            result,
            match codec {
                VideoCodec::H264 => avcc_sets(extradata@),
                VideoCodec::H265 => hvcc_sets(extradata@),
            },
        ),
{
    match codec {
        VideoCodec::H264 => parse_avcc(extradata),
        VideoCodec::H265 => parse_hvcc(extradata),
    }
}

/// What a decoder has delivered and what went wrong, until someone asks.
#[derive(Debug)]
pub struct OutputQueue {
    /// Frames in the order in which they were decoded.
    pub frames: Vec<Frame>,
    /// The first failure since someone last asked.
    pub error: Option<Error>,
}

impl Default for OutputQueue {
    fn default() -> (queue: OutputQueue)
        ensures
            queue.frames@ == Seq::<Frame>::empty(),
            queue.error is None,
    {
        OutputQueue { frames: Vec::new(), error: None }
    }
}

/// What a decoder's callback delivers.
#[derive(Debug)]
pub enum Decoded {
    /// The decoder failed, with this status.
    Failed(i32),
    /// An image that is no frame.
    Nothing,
    /// A frame.
    Image(Frame),
}

/// Take in what a decoder's callback delivers. Only the first failure is kept.
pub fn record_output(queue: &mut OutputQueue, decoded: Decoded)
    ensures
        match decoded {
            Decoded::Failed(status) => {
                &&& final(queue).frames == old(queue).frames
                &&& match old(queue).error {
                    Some(first) => final(queue).error == Some(first),
                    None => final(queue).error matches Some(error) && error@
                        == (ErrorView::Backend {
                        platform: "macos"@,
                        message: "VideoToolbox decode callback status: "@ + text::signed_decimal(
                            status as int,
                        ),
                    }),
                }
            },
            Decoded::Nothing => *final(queue) == *old(queue),
            Decoded::Image(frame) => {
                &&& final(queue).frames@ == old(queue).frames@.push(frame)
                &&& final(queue).error == old(queue).error
            },
        },
{
    match decoded {
        Decoded::Failed(status) => {
            if queue.error.is_none() {
                queue.error = Some(
                    Error::Backend {
                        platform: "macos",
                        message: append_signed(
                            "VideoToolbox decode callback status: ".to_owned(),
                            status,
                        ),
                    },
                );
            }
        },
        Decoded::Nothing => {},
        Decoded::Image(frame) => {
            queue.frames.push(frame);
        },
    }
}

/// Hand out what has come in: the failure if there was one, which leaves the frames for the
/// next time, or else the frames.
pub fn take_output(queue: &mut OutputQueue) -> (output: Result<Vec<Frame>, Error>)
    ensures
        final(queue).error is None,
        match old(queue).error {
            Some(error) => output == Err::<Vec<Frame>, Error>(error) && final(queue).frames@ == old(queue).frames@,
            None => output matches Ok(frames) && frames@ == old(queue).frames@ && final(queue).frames@ == Seq::<Frame>::empty(),
        },
{
    match queue.error.take() {
        Some(error) => Err(error),
        None => {
            let mut frames: Vec<Frame> = Vec::new();
            frames.append(&mut queue.frames);
            Ok(frames)
        },
    }
}

/// Bytes of each plane of a decoded image, and the stride that both planes share.
#[derive(Clone, Copy, Debug, PartialEq, Eq, Structural)]
pub struct BiplanarLayout {
    /// Distance between rows.
    pub stride: u32,
    /// Bytes of the luma plane.
    pub y_len: usize,
    /// Bytes of the chroma plane.
    pub uv_len: usize,
}

/// A product, held back to the largest number that fits.
pub open spec fn saturated(left: usize, right: usize) -> int {
    if left * right > usize::MAX {
        usize::MAX as int
    } else {
        left * right
    }
}

fn saturating_mul(left: usize, right: usize) -> (product: usize)
    ensures
        product == saturated(left, right),
{
    match left.checked_mul(right) {
        Some(product) => product,
        None => usize::MAX,
    }
}

/// How the two planes of a decoded image lie in memory, or `None` where they cannot be used:
/// their strides differ or are zero, or a plane has no rows.
pub fn biplanar_layout(y_stride: usize, y_rows: usize, uv_stride: usize, uv_rows: usize) -> (layout:
    Option<BiplanarLayout>)
    ensures
        layout == (if y_stride == 0 || y_stride != uv_stride || saturated(y_stride, y_rows) == 0
            || saturated(uv_stride, uv_rows) == 0 {
            None
        } else {
            Some(
                BiplanarLayout {
                    stride: y_stride as u32,
                    y_len: saturated(y_stride, y_rows) as usize,
                    uv_len: saturated(uv_stride, uv_rows) as usize,
                },
            )
        }),
{
    if y_stride == 0 || y_stride != uv_stride {
        return None;
    }
    let y_len: usize = saturating_mul(y_stride, y_rows);
    let uv_len: usize = saturating_mul(uv_stride, uv_rows);
    if y_len == 0 || uv_len == 0 {
        return None;
    }
    Some(
        BiplanarLayout {
            #[verifier::truncate]
            stride: y_stride as u32,
            y_len,
            uv_len,
        },
    )
}

/// Bytes of a decoded image of one plane, or `None` where it has none.
pub fn packed_length(stride: usize, height: u32) -> (len: Option<usize>)
    ensures
        len == (if stride == 0 || height == 0 {
            None
        } else {
            Some(saturated(stride, height as usize) as usize)
        }),
{
    if stride == 0 || height == 0 {
        return None;
    }
    Some(saturating_mul(stride, height as usize))
}

/// The stride of a decoded NV12 image: its width, rounded up to a multiple of 16.
pub fn nv12_stride(width: u32) -> (stride: u32)
    requires
        width <= 0xffff_fff0,
    ensures
        stride % 16 == 0,
        width <= stride < width + 16,
{
    (width + 15) / 16 * 16
}

/// Bytes of a decoded NV12 image: its luma rows and half as many chroma rows.
pub open spec fn nv12_bytes(width: u32, height: u32) -> int {
    ((width + 15) / 16 * 16) * height + ((width + 15) / 16 * 16) * (height as int / 2)
}

/// Whether the size of a decoded NV12 image can be told in 32 bits.
pub fn nv12_size_fits(width: u32, height: u32) -> (yes: bool)
    ensures
        yes == (width <= 0xffff_fff0 && nv12_bytes(width, height) <= u32::MAX),
{
    if width > 0xffff_fff0 {
        return false;
    }
    let stride: u32 = nv12_stride(width);
    proof {
        assert(stride == (width + 15) / 16 * 16);
        assert(0 <= stride * height <= 0xffff_ffff * 0xffff_ffff) by (nonlinear_arith)
            requires
                0 <= stride <= 0xffff_ffff,
                0 <= height <= 0xffff_ffff,
        ;
        assert(0 <= stride * (height / 2) <= 0xffff_ffff * 0xffff_ffff) by (nonlinear_arith)
            requires
                0 <= stride <= 0xffff_ffff,
                0 <= height <= 0xffff_ffff,
        ;
    }
    let size: u128 = stride as u128 * height as u128 + stride as u128 * (height / 2) as u128;
    size <= u32::MAX as u128
}

/// Bytes of a decoded NV12 image: its luma rows and half as many chroma rows.
pub fn nv12_frame_size(width: u32, height: u32) -> (size: u32)
    requires
        width <= 0xffff_fff0,
        nv12_bytes(width, height) <= u32::MAX,
    ensures
        size == nv12_bytes(width, height),
{
    let stride: u32 = nv12_stride(width);
    proof {
        assert(stride == (width + 15) / 16 * 16);
        assert(0 <= stride * height && 0 <= stride * (height / 2)) by (nonlinear_arith)
            requires
                0 <= stride,
                0 <= height,
        ;
    }
    stride * height + stride * (height / 2)
}

/// Pixel `col` of row `row` of an NV12 image, as BGRA.
pub open spec fn bgra_pixel(y_plane: Seq<u8>, uv_plane: Seq<u8>, step: int, row: int) -> spec_fn(
    int,
) -> Seq<u8> {
    |col: int|
        {
            let rgb = convert::nv12_pixel(y_plane, uv_plane, step, row)(col);
            seq![rgb[2], rgb[1], rgb[0], 0xFFu8]
        }
}

/// Row `row` of an NV12 image, as BGRA.
pub open spec fn bgra_row(y_plane: Seq<u8>, uv_plane: Seq<u8>, width: u32, step: int) -> spec_fn(
    int,
) -> Seq<u8> {
    |row: int| tiling::joined(width as nat, bgra_pixel(y_plane, uv_plane, step, row))
}

/// An NV12 image as BGRA, given how far apart the rows of both planes are.
pub open spec fn nv12_bgra(
    y_plane: Seq<u8>,
    uv_plane: Seq<u8>,
    width: u32,
    height: u32,
    step: int,
) -> Seq<u8> {
    tiling::joined(height as nat, bgra_row(y_plane, uv_plane, width, step))
}

/// Whether two NV12 planes hold every pixel.
pub open spec fn planes_readable(
    y_len: nat,
    uv_len: nat,
    width: u32,
    height: u32,
    step: int,
) -> bool {
    width == 0 || height == 0 || {
        &&& (height - 1) * step + width <= y_len
        &&& ((height - 1) / 2) * step + ((width - 1) / 2) * 2 + 2 <= uv_len
    }
}

/// Bytes of an NV12 sample: a row of luma for each row of the image, and a row of chroma for
/// each two of them.
pub open spec fn sample_size(height: u32, stride: u32) -> int {
    stride * height + stride * (height / 2)
}

/// An NV12 sample as BGRA: black and transparent throughout where the sample is too short.
pub open spec fn sample_bgra(sample: Seq<u8>, width: u32, height: u32, stride: u32) -> Seq<u8> {
    let y_size = stride * height;
    let total = sample_size(height, stride);
    if sample.len() >= total {
        nv12_bgra(
            sample.subrange(0, y_size),
            sample.subrange(y_size, total),
            width,
            height,
            stride as int,
        )
    } else {
        Seq::new((width * height * 4) as nat, |i: int| 0u8)
    }
}

/// Whether the planes of a whole sample hold every pixel. They do where the height is even
/// and a row of whole pixel pairs fits into the stride.
pub open spec fn sample_readable(width: u32, height: u32, stride: u32) -> bool {
    width == 0 || height == 0 || (height % 2 == 0 && width <= stride && ((width - 1) / 2) * 2 + 2
        <= stride)
}

/// Whether a sample can be converted: it is too short to be looked at, or it holds every
/// pixel, and the image fits into memory.
pub open spec fn sample_convertible(
    sample: Seq<u8>,
    width: u32,
    height: u32,
    stride: u32,
) -> bool {
    &&& sample.len() < sample_size(height, stride) || sample_readable(width, height, stride)
    &&& width * height * 4 <= usize::MAX
}

/// Writing a piece behind what has been written over the front of a buffer.
proof fn written_on(
    before: Seq<u8>,
    done: Seq<u8>,
    held: Seq<u8>,
    piece: Seq<u8>,
    after: Seq<u8>,
)
    requires
        done.len() + piece.len() <= before.len(),
        held == done + before.subrange(done.len() as int, before.len() as int),
        after == held.subrange(0, done.len() as int) + piece + held.subrange(
            (done.len() + piece.len()) as int,
            held.len() as int,
        ),
    ensures
        held.len() == before.len(),
        after == done + piece + before.subrange(
            (done.len() + piece.len()) as int,
            before.len() as int,
        ),
{
    assert(held.subrange(0, done.len() as int) =~= done);
    assert(after =~= done + piece + before.subrange(
        (done.len() + piece.len()) as int,
        before.len() as int,
    ));
}

fn nv12_color(y_plane: &[u8], uv_plane: &[u8], step: u32, width: u32, row: u32, col: u32) -> (rgb: (
    u8,
    u8,
    u8,
))
    requires
        col < width,
        row * step + width <= y_plane.len(),
        (row / 2) * step + ((width - 1) / 2) * 2 + 2 <= uv_plane.len(),
    ensures
        bgra_pixel(y_plane@, uv_plane@, step as int, row as int)(col as int) == seq![
            rgb.2,
            rgb.1,
            rgb.0,
            0xFFu8,
        ],
{
    proof {
        assert(0 <= row * step && 0 <= (row / 2) * step) by (nonlinear_arith)
            requires
                0 <= row,
                0 <= step,
        ;
    }
    let y: u8 = y_plane[(row as u64 * step as u64 + col as u64) as usize];
    let pair: usize = ((row / 2) as u64 * step as u64 + (col / 2) as u64 * 2) as usize;
    convert::yuv_to_rgb(y, uv_plane[pair], uv_plane[pair + 1])
}

fn put_pixel(bgra: &mut Vec<u8>, at: usize, rgb: (u8, u8, u8))
    requires
        at + 4 <= old(bgra)@.len(),
        old(bgra)@.len() <= usize::MAX,
    ensures
        final(bgra)@ == old(bgra)@.subrange(0, at as int) + seq![rgb.2, rgb.1, rgb.0, 0xFFu8] + old(
            bgra,
        )@.subrange(at + 4, old(bgra)@.len() as int),
{
    bgra.set(at, rgb.2);
    bgra.set(at + 1, rgb.1);
    bgra.set(at + 2, rgb.0);
    bgra.set(at + 3, 0xFF);
    assert(bgra@ =~= old(bgra)@.subrange(0, at as int) + seq![rgb.2, rgb.1, rgb.0, 0xFFu8] + old(
        bgra,
    )@.subrange(at + 4, old(bgra)@.len() as int));
}

/// Write row `row` of an NV12 image over what stands from `start` on.
fn put_bgra_row(
    y_plane: &[u8],
    uv_plane: &[u8],
    step: u32,
    width: u32,
    row: u32,
    bgra: &mut Vec<u8>,
    start: usize,
)
    requires
        width > 0 ==> row * step + width <= y_plane.len(),
        width > 0 ==> (row / 2) * step + ((width - 1) / 2) * 2 + 2 <= uv_plane.len(),
        start + 4 * width <= old(bgra)@.len(),
        old(bgra)@.len() <= usize::MAX,
    ensures
        final(bgra)@ == old(bgra)@.subrange(0, start as int) + bgra_row(
            y_plane@,
            uv_plane@,
            width,
            step as int,
        )(row as int) + old(bgra)@.subrange(start + 4 * width, old(bgra)@.len() as int),
        bgra_row(y_plane@, uv_plane@, width, step as int)(row as int).len() == 4 * width,
{
    let ghost pixels = bgra_pixel(y_plane@, uv_plane@, step as int, row as int);
    let ghost before = bgra@;
    let ghost front = before.subrange(0, start as int);
    let mut at: usize = start;
    let mut col: u32 = 0;
    assert(bgra@ =~= front + tiling::joined(0, pixels) + before.subrange(
        at as int,
        before.len() as int,
    ));
    while col < width
        invariant
            col <= width,
            width > 0 ==> row * step + width <= y_plane.len(),
            width > 0 ==> (row / 2) * step + ((width - 1) / 2) * 2 + 2 <= uv_plane.len(),
            start + 4 * width <= before.len(),
            before.len() <= usize::MAX,
            front.len() == start,
            at == start + 4 * col,
            tiling::joined(col as nat, pixels).len() == 4 * col,
            pixels == bgra_pixel(y_plane@, uv_plane@, step as int, row as int),
            bgra@ == front + tiling::joined(col as nat, pixels) + before.subrange(
                at as int,
                before.len() as int,
            ),
        decreases width - col,
    {
        let rgb = nv12_color(y_plane, uv_plane, step, width, row, col);
        let ghost done = front + tiling::joined(col as nat, pixels);
        let ghost held = bgra@;
        assert(held.len() == before.len());
        put_pixel(bgra, at, rgb);
        proof {
            written_on(before, done, held, pixels(col as int), bgra@);
            assert(done + pixels(col as int) =~= front + tiling::joined((col + 1) as nat, pixels));
        }
        at = at + 4;
        col = col + 1;
    }
}

/// Write an NV12 image over the front of `bgra`, as BGRA. What follows the image stays. Rows of
/// both planes are `step` bytes apart.
pub fn nv12_to_bgra(
    y_plane: &[u8],
    uv_plane: &[u8],
    step: u32,
    width: u32,
    height: u32,
    bgra: &mut Vec<u8>,
)
    requires
        planes_readable(y_plane@.len(), uv_plane@.len(), width, height, step as int),
        4 * (width * height) <= old(bgra)@.len(),
    ensures
        final(bgra)@ == nv12_bgra(y_plane@, uv_plane@, width, height, step as int) + old(
            bgra,
        )@.subrange(4 * (width * height), old(bgra)@.len() as int),
        nv12_bgra(y_plane@, uv_plane@, width, height, step as int).len() == 4 * (width * height),
{
    let ghost rows = bgra_row(y_plane@, uv_plane@, width, step as int);
    let ghost before = bgra@;
    let length: usize = bgra.len();
    let mut at: usize = 0;
    let mut row: u32 = 0;
    proof {
        assert(width * 0 == 0) by (nonlinear_arith);
        assert(bgra@ =~= tiling::joined(0, rows) + before.subrange(0, length as int));
    }
    while row < height
        invariant
            row <= height,
            planes_readable(y_plane@.len(), uv_plane@.len(), width, height, step as int),
            4 * (width * height) <= length,
            length == before.len(),
            rows == bgra_row(y_plane@, uv_plane@, width, step as int),
            at == 4 * (width * row),
            tiling::joined(row as nat, rows).len() == at,
            bgra@ == tiling::joined(row as nat, rows) + before.subrange(at as int, length as int),
        decreases height - row,
    {
        let ghost front = tiling::joined(row as nat, rows);
        let ghost held = bgra@;
        proof {
            assert(width * (row + 1) <= width * height && width * (row + 1) == width * row + width)
                by (nonlinear_arith)
                requires
                    0 <= width,
                    0 <= row < height,
            ;
            if width > 0 {
                mul::lemma_mul_inequality(row as int, height - 1, step as int);
                mul::lemma_mul_inequality(row as int / 2, (height - 1) / 2, step as int);
            }
            assert(held.len() == length);
        }
        put_bgra_row(y_plane, uv_plane, step, width, row, bgra, at);
        proof {
            written_on(before, front, held, rows(row as int), bgra@);
        }
        at = at + 4 * (width as usize);
        row = row + 1;
    }
}

/// Whether [`sample_to_bgra`] can convert a sample.
pub fn can_convert_sample(sample: &[u8], width: u32, height: u32, stride: u32) -> (yes: bool)
    ensures
        yes == sample_convertible(sample@, width, height, stride),
{
    proof {
        assert(0 <= stride * height <= 0xffff_ffff * 0xffff_ffff) by (nonlinear_arith)
            requires
                0 <= stride <= 0xffff_ffff,
                0 <= height <= 0xffff_ffff,
        ;
        assert(0 <= stride * (height / 2) <= 0xffff_ffff * 0xffff_ffff) by (nonlinear_arith)
            requires
                0 <= stride <= 0xffff_ffff,
                0 <= height <= 0xffff_ffff,
        ;
        assert(0 <= width * height <= 0xffff_ffff * 0xffff_ffff) by (nonlinear_arith)
            requires
                0 <= width <= 0xffff_ffff,
                0 <= height <= 0xffff_ffff,
        ;
    }
    let total: u128 = stride as u128 * height as u128 + stride as u128 * (height / 2) as u128;
    let readable: bool = width == 0 || height == 0 || (height % 2 == 0 && width <= stride && (width
        as u64 - 1) / 2 * 2 + 2 <= stride as u64);
    let pixels: u128 = width as u128 * height as u128;
    ((sample.len() as u128) < total || readable) && pixels * 4 <= usize::MAX as u128
}

/// Convert a decoder's NV12 sample to BGRA.
pub fn sample_to_bgra(sample: &[u8], width: u32, height: u32, stride: u32) -> (bgra: Vec<u8>)
    requires
        sample_convertible(sample@, width, height, stride),
    ensures
        bgra@ == sample_bgra(sample@, width, height, stride),
{
    proof {
        assert(0 <= stride * height <= 0xffff_ffff * 0xffff_ffff) by (nonlinear_arith)
            requires
                0 <= stride <= 0xffff_ffff,
                0 <= height <= 0xffff_ffff,
        ;
        assert(0 <= stride * (height / 2) <= 0xffff_ffff * 0xffff_ffff) by (nonlinear_arith)
            requires
                0 <= stride <= 0xffff_ffff,
                0 <= height <= 0xffff_ffff,
        ;
        assert(0 <= width * height) by (nonlinear_arith)
            requires
                0 <= width,
                0 <= height,
        ;
    }
    let y_size: u128 = stride as u128 * height as u128;
    let total: u128 = y_size + stride as u128 * (height / 2) as u128;
    let mut output: Vec<u8> = Vec::new();
    output.resize((width as u64 * height as u64 * 4) as usize, 0u8);
    if (sample.len() as u128) < total {
        assert(output@ =~= sample_bgra(sample@, width, height, stride));
        return output;
    }
    let y_plane = slice_subrange(sample, 0, y_size as usize);
    let uv_plane = slice_subrange(sample, y_size as usize, total as usize);
    proof {
        if width > 0 && height > 0 {
            tiling::row_inside(height - 1, height as int, stride as int);
            mul::lemma_mul_is_commutative(stride as int, height as int);
            tiling::row_inside((height - 1) / 2, height as int / 2, stride as int);
            mul::lemma_mul_is_commutative(stride as int, height as int / 2);
        }
    }
    nv12_to_bgra(y_plane, uv_plane, stride, width, height, &mut output);
    assert(output@ =~= sample_bgra(sample@, width, height, stride));
    output
}

/// Whether a decoded frame can be delivered as BGRA although it is not: it is NV12, its planes
/// hold every pixel, and the image fits into memory.
pub open spec fn becomes_bgra(frame: FrameView) -> bool {
    &&& frame.pixel_format == PixelFormat::Nv12
    &&& convert::complete(frame)
    &&& 4 * frame.width <= u32::MAX
    &&& 4 * (frame.width * frame.height) <= usize::MAX
}

/// Whether a decoded frame can be had in the pixel format that was announced.
pub open spec fn deliverable(frame: FrameView, format: PixelFormat) -> bool {
    frame.pixel_format == format || (format == PixelFormat::Bgra8 && becomes_bgra(frame))
}

/// A decoded frame in the pixel format that was announced, or as it came where it cannot be
/// had in that one.
pub open spec fn announced(frame: FrameView, format: PixelFormat) -> FrameView {
    if frame.pixel_format != format && deliverable(frame, format) {
        FrameView {
            stride: (4 * frame.width) as u32,
            pixel_format: PixelFormat::Bgra8,
            plane_primary: nv12_bgra(
                frame.plane_primary,
                frame.plane_secondary,
                frame.width,
                frame.height,
                convert::row_step(frame.stride, frame.width as int),
            ),
            plane_secondary: Seq::empty(),
            ..frame
        }
    } else {
        frame
    }
}

/// Bring a decoded frame into the pixel format that was announced. An NV12 frame becomes BGRA
/// where that is what was announced; every other frame is left as it is.
pub fn as_announced(frame: Frame, format: PixelFormat) -> (delivered: Frame)
    ensures
        delivered@ == announced(frame@, format),
{
    if frame.pixel_format == format || format != PixelFormat::Bgra8 || frame.pixel_format
        != PixelFormat::Nv12 || !convert::is_complete(&frame) {
        return frame;
    }
    let (width, height) = (frame.width, frame.height);
    proof {
        assert(0 <= width * height <= 0xffff_ffff * 0xffff_ffff) by (nonlinear_arith)
            requires
                0 <= width <= 0xffff_ffff,
                0 <= height <= 0xffff_ffff,
        ;
    }
    let needed: u128 = 4 * (width as u128 * height as u128);
    if width > u32::MAX / 4 || needed > usize::MAX as u128 {
        return frame;
    }
    let step: u32 = if frame.stride == 0 {
        width
    } else {
        frame.stride
    };
    let mut bgra: Vec<u8> = Vec::new();
    bgra.resize(needed as usize, 0u8);
    nv12_to_bgra(
        buffer::as_slice(&frame.plane_primary),
        buffer::as_slice(&frame.plane_secondary),
        step,
        width,
        height,
        &mut bgra,
    );
    let ghost image = nv12_bgra(
        frame@.plane_primary,
        frame@.plane_secondary,
        width,
        height,
        convert::row_step(frame.stride, width as int),
    );
    assert(bgra@ =~= image);
    let delivered = Frame {
        width,
        height,
        stride: 4 * width,
        timestamp: frame.timestamp,
        pixel_format: PixelFormat::Bgra8,
        quality: frame.quality,
        plane_primary: buffer::copy_from_slice(bgra.as_slice()),
        plane_secondary: no_bytes(),
    };
    assert(delivered@ == announced(frame@, format));
    delivered
}

/// What a decoding transform answers when it is asked for output.
#[derive(Debug)]
pub enum TransformOutput {
    /// A decoded NV12 image.
    Sample(Vec<u8>),
    /// Success without an image.
    Empty,
    /// Nothing until it gets more input.
    NeedMoreInput,
    /// The layout of its output has changed.
    StreamChange,
    /// A failure, described.
    Failed(String),
}

/// What follows from a transform's answer.
#[derive(Debug)]
pub enum TransformStep {
    /// Deliver a frame, and ask again.
    Deliver(Frame),
    /// There is no more output for now.
    Drained,
    /// Negotiate the output layout anew; there is no more output for now.
    Reconfigure,
    /// Report a failure.
    Fail(Error),
}

/// Decide what follows from a transform's answer.
pub fn transform_step(output: TransformOutput, width: u32, height: u32, stride: u32, timestamp: Duration) -> (step:
    TransformStep)
    requires
        output matches TransformOutput::Sample(sample) ==> sample_convertible(
            sample@,
            width,
            height,
            stride,
        ) && width * 4 <= u32::MAX,
    ensures
        match output {
            TransformOutput::Sample(sample) => step matches TransformStep::Deliver(frame) && {
                &&& frame@.width == width
                &&& frame@.height == height
                &&& frame@.stride == width * 4
                &&& frame@.timestamp == timestamp
                &&& frame@.pixel_format == PixelFormat::Bgra8
                &&& frame@.quality == FrameQuality::Intact
                &&& frame@.plane_primary == sample_bgra(sample@, width, height, stride)
                &&& frame@.plane_secondary == Seq::<u8>::empty()
            },
            TransformOutput::Empty => step is Drained,
            TransformOutput::NeedMoreInput => step is Drained,
            TransformOutput::StreamChange => step is Reconfigure,
            TransformOutput::Failed(message) => step matches TransformStep::Fail(error) && error@
                == (ErrorView::Backend {
                platform: "windows"@,
                message: "ProcessOutput failed: "@ + message@,
            }),
        },
{
    match output {
        TransformOutput::Sample(sample) => {
            let bgra = sample_to_bgra(sample.as_slice(), width, height, stride);
            TransformStep::Deliver(
                Frame {
                    width,
                    height,
                    stride: width * 4,
                    timestamp,
                    pixel_format: PixelFormat::Bgra8,
                    quality: FrameQuality::Intact,
                    plane_primary: buffer::copy_from_slice(bgra.as_slice()),
                    plane_secondary: no_bytes(),
                },
            )
        },
        TransformOutput::Empty => TransformStep::Drained,
        TransformOutput::NeedMoreInput => TransformStep::Drained,
        TransformOutput::StreamChange => TransformStep::Reconfigure,
        TransformOutput::Failed(message) => TransformStep::Fail(
            Error::Backend {
                platform: "windows",
                message: text::append("ProcessOutput failed: ".to_owned(), message.as_str()),
            },
        ),
    }
}

/// A buffer without bytes.
pub(crate) fn no_bytes() -> (empty: Bytes)
    ensures
        buffer::contents(empty) == Seq::<u8>::empty(),
{
    let nothing: Vec<u8> = Vec::new();
    let empty = buffer::copy_from_slice(nothing.as_slice());
    assert(buffer::contents(empty) =~= Seq::<u8>::empty());
    empty
}

/// The output layout that a transform is asked for: the first that is NV12. A layout that
/// cannot be read is passed over.
pub fn select_output_type(is_nv12: &Vec<Option<bool>>) -> (place: Option<usize>)
    ensures
        match place {
            Some(index) => index < is_nv12@.len() && is_nv12@[index as int] == Some(true)
                && forall|i: int| 0 <= i < index ==> #[trigger] is_nv12@[i] != Some(true),
            None => forall|i: int| 0 <= i < is_nv12@.len() ==> #[trigger] is_nv12@[i] != Some(true),
        },
{
    let mut i: usize = 0;
    while i < is_nv12.len()
        invariant
            i <= is_nv12.len(),
            forall|j: int| 0 <= j < i ==> #[trigger] is_nv12@[j] != Some(true),
        decreases is_nv12.len() - i,
    {
        if let Some(nv12) = is_nv12[i] {
            if nv12 {
                return Some(i);
            }
        }
        i = i + 1;
    }
    None
}

} // verus!

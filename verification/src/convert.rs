//! Pixel format conversion helpers.
//!
//! Frames come out of the library in whatever native format the platform delivered.
//! These functions convert them to the two formats most consumers want: packed RGB8
//! (24 bits per pixel) and packed RGBA8 (32 bits per pixel). Stride is honored, so the
//! output is always tightly packed regardless of how padded the source buffer was.

use crate::buffer;
use crate::error::{Error, ErrorView};
use crate::jpeg;
use crate::tiling;
use crate::types::{Frame, FrameView, PixelFormat};
use vstd::arithmetic::{div_mod, mul};
use vstd::prelude::*;
use vstd::slice::slice_subrange;

verus! {

/// Weight of red in luma, in thousandths.
pub const LUMA_WEIGHT_RED: u32 = 299;

/// Weight of green in luma, in thousandths.
pub const LUMA_WEIGHT_GREEN: u32 = 587;

/// Weight of blue in luma, in thousandths.
pub const LUMA_WEIGHT_BLUE: u32 = 114;

/// How one chunk of source bytes becomes output bytes.
#[derive(Clone, Copy, Debug, PartialEq, Eq, Structural)]
pub enum Repack {
    /// One byte, unchanged.
    Bytes,
    /// R, G, B, A to R, G, B.
    RgbaToRgb,
    /// R, G, B to R, G, B, 255.
    RgbToRgba,
    /// B, G, R, A to R, G, B.
    BgraToRgb,
    /// B, G, R, A to R, G, B, 255.
    BgraToRgba,
    /// Y0, U, Y1, V to two RGB pixels.
    YuyvToRgb,
    /// R, G, B to one luma byte.
    RgbToLuma,
    /// R, G, B, A to one luma byte.
    RgbaToLuma,
    /// B, G, R, A to one luma byte.
    BgraToLuma,
    /// Y0, U, Y1, V to Y0, Y1.
    YuyvToLuma,
}

impl Repack {
    /// Number of source bytes in a chunk.
    pub open spec fn chunk(self) -> int {
        match self {
            Repack::Bytes => 1,
            Repack::RgbToRgba => 3,
            Repack::RgbToLuma => 3,
            _ => 4,
        }
    }

    /// What the chunk of `data` that starts at `at` becomes.
    pub open spec fn apply(self, data: Seq<u8>, at: int) -> Seq<u8> {
        match self {
            Repack::Bytes => seq![data[at]],
            Repack::RgbaToRgb => seq![data[at], data[at + 1], data[at + 2]],
            Repack::RgbToRgba => seq![data[at], data[at + 1], data[at + 2], 0xFFu8],
            Repack::BgraToRgb => seq![data[at + 2], data[at + 1], data[at]],
            Repack::BgraToRgba => seq![data[at + 2], data[at + 1], data[at], 0xFFu8],
            Repack::YuyvToRgb => yuv_pixel(data[at], data[at + 1], data[at + 3]) + yuv_pixel(
                data[at + 2],
                data[at + 1],
                data[at + 3],
            ),
            Repack::RgbToLuma => seq![luma(data[at], data[at + 1], data[at + 2])],
            Repack::RgbaToLuma => seq![luma(data[at], data[at + 1], data[at + 2])],
            Repack::BgraToLuma => seq![luma(data[at + 2], data[at + 1], data[at])],
            Repack::YuyvToLuma => seq![data[at], data[at + 2]],
        }
    }

    /// Chunk number `i` of `data`, repacked.
    pub open spec fn part(self, data: Seq<u8>) -> spec_fn(int) -> Seq<u8> {
        |i: int| self.apply(data, i * self.chunk())
    }

    /// All whole chunks of `data`, repacked. A last incomplete chunk is left out.
    pub open spec fn all(self, data: Seq<u8>) -> Seq<u8> {
        tiling::joined((data.len() as int / self.chunk()) as nat, self.part(data))
    }

    /// Row number `row` of an image whose rows are `stride` bytes apart, repacked.
    pub open spec fn row(self, data: Seq<u8>, row_bytes: int, stride: int) -> spec_fn(
        int,
    ) -> Seq<u8> {
        |row: int| self.all(row_window(data, row, stride, row_bytes))
    }

    /// The first `height` rows of an image, repacked, as many as `data` holds whole strides
    /// for.
    pub open spec fn rows(self, data: Seq<u8>, row_bytes: int, height: u32, stride: u32) -> Seq<
        u8,
    > {
        let step = row_step(stride, row_bytes);
        tiling::joined(rows_held(data.len(), step, height), self.row(data, row_bytes, step))
    }

    /// An image repacked row by row where its rows are padded, as many as are there in full,
    /// and whole where they are not.
    pub open spec fn image(self, data: Seq<u8>, row_bytes: int, height: u32, stride: u32) -> Seq<
        u8,
    > {
        if stride > row_bytes {
            tiling::joined(
                full_rows(data.len(), stride as int, row_bytes, height),
                self.row(data, row_bytes, stride as int),
            )
        } else {
            self.all(data)
        }
    }
}

/// A scaled channel value brought down to a byte: divided by 256, rounded down, and held
/// between 0 and 255.
pub open spec fn channel(scaled: int) -> u8 {
    if scaled < 0 {
        0
    } else if scaled / 256 > 255 {
        255
    } else {
        (scaled / 256) as u8
    }
}

/// The R, G and B bytes of a video-range YUV pixel.
pub open spec fn yuv_pixel(y: u8, u: u8, v: u8) -> Seq<u8> {
    let c = y - 16;
    let d = u - 128;
    let e = v - 128;
    seq![
        channel(298 * c + 409 * e + 128),
        channel(298 * c - 100 * d - 208 * e + 128),
        channel(298 * c + 516 * d + 128),
    ]
}

/// Luma by the Rec. 601 weights, rounded down.
pub open spec fn luma(red: u8, green: u8, blue: u8) -> u8 {
    ((LUMA_WEIGHT_RED * red + LUMA_WEIGHT_GREEN * green + LUMA_WEIGHT_BLUE * blue) / 1000) as u8
}

/// Distance between row starts: the stride, or the row itself where no stride is given.
pub open spec fn row_step(stride: u32, row_bytes: int) -> int {
    if stride == 0 {
        row_bytes
    } else {
        stride as int
    }
}

/// Number of rows, out of `height`, for which `len` bytes hold a whole step.
pub open spec fn rows_held(len: nat, step: int, height: u32) -> nat {
    if step <= 0 {
        0
    } else if height < len as int / step {
        height as nat
    } else {
        (len as int / step) as nat
    }
}

/// Number of rows, out of `height`, whose `row_bytes` bytes are all among `len` bytes. The
/// padding behind the last of them need not be.
pub open spec fn full_rows(len: nat, step: int, row_bytes: int, height: u32) -> nat {
    if len < row_bytes || step <= 0 {
        0
    } else if height < (len - row_bytes) / step + 1 {
        height as nat
    } else {
        ((len - row_bytes) / step + 1) as nat
    }
}

/// The first `row_bytes` bytes of row `row`, or as many of them as there are.
pub open spec fn row_window(data: Seq<u8>, row: int, step: int, row_bytes: int) -> Seq<u8> {
    data.subrange(
        row * step,
        if row * step + row_bytes < data.len() {
            row * step + row_bytes
        } else {
            data.len() as int
        },
    )
}

/// Pixel `col` of row `row` of an NV12 image.
pub open spec fn nv12_pixel(y_plane: Seq<u8>, uv_plane: Seq<u8>, step: int, row: int) -> spec_fn(
    int,
) -> Seq<u8> {
    |col: int|
        yuv_pixel(
            y_plane[row * step + col],
            uv_plane[(row / 2) * step + (col / 2) * 2],
            uv_plane[(row / 2) * step + (col / 2) * 2 + 1],
        )
}

/// Row `row` of an NV12 image as RGB.
pub open spec fn nv12_row(y_plane: Seq<u8>, uv_plane: Seq<u8>, width: u32, step: int) -> spec_fn(
    int,
) -> Seq<u8> {
    |row: int| tiling::joined(width as nat, nv12_pixel(y_plane, uv_plane, step, row))
}

/// An NV12 image as RGB. Both planes have the same stride.
pub open spec fn nv12_rgb(
    y_plane: Seq<u8>,
    uv_plane: Seq<u8>,
    width: u32,
    height: u32,
    stride: u32,
) -> Seq<u8> {
    tiling::joined(height as nat, nv12_row(y_plane, uv_plane, width, row_step(stride, width as int)))
}

/// Whether a YUYV plane holds all of its rows.
pub open spec fn yuyv_complete(len: nat, width: u32, height: u32, stride: u32) -> bool {
    height == 0 || (height - 1) * row_step(stride, 2 * width) + 2 * width <= len
}

/// Whether the two planes of an NV12 image hold all of its rows.
pub open spec fn nv12_complete(
    y_len: nat,
    uv_len: nat,
    width: u32,
    height: u32,
    stride: u32,
) -> bool {
    let step = row_step(stride, width as int);
    width == 0 || height == 0 || {
        &&& (height - 1) * step + width <= y_len
        &&& ((height - 1) / 2) * step + ((width - 1) / 2) * 2 + 2 <= uv_len
    }
}

/// Whether a frame's planes hold every byte that its size and stride announce. Only the
/// chroma-subsampled formats ask for it; the others convert as many rows as there are.
pub open spec fn complete(frame: FrameView) -> bool {
    match frame.pixel_format {
        PixelFormat::Yuyv => yuyv_complete(
            frame.plane_primary.len(),
            frame.width,
            frame.height,
            frame.stride,
        ),
        PixelFormat::Nv12 => nv12_complete(
            frame.plane_primary.len(),
            frame.plane_secondary.len(),
            frame.width,
            frame.height,
            frame.stride,
        ),
        _ => true,
    }
}

/// What a JPEG decoder makes of a compressed image: its pixels, or a description of what
/// is wrong with it.
pub uninterp spec fn jpeg_decoded(data: Seq<u8>) -> Result<Seq<u8>, Seq<char>>;

/// What JPEG data decodes to: the decoder's result, or an error where the decoder cannot be
/// handed the data.
pub open spec fn jpeg_result(data: Seq<u8>) -> Result<Seq<u8>, Seq<char>> {
    if jpeg::fit(data) {
        jpeg_decoded(data)
    } else {
        Err("unsupported JPEG structure"@)
    }
}

/// A decoded JPEG, its failure as this library's error.
pub open spec fn jpeg_outcome(decoded: Result<Seq<u8>, Seq<char>>) -> Result<Seq<u8>, ErrorView> {
    match decoded {
        Ok(rgb) => Ok(rgb),
        Err(message) => Err(ErrorView::MjpegDecode(message)),
    }
}

/// A frame as packed RGB, given what its JPEG data decodes to.
pub open spec fn rgb8_with(frame: FrameView, decoded: Result<Seq<u8>, Seq<char>>) -> Result<
    Seq<u8>,
    ErrorView,
> {
    let data = frame.plane_primary;
    let (width, height, stride) = (frame.width, frame.height, frame.stride);
    match frame.pixel_format {
        PixelFormat::Rgb8 => Ok(Repack::Bytes.image(data, 3 * width, height, stride)),
        PixelFormat::Rgba8 => Ok(Repack::RgbaToRgb.image(data, 4 * width, height, stride)),
        PixelFormat::Bgra8 => Ok(Repack::BgraToRgb.rows(data, 4 * width, height, stride)),
        PixelFormat::Yuyv => Ok(
            tiling::joined(
                height as nat,
                Repack::YuyvToRgb.row(data, 2 * width, row_step(stride, 2 * width)),
            ),
        ),
        PixelFormat::Nv12 => Ok(nv12_rgb(data, frame.plane_secondary, width, height, stride)),
        PixelFormat::Mjpeg => jpeg_outcome(decoded),
    }
}

/// A frame as packed RGB.
pub open spec fn rgb8(frame: FrameView) -> Result<Seq<u8>, ErrorView> {
    rgb8_with(frame, jpeg_result(frame.plane_primary))
}

/// A frame as packed RGBA, given what its JPEG data decodes to.
pub open spec fn rgba8_with(frame: FrameView, decoded: Result<Seq<u8>, Seq<char>>) -> Result<
    Seq<u8>,
    ErrorView,
> {
    let data = frame.plane_primary;
    let (width, height, stride) = (frame.width, frame.height, frame.stride);
    match frame.pixel_format {
        PixelFormat::Rgba8 => Ok(Repack::Bytes.image(data, 4 * width, height, stride)),
        PixelFormat::Bgra8 => Ok(Repack::BgraToRgba.rows(data, 4 * width, height, stride)),
        _ => match rgb8_with(frame, decoded) {
            Ok(rgb) => Ok(Repack::RgbToRgba.all(rgb)),
            Err(error) => Err(error),
        },
    }
}

/// A frame as packed RGBA.
pub open spec fn rgba8(frame: FrameView) -> Result<Seq<u8>, ErrorView> {
    rgba8_with(frame, jpeg_result(frame.plane_primary))
}

/// A frame as luma bytes, given what its JPEG data decodes to. A JPEG that does not decode
/// has none.
pub open spec fn luma8_with(frame: FrameView, decoded: Result<Seq<u8>, Seq<char>>) -> Seq<u8> {
    let data = frame.plane_primary;
    let (width, height, stride) = (frame.width, frame.height, frame.stride);
    match frame.pixel_format {
        PixelFormat::Rgb8 => Repack::RgbToLuma.image(data, 3 * width, height, stride),
        PixelFormat::Rgba8 => Repack::RgbaToLuma.image(data, 4 * width, height, stride),
        PixelFormat::Bgra8 => Repack::BgraToLuma.rows(data, 4 * width, height, stride),
        PixelFormat::Yuyv => Repack::YuyvToLuma.rows(data, 2 * width, height, stride),
        PixelFormat::Nv12 => Repack::Bytes.rows(data, width as int, height, stride),
        PixelFormat::Mjpeg => match decoded {
            Ok(rgb) => Repack::RgbToLuma.all(rgb),
            Err(_) => Seq::empty(),
        },
    }
}

/// A frame as luma bytes.
pub open spec fn luma8(frame: FrameView) -> Seq<u8> {
    luma8_with(frame, jpeg_result(frame.plane_primary))
}

/// Whether a conversion returned what it should.
pub open spec fn is_outcome(
    result: Result<Vec<u8>, Error>,
    expected: Result<Seq<u8>, ErrorView>,
) -> bool {
    match result {
        Ok(bytes) => expected == Ok::<Seq<u8>, ErrorView>(bytes@),
        Err(error) => expected == Err::<Seq<u8>, ErrorView>(error@),
    }
}

/// The decoder's result with its texts and bytes as sequences.
pub open spec fn decoded_view(decoded: Result<Vec<u8>, String>) -> Result<Seq<u8>, Seq<char>> {
    match decoded {
        Ok(rgb) => Ok(rgb@),
        Err(message) => Err(message@),
    }
}

/// `zune_jpeg::JpegDecoder::decode` on a fresh decoder over `data`: the pixels, or the
/// decoder's error as text. The same bytes decode to the same result. What the pixels are is
/// left unsaid: packed RGB for a colour image, but a gray one has one byte for each pixel.
///
/// The decoder panics on some pictures and loops on others: on those whose sampling factors
/// outgrow its buffers, whose later scans name tables that are not defined, or whose
/// progressive scans change their colour space or end in a restart. [`jpeg::fit`] leaves them
/// out. A build with overflow checks also checks the decoder's arithmetic on coefficients,
/// which corrupt entropy-coded data can overflow; no marker shows that.
#[verifier::external_body]
fn decode_jpeg(data: &[u8]) -> (decoded: Result<Vec<u8>, String>)
    requires
        jpeg::fit(data@),
    ensures
        decoded_view(decoded) == jpeg_decoded(data@),
{
    zune_jpeg::JpegDecoder::new(data).decode().map_err(|error| error.to_string())
}

fn to_channel(scaled: i32) -> (byte: u8)
    ensures
        byte == channel(scaled as int),
{
    if scaled < 0 {
        0
    } else if scaled / 256 > 255 {
        255
    } else {
        (scaled / 256) as u8
    }
}

/// The R, G and B bytes of a video-range YUV pixel.
pub(crate) fn yuv_to_rgb(y: u8, u: u8, v: u8) -> (rgb: (u8, u8, u8))
    ensures
        seq![rgb.0, rgb.1, rgb.2] == yuv_pixel(y, u, v),
{
    let c: i32 = y as i32 - 16;
    let d: i32 = u as i32 - 128;
    let e: i32 = v as i32 - 128;
    (
        to_channel(298 * c + 409 * e + 128),
        to_channel(298 * c - 100 * d - 208 * e + 128),
        to_channel(298 * c + 516 * d + 128),
    )
}

fn push_yuv_rgb(output: &mut Vec<u8>, y: u8, u: u8, v: u8)
    ensures
        final(output)@ == old(output)@ + yuv_pixel(y, u, v),
{
    let (red, green, blue) = yuv_to_rgb(y, u, v);
    output.push(red);
    output.push(green);
    output.push(blue);
    assert(output@ =~= old(output)@ + yuv_pixel(y, u, v));
}

fn rec601_luma(red: u8, green: u8, blue: u8) -> (value: u8)
    ensures
        value == luma(red, green, blue),
{
    let weighted: u32 = LUMA_WEIGHT_RED * red as u32 + LUMA_WEIGHT_GREEN * green as u32
        + LUMA_WEIGHT_BLUE * blue as u32;
    (weighted / 1000) as u8
}

fn chunk_size(repack: Repack) -> (size: usize)
    ensures
        size == repack.chunk(),
        1 <= size <= 4,
{
    match repack {
        Repack::Bytes => 1,
        Repack::RgbToRgba => 3,
        Repack::RgbToLuma => 3,
        _ => 4,
    }
}

fn push_chunk(output: &mut Vec<u8>, repack: Repack, data: &[u8], at: usize)
    requires
        at + repack.chunk() <= data.len(),
    ensures
        final(output)@ == old(output)@ + repack.apply(data@, at as int),
{
    match repack {
        Repack::Bytes => {
            output.push(data[at]);
        },
        Repack::RgbaToRgb => {
            output.push(data[at]);
            output.push(data[at + 1]);
            output.push(data[at + 2]);
        },
        Repack::RgbToRgba => {
            output.push(data[at]);
            output.push(data[at + 1]);
            output.push(data[at + 2]);
            output.push(0xFF);
        },
        Repack::BgraToRgb => {
            output.push(data[at + 2]);
            output.push(data[at + 1]);
            output.push(data[at]);
        },
        Repack::BgraToRgba => {
            output.push(data[at + 2]);
            output.push(data[at + 1]);
            output.push(data[at]);
            // Force opaque. Windows Media Foundation delivers BGRA with
            // alpha byte set to 0 (XRGB semantics), which makes the frame
            // render fully transparent in consumers that respect alpha.
            output.push(0xFF);
        },
        Repack::YuyvToRgb => {
            push_yuv_rgb(output, data[at], data[at + 1], data[at + 3]);
            push_yuv_rgb(output, data[at + 2], data[at + 1], data[at + 3]);
        },
        Repack::RgbToLuma => {
            output.push(rec601_luma(data[at], data[at + 1], data[at + 2]));
        },
        Repack::RgbaToLuma => {
            output.push(rec601_luma(data[at], data[at + 1], data[at + 2]));
        },
        Repack::BgraToLuma => {
            output.push(rec601_luma(data[at + 2], data[at + 1], data[at]));
        },
        Repack::YuyvToLuma => {
            output.push(data[at]);
            output.push(data[at + 2]);
        },
    }
    assert(output@ =~= old(output)@ + repack.apply(data@, at as int));
}

/// Append every whole chunk of `data`, repacked.
fn push_all(output: &mut Vec<u8>, repack: Repack, data: &[u8])
    ensures
        final(output)@ == old(output)@ + repack.all(data@),
{
    let size: usize = chunk_size(repack);
    let count: usize = data.len() / size;
    let ghost part = repack.part(data@);
    let mut done: usize = 0;
    let mut at: usize = 0;
    assert(output@ =~= old(output)@ + tiling::joined(0, part));
    proof {
        div_mod::lemma_fundamental_div_mod(data@.len() as int, size as int);
    }
    while done < count
        invariant
            size == repack.chunk(),
            1 <= size <= 4,
            size * count <= data.len(),
            done <= count,
            at == done * size,
            part == repack.part(data@),
            output@ == old(output)@ + tiling::joined(done as nat, part),
        decreases count - done,
    {
        proof {
            tiling::row_inside(done as int, count as int, size as int);
            assert(count * size == size * count) by (nonlinear_arith);
        }
        push_chunk(output, repack, data, at);
        proof {
            assert(part(done as int) == repack.apply(data@, at as int));
            assert(output@ =~= old(output)@ + tiling::joined((done + 1) as nat, part));
            assert((done + 1) * size == done * size + size) by (nonlinear_arith);
        }
        done = done + 1;
        at = at + size;
    }
    proof {
        assert(count == data@.len() as int / repack.chunk());
    }
}

fn repack_all(repack: Repack, data: &[u8]) -> (output: Vec<u8>)
    ensures
        output@ == repack.all(data@),
{
    let mut output: Vec<u8> = Vec::new();
    push_all(&mut output, repack, data);
    assert(output@ =~= repack.all(data@));
    output
}

fn effective_stride(stride: u32, row_bytes: u64) -> (step: u64)
    ensures
        step == row_step(stride, row_bytes as int),
{
    if stride == 0 {
        row_bytes
    } else {
        stride as u64
    }
}

/// The bytes of row `row`, cut short where the data ends.
fn row_slice(data: &[u8], row: u32, step: u64, row_bytes: u64) -> (slice: &[u8])
    requires
        row * step <= data.len(),
    ensures
        slice@ == row_window(data@, row as int, step as int, row_bytes as int),
{
    proof {
        assert(0 <= row * step) by (nonlinear_arith);
    }
    let start: usize = (row as u64 * step) as usize;
    let room: usize = data.len() - start;
    let taken: usize = if row_bytes < room as u64 {
        row_bytes as usize
    } else {
        room
    };
    slice_subrange(data, start, start + taken)
}

/// Convert the first `height` rows, as many as `data` holds whole strides for.
fn repack_rows(repack: Repack, data: &[u8], row_bytes: u64, height: u32, stride: u32) -> (output:
    Vec<u8>)
    ensures
        output@ == repack.rows(data@, row_bytes as int, height, stride),
{
    let step: u64 = effective_stride(stride, row_bytes);
    let mut output: Vec<u8> = Vec::new();
    let ghost part = repack.row(data@, row_bytes as int, step as int);
    if step == 0 {
        assert(output@ =~= tiling::joined(0, part));
        return output;
    }
    let available: u64 = data.len() as u64 / step;
    let rows: u32 = if (height as u64) < available {
        height
    } else {
        available as u32
    };
    proof {
        div_mod::lemma_fundamental_div_mod(data@.len() as int, step as int);
        assert(available * step <= data@.len()) by (nonlinear_arith)
            requires
                data@.len() == step * available + data@.len() as int % step as int,
                0 <= data@.len() as int % step as int,
        ;
        assert(output@ =~= tiling::joined(0, part));
    }
    let mut row: u32 = 0;
    while row < rows
        invariant
            row <= rows,
            rows <= available,
            available * step <= data.len(),
            part == repack.row(data@, row_bytes as int, step as int),
            output@ == tiling::joined(row as nat, part),
        decreases rows - row,
    {
        proof {
            tiling::row_inside(row as int, available as int, step as int);
        }
        let slice = row_slice(data, row, step, row_bytes);
        push_all(&mut output, repack, slice);
        assert(part(row as int) == repack.all(slice@));
        row = row + 1;
    }
    output
}

/// Convert an image row by row where its rows are padded, as many as are there in full, and
/// whole where they are not.
fn repack_image(repack: Repack, data: &[u8], row_bytes: u64, height: u32, stride: u32) -> (output:
    Vec<u8>)
    ensures
        output@ == repack.image(data@, row_bytes as int, height, stride),
{
    if stride as u64 <= row_bytes {
        return repack_all(repack, data);
    }
    let step: u64 = stride as u64;
    let ghost part = repack.row(data@, row_bytes as int, step as int);
    let mut output: Vec<u8> = Vec::new();
    assert(output@ =~= tiling::joined(0, part));
    if (data.len() as u64) < row_bytes {
        return output;
    }
    let room: u64 = data.len() as u64 - row_bytes;
    let more: u64 = room / step;
    let rows: u32 = if height as u64 <= more {
        height
    } else {
        (more + 1) as u32
    };
    proof {
        div_mod::lemma_fundamental_div_mod(room as int, step as int);
        assert(more * step <= room) by (nonlinear_arith)
            requires
                room == step * more + room as int % step as int,
                0 <= room as int % step as int,
        ;
    }
    let mut row: u32 = 0;
    while row < rows
        invariant
            row <= rows,
            rows <= more + 1,
            more * step <= data.len(),
            part == repack.row(data@, row_bytes as int, step as int),
            output@ == tiling::joined(row as nat, part),
        decreases rows - row,
    {
        proof {
            mul::lemma_mul_inequality(row as int, more as int, step as int);
        }
        let slice = row_slice(data, row, step, row_bytes);
        push_all(&mut output, repack, slice);
        assert(part(row as int) == repack.all(slice@));
        row = row + 1;
    }
    output
}

fn yuyv_to_rgb(data: &[u8], width: u32, height: u32, stride: u32) -> (output: Vec<u8>)
    requires
        yuyv_complete(data@.len(), width, height, stride),
    ensures
        output@ == tiling::joined(
            height as nat,
            Repack::YuyvToRgb.row(data@, 2 * width, row_step(stride, 2 * width)),
        ),
{
    let row_bytes: u64 = width as u64 * 2;
    let step: u64 = effective_stride(stride, row_bytes);
    let ghost part = Repack::YuyvToRgb.row(data@, 2 * width, step as int);
    let mut output: Vec<u8> = Vec::new();
    let mut row: u32 = 0;
    assert(output@ =~= tiling::joined(0, part));
    while row < height
        invariant
            row <= height,
            row_bytes == 2 * width,
            step == row_step(stride, 2 * width),
            yuyv_complete(data@.len(), width, height, stride),
            part == Repack::YuyvToRgb.row(data@, 2 * width, step as int),
            output@ == tiling::joined(row as nat, part),
        decreases height - row,
    {
        proof {
            mul::lemma_mul_inequality(row as int, height - 1, step as int);
        }
        let slice = row_slice(data, row, step, row_bytes);
        push_all(&mut output, Repack::YuyvToRgb, slice);
        assert(part(row as int) == Repack::YuyvToRgb.all(slice@));
        row = row + 1;
    }
    output
}

/// The last sample that an NV12 pixel reads lies inside its plane.
proof fn nv12_sample_inside(row: int, height: int, step: int)
    requires
        0 <= row < height,
        0 <= step,
    ensures
        0 <= row * step <= (height - 1) * step,
        0 <= (row / 2) * step <= ((height - 1) / 2) * step,
{
    mul::lemma_mul_inequality(row, height - 1, step);
    mul::lemma_mul_inequality(row / 2, (height - 1) / 2, step);
    assert(0 <= row * step && 0 <= (row / 2) * step) by (nonlinear_arith)
        requires
            0 <= row,
            0 <= row / 2,
            0 <= step,
    ;
}

fn push_nv12_row(
    output: &mut Vec<u8>,
    y_plane: &[u8],
    uv_plane: &[u8],
    width: u32,
    step: u64,
    row: u32,
)
    requires
        width > 0 ==> row * step + width <= y_plane.len(),
        width > 0 ==> (row / 2) * step + ((width - 1) / 2) * 2 + 2 <= uv_plane.len(),
    ensures
        final(output)@ == old(output)@ + nv12_row(y_plane@, uv_plane@, width, step as int)(
            row as int,
        ),
{
    let ghost part = nv12_pixel(y_plane@, uv_plane@, step as int, row as int);
    let mut col: u32 = 0;
    assert(output@ =~= old(output)@ + tiling::joined(0, part));
    while col < width
        invariant
            col <= width,
            width > 0 ==> row * step + width <= y_plane.len(),
            width > 0 ==> (row / 2) * step + ((width - 1) / 2) * 2 + 2 <= uv_plane.len(),
            part == nv12_pixel(y_plane@, uv_plane@, step as int, row as int),
            output@ == old(output)@ + tiling::joined(col as nat, part),
        decreases width - col,
    {
        proof {
            assert(0 <= row * step && 0 <= (row / 2) * step) by (nonlinear_arith)
                requires
                    0 <= row,
                    0 <= step,
            ;
        }
        let y: u8 = y_plane[(row as u64 * step + col as u64) as usize];
        let pair: usize = ((row / 2) as u64 * step + (col / 2) as u64 * 2) as usize;
        let u: u8 = uv_plane[pair];
        let v: u8 = uv_plane[pair + 1];
        push_yuv_rgb(output, y, u, v);
        assert(part(col as int) == yuv_pixel(y, u, v));
        assert(output@ =~= old(output)@ + tiling::joined((col + 1) as nat, part));
        col = col + 1;
    }
}

fn nv12_to_rgb(y_plane: &[u8], uv_plane: &[u8], width: u32, height: u32, stride: u32) -> (output:
    Vec<u8>)
    requires
        nv12_complete(y_plane@.len(), uv_plane@.len(), width, height, stride),
    ensures
        output@ == nv12_rgb(y_plane@, uv_plane@, width, height, stride),
{
    let step: u64 = effective_stride(stride, width as u64);
    let ghost part = nv12_row(y_plane@, uv_plane@, width, step as int);
    let mut output: Vec<u8> = Vec::new();
    let mut row: u32 = 0;
    assert(output@ =~= tiling::joined(0, part));
    while row < height
        invariant
            row <= height,
            step == row_step(stride, width as int),
            nv12_complete(y_plane@.len(), uv_plane@.len(), width, height, stride),
            part == nv12_row(y_plane@, uv_plane@, width, step as int),
            output@ == tiling::joined(row as nat, part),
        decreases height - row,
    {
        proof {
            nv12_sample_inside(row as int, height as int, step as int);
        }
        push_nv12_row(&mut output, y_plane, uv_plane, width, step, row);
        row = row + 1;
    }
    output
}

/// What a decoder's result means to a caller: the RGB bytes, or [`Error::MjpegDecode`].
pub fn mjpeg_outcome(decoded: Result<Vec<u8>, String>) -> (result: Result<Vec<u8>, Error>)
    ensures
        is_outcome(result, jpeg_outcome(decoded_view(decoded))),
{
    match decoded {
        Ok(rgb) => Ok(rgb),
        Err(message) => Err(Error::MjpegDecode(message)),
    }
}

fn mjpeg_to_rgb(data: &[u8]) -> (result: Result<Vec<u8>, Error>)
    ensures
        is_outcome(result, jpeg_outcome(jpeg_result(data@))),
{
    if jpeg::is_fit(data) {
        mjpeg_outcome(decode_jpeg(data))
    } else {
        mjpeg_outcome(Err("unsupported JPEG structure".to_owned()))
    }
}

/// Whether a frame's planes hold every byte that its size and stride announce.
///
/// [`to_rgb8`] and [`to_rgba8`] need it of YUYV and NV12 frames; every other frame is
/// complete for their purposes.
pub fn is_complete(frame: &Frame) -> (whole: bool)
    ensures
        whole == complete(frame@),
{
    let (width, height, stride) = (frame.width, frame.height, frame.stride);
    match frame.pixel_format {
        PixelFormat::Yuyv => {
            if height == 0 {
                return true;
            }
            let row_bytes: u64 = width as u64 * 2;
            let step: u64 = effective_stride(stride, row_bytes);
            proof {
                assert((height - 1) * step <= 0xffff_fffe * 0x1_ffff_fffe) by (nonlinear_arith)
                    requires
                        1 <= height <= 0xffff_ffff,
                        0 <= step <= 0x1_ffff_fffe,
                ;
                assert(0 <= (height - 1) * step) by (nonlinear_arith)
                    requires
                        1 <= height,
                        0 <= step,
                ;
            }
            let needed: u128 = (height - 1) as u128 * step as u128 + row_bytes as u128;
            needed <= buffer::as_slice(&frame.plane_primary).len() as u128
        },
        PixelFormat::Nv12 => {
            if width == 0 || height == 0 {
                return true;
            }
            let step: u64 = effective_stride(stride, width as u64);
            proof {
                assert(0 <= (height - 1) * step <= 0xffff_fffe * 0xffff_ffff) by (nonlinear_arith)
                    requires
                        1 <= height <= 0xffff_ffff,
                        0 <= step <= 0xffff_ffff,
                ;
                assert(0 <= ((height - 1) / 2) * step <= 0xffff_fffe * 0xffff_ffff)
                    by (nonlinear_arith)
                    requires
                        1 <= height <= 0xffff_ffff,
                        0 <= step <= 0xffff_ffff,
                ;
            }
            let y_needed: u128 = (height - 1) as u128 * step as u128 + width as u128;
            let uv_needed: u128 = ((height - 1) / 2) as u128 * step as u128 + ((width - 1) / 2)
                as u128 * 2 + 2;
            y_needed <= buffer::as_slice(&frame.plane_primary).len() as u128 && uv_needed
                <= buffer::as_slice(&frame.plane_secondary).len() as u128
        },
        _ => true,
    }
}

/// Convert a frame to packed 24-bit RGB (3 bytes per pixel).
///
/// Supports every [`PixelFormat`]. MJPEG is decoded via `zune-jpeg`.
pub fn to_rgb8(frame: &Frame) -> (result: Result<Vec<u8>, Error>)
    requires
        complete(frame@),
    ensures
        is_outcome(result, rgb8(frame@)),
{
    let (width, height, stride) = (frame.width, frame.height, frame.stride);
    let data = buffer::as_slice(&frame.plane_primary);
    match frame.pixel_format {
        PixelFormat::Rgb8 => Ok(
            repack_image(Repack::Bytes, data, width as u64 * 3, height, stride),
        ),
        PixelFormat::Rgba8 => Ok(
            repack_image(Repack::RgbaToRgb, data, width as u64 * 4, height, stride),
        ),
        PixelFormat::Bgra8 => Ok(
            repack_rows(Repack::BgraToRgb, data, width as u64 * 4, height, stride),
        ),
        PixelFormat::Yuyv => Ok(yuyv_to_rgb(data, width, height, stride)),
        PixelFormat::Nv12 => Ok(
            nv12_to_rgb(data, buffer::as_slice(&frame.plane_secondary), width, height, stride),
        ),
        PixelFormat::Mjpeg => mjpeg_to_rgb(data),
    }
}

/// Convert a frame to packed 32-bit RGBA (4 bytes per pixel).
///
/// For formats without an alpha channel (RGB8, YUYV, NV12, MJPEG), the alpha byte is
/// filled with 0xFF. For BGRA8, the channel order is swapped and the alpha byte is 0xFF.
pub fn to_rgba8(frame: &Frame) -> (result: Result<Vec<u8>, Error>)
    requires
        complete(frame@),
    ensures
        is_outcome(result, rgba8(frame@)),
{
    let (width, height, stride) = (frame.width, frame.height, frame.stride);
    match frame.pixel_format {
        PixelFormat::Rgba8 => Ok(
            repack_image(
                Repack::Bytes,
                buffer::as_slice(&frame.plane_primary),
                width as u64 * 4,
                height,
                stride,
            ),
        ),
        PixelFormat::Bgra8 => Ok(
            repack_rows(
                Repack::BgraToRgba,
                buffer::as_slice(&frame.plane_primary),
                width as u64 * 4,
                height,
                stride,
            ),
        ),
        _ => match to_rgb8(frame) {
            Ok(rgb) => Ok(repack_all(Repack::RgbToRgba, rgb.as_slice())),
            Err(error) => Err(error),
        },
    }
}

/// The luma bytes of a decoded JPEG; none where decoding failed.
pub fn mjpeg_luma(decoded: Result<Vec<u8>, Error>) -> (luma: Vec<u8>)
    ensures
        luma@ == (match decoded {
            Ok(rgb) => Repack::RgbToLuma.all(rgb@),
            Err(_) => Seq::empty(),
        }),
{
    match decoded {
        Ok(rgb) => repack_all(Repack::RgbToLuma, rgb.as_slice()),
        Err(_) => Vec::new(),
    }
}

/// Convert a frame to luma, one byte per pixel, as many rows as the frame holds.
pub fn to_luma8(frame: &Frame) -> (luma: Vec<u8>)
    ensures
        luma@ == luma8(frame@),
{
    let (width, height, stride) = (frame.width, frame.height, frame.stride);
    let data = buffer::as_slice(&frame.plane_primary);
    match frame.pixel_format {
        PixelFormat::Rgb8 => repack_image(
            Repack::RgbToLuma,
            data,
            width as u64 * 3,
            height,
            stride,
        ),
        PixelFormat::Rgba8 => repack_image(
            Repack::RgbaToLuma,
            data,
            width as u64 * 4,
            height,
            stride,
        ),
        PixelFormat::Bgra8 => repack_rows(
            Repack::BgraToLuma,
            data,
            width as u64 * 4,
            height,
            stride,
        ),
        PixelFormat::Yuyv => repack_rows(
            Repack::YuyvToLuma,
            data,
            width as u64 * 2,
            height,
            stride,
        ),
        PixelFormat::Nv12 => repack_rows(Repack::Bytes, data, width as u64, height, stride),
        PixelFormat::Mjpeg => mjpeg_luma(mjpeg_to_rgb(data)),
    }
}

} // verus!

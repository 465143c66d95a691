//! Which JPEG pictures are handed to the decoder.

use crate::convert;
use crate::convert::Repack;
use crate::error::ErrorView;
use crate::jpeg;
use crate::jpeg::Told;
use crate::tiling;
use crate::types::{FrameView, PixelFormat};
use vstd::prelude::*;

verus! {

/// What the decoder makes of a picture is what a frame of it converts to, where the picture is
/// handed to it; and one that is not does not convert.
pub proof fn fit_pictures_are_decoded(frame: FrameView)
    requires
        frame.pixel_format == PixelFormat::Mjpeg,
    ensures
        jpeg::fit(frame.plane_primary) ==> match convert::jpeg_decoded(frame.plane_primary) {
            Ok(rgb) => convert::rgb8(frame) == Ok::<Seq<u8>, ErrorView>(rgb),
            Err(message) => convert::rgb8(frame) == Err::<Seq<u8>, ErrorView>(
                ErrorView::MjpegDecode(message),
            ) && convert::luma8(frame).len() == 0,
        },
        !jpeg::fit(frame.plane_primary) ==> convert::rgb8(frame) is Err && convert::rgba8(
            frame,
        ) is Err && convert::luma8(frame).len() == 0,
{
}

/// Data that does not start as a JPEG picture does is left to the decoder to reject.
pub proof fn other_data_is_left_to_the_decoder(data: Seq<u8>)
    requires
        data.len() < 2 || data[0] != 0xFF || data[1] != 0xD8,
    ensures
        jpeg::fit(data),
{
}

/// The usual samplings are safe at every size: a picture of one component, and one whose
/// factors are one or two and nowhere greater than those of its first component.
pub proof fn usual_samplings_are_safe(data: Seq<u8>, at: int)
    requires
        jpeg::frame_well_formed(data, at),
        data[at + 9] == 1 || forall|i: int|
            0 <= i < data[at + 9] ==> ({
                let factors = #[trigger] data[at + 11 + 3 * i];
                let first = data[at + 11];
                factors / 16 <= first / 16 <= 2 && factors % 16 <= first % 16 <= 2
            }),
    ensures
        jpeg::sampling_safe(data, at),
{
    if data[at + 9] > 1 {
        assert(data[at + 11 + 3 * 0] == data[at + 11]);
        assert forall|i: int| 0 <= i < jpeg::components(data, at) implies #[trigger] jpeg::horizontal(
            data,
            at,
            i,
        ) <= jpeg::horizontal(data, at, 0) by {
            assert(data[at + 11 + 3 * i] / 16 <= data[at + 11] / 16);
        }
        assert forall|i: int| 0 <= i < jpeg::components(data, at) implies #[trigger] jpeg::vertical(
            data,
            at,
            i,
        ) <= jpeg::vertical(data, at, 0) by {
            assert(data[at + 11 + 3 * i] % 16 <= data[at + 11] % 16);
        }
    }
}

/// A color picture less than sixteen pixels wide is not safe where its first component has four
/// samples or more across a unit, and none is where another component has more across than the
/// first.
pub proof fn wide_units_need_wide_pictures(data: Seq<u8>, at: int, other: int)
    requires
        jpeg::frame_well_formed(data, at),
        data[at + 9] > 1,
    ensures
        data[at + 11] / 16 >= 4 && data[at + 7] == 0 && data[at + 8] < 16 ==> !jpeg::sampling_safe(
            data,
            at,
        ),
        0 <= other < data[at + 9] && data[at + 11 + 3 * other] / 16 > data[at + 11] / 16
            ==> !jpeg::sampling_safe(data, at),
{
    assert(data[at + 11 + 3 * 0] == data[at + 11]);
    if 0 <= other < data[at + 9] {
        assert(jpeg::horizontal(data, at, other) == data[at + 11 + 3 * other] / 16);
    }
}

/// A baseline picture whose first scan holds all of its components is safe whatever follows.
pub proof fn single_scans_are_safe(data: Seq<u8>, at: int, told: Told, frame: int)
    requires
        told.frame == Some(frame),
        data[frame + 1] != 0xC2,
        data[at + 4] == data[frame + 9],
    ensures
        jpeg::first_scan_safe(data, at, told),
{
}

/// A later scan that names a Huffman table which is not defined is not safe.
pub proof fn scans_need_their_tables(data: Seq<u8>, at: int, defined: Seq<bool>, place: int)
    requires
        defined.len() == 8,
        0 <= at,
        jpeg::scan_well_formed(data, at),
        data[at] == 0xFF,
        data[at + 1] == 0xDA,
        0 <= place < data[at + 4],
        !defined[data[at + 6 + 2 * place] as int / 16 % 4] || !defined[4 + data[at + 6 + 2 * place]
            as int % 16 % 4],
    ensures
        !jpeg::scans_safe(data, at, defined),
{
    assert(jpeg::next_marker(data, at) == at);
    assert(!jpeg::tables_defined(data, at, defined, place));
}

/// A progressive picture whose data ends behind a restart is not safe.
pub proof fn progressive_pictures_do_not_end_in_a_restart(data: Seq<u8>, at: int, restarted: bool)
    requires
        0 <= at,
        at + 2 == data.len(),
        data[at] == 0xFF,
        0xD0 <= data[at + 1] <= 0xD7,
    ensures
        !jpeg::progress_safe(data, at, restarted),
{
    assert(jpeg::next_marker(data, at) == at);
    assert(jpeg::next_marker(data, at + 2) == data.len());
    reveal_with_fuel(jpeg::progress_safe, 2);
}

/// The luma of a decoded picture is that of its pixels, one by one.
pub proof fn decoded_pixels_have_their_luma(frame: FrameView, rgb: Seq<u8>, place: int)
    requires
        frame.pixel_format == PixelFormat::Mjpeg,
        jpeg::fit(frame.plane_primary),
        convert::jpeg_decoded(frame.plane_primary) == Ok::<Seq<u8>, Seq<char>>(rgb),
        0 <= place,
        3 * place + 2 < rgb.len(),
    ensures
        convert::luma8(frame).len() == rgb.len() / 3,
        convert::luma8(frame)[place] == convert::luma(
            rgb[3 * place],
            rgb[3 * place + 1],
            rgb[3 * place + 2],
        ),
{
    let part = Repack::RgbToLuma.part(rgb);
    let count = (rgb.len() as int / 3) as nat;
    assert forall|i: int| 0 <= i < count implies (#[trigger] part(i)).len() == 1 by {}
    tiling::joined_uniform(count, part, 1);
    assert(part(place)[0] == tiling::joined(count, part)[place * 1 + 0]);
}

} // verus!

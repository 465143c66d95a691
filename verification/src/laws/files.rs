//! What holds of bitmap files and codec records.

use crate::bmp;
use crate::decode;
use crate::error::ErrorView;
use crate::tiling;
use vstd::arithmetic::{div_mod, mul};
use vstd::prelude::*;

verus! {

/// Rows in a file start at multiples of four bytes, and hold every pixel.
pub proof fn rows_are_aligned(width: u32)
    ensures
        bmp::padded_row(width) % 4 == 0,
        3 * width <= bmp::padded_row(width) < 3 * width + 4,
{
}

/// The headers take 54 bytes.
pub proof fn headers_take_54_bytes(width: u32, height: u32, pixel_bytes: int, file_bytes: int)
    ensures
        bmp::headers(width, height, pixel_bytes, file_bytes).len() == 54,
{
}

/// A row of packed RGB takes up a whole row in the file.
pub(crate) proof fn rgb_row_len(rgb: Seq<u8>, width: u32, row: int)
    ensures
        bmp::rgb_row(rgb, width)(row).len() == bmp::padded_row(width),
{
    let data = rgb.subrange(row * (3 * width), row * (3 * width) + 3 * width);
    assert forall|i: int| 0 <= i < width implies (#[trigger] bmp::rgb_pixel(data)(i)).len() == 3 by {}
    tiling::joined_uniform(width as nat, bmp::rgb_pixel(data), 3);
}

/// A number that fits into four bytes is read back from them.
pub proof fn le32_reads_back(value: int)
    requires
        0 <= value <= u32::MAX,
    ensures
        ({
            let bytes = bmp::le32(value);
            bytes[0] + 0x100 * bytes[1] + 0x1_0000 * bytes[2] + 0x100_0000 * bytes[3] == value
        }),
{
    let second = value / 0x100;
    let third = second / 0x100;
    assert(value / 0x1_0000 == third);
    assert(value / 0x100_0000 == third / 0x100);
}

/// The headers hold the file's length, least significant byte first.
proof fn headers_hold_the_length(width: u32, height: u32, pixel_bytes: int, file_bytes: int)
    ensures
        bmp::headers(width, height, pixel_bytes, file_bytes).subrange(2, 6) == bmp::le32(file_bytes),
{
    let head = bmp::headers(width, height, pixel_bytes, file_bytes);
    let length = bmp::le32(file_bytes);
    headers_take_54_bytes(width, height, pixel_bytes, file_bytes);
    assert forall|i: int| 0 <= i < 4 implies #[trigger] head.subrange(2, 6)[i] == length[i] by {
        assert(head.subrange(2, 6)[i] == head[2 + i]);
        assert(head[2 + i] == length[i]);
    }
    assert(head.subrange(2, 6) =~= length);
}

/// An image that is there in full has all its rows in the file.
pub(crate) proof fn all_rows_are_there(len: nat, width: u32, height: u32)
    requires
        len >= 3 * width * height,
    ensures
        bmp::rgb_rows(len, width, height) == height,
{
    if width > 0 {
        let row = 3 * width;
        mul::lemma_mul_is_commutative(height as int, row);
        div_mod::lemma_div_is_ordered(height * row, len as int, row);
        div_mod::lemma_div_by_multiple(height as int, row);
    }
}

/// The file of an image that is there in full is as long as its header says: the header's
/// length field reads back as the file's length.
pub proof fn file_states_its_length(rgb: Seq<u8>, width: u32, height: u32)
    requires
        rgb.len() >= 3 * width * height,
        54 + bmp::padded_row(width) * height <= u32::MAX,
    ensures
        ({
            let file = bmp::rgb_file(rgb, width, height);
            &&& file.len() == 54 + bmp::padded_row(width) * height
            &&& file[2] + 0x100 * file[3] + 0x1_0000 * file[4] + 0x100_0000 * file[5] == file.len()
        }),
{
    let padded = bmp::padded_row(width) as nat;
    let rows = bmp::rgb_row(rgb, width);
    all_rows_are_there(rgb.len(), width, height);
    assert forall|row: int| 0 <= row < height implies (#[trigger] rows(row)).len() == padded by {
        rgb_row_len(rgb, width, row);
    }
    tiling::joined_uniform(height as nat, rows, padded);
    mul::lemma_mul_is_commutative(height as int, padded as int);
    mul::lemma_mul_nonnegative(padded as int, height as int);
    let pixel_bytes = bmp::padded_row(width) * height;
    headers_hold_the_length(width, height, pixel_bytes, 54 + pixel_bytes);
    le32_reads_back(54 + pixel_bytes);
    let head = bmp::headers(width, height, pixel_bytes, 54 + pixel_bytes);
    assert(head.len() == 54) by {
        headers_take_54_bytes(width, height, pixel_bytes, 54 + pixel_bytes);
    }
    let file = bmp::rgb_file(rgb, width, height);
    let body = tiling::joined(height as nat, rows);
    assert(file == head + body);
    assert(file.subrange(2, 6) =~= head.subrange(2, 6));
    assert(file[2] == file.subrange(2, 6)[0]);
    assert(file[3] == file.subrange(2, 6)[1]);
    assert(file[4] == file.subrange(2, 6)[2]);
    assert(file[5] == file.subrange(2, 6)[3]);
}

/// A parameter set as it stands in a record: its length in two bytes, then its bytes.
pub open spec fn set_written(set: Seq<u8>) -> Seq<u8> {
    seq![(set.len() as int / 256) as u8, (set.len() as int % 256) as u8] + set
}

/// Parameter sets one after another.
pub open spec fn sets_written(sets: Seq<Seq<u8>>) -> Seq<u8>
    decreases sets.len(),
{
    if sets.len() == 0 {
        Seq::empty()
    } else {
        set_written(sets[0]) + sets_written(sets.subrange(1, sets.len() as int))
    }
}

/// Whether every set is short enough for its length to fit into two bytes.
pub open spec fn all_fit(sets: Seq<Seq<u8>>) -> bool {
    forall|i: int| 0 <= i < sets.len() ==> (#[trigger] sets[i]).len() <= 0xffff
}

/// Parameter sets that stand in a record are read back, and reading stops behind them.
proof fn sets_read_back(before: Seq<u8>, sets: Seq<Seq<u8>>, after: Seq<u8>)
    requires
        all_fit(sets),
    ensures
        decode::sets_at(
            before + sets_written(sets) + after,
            before.len() as int,
            sets.len(),
        ) == (sets, (before.len() + sets_written(sets).len()) as int),
    decreases sets.len(),
{
    let data = before + sets_written(sets) + after;
    let at = before.len() as int;
    if sets.len() == 0 {
        assert(sets =~= Seq::empty());
    } else {
        let first = sets[0];
        let rest = sets.subrange(1, sets.len() as int);
        let written = set_written(first);
        assert(first.len() <= 0xffff);
        assert(all_fit(rest)) by {
            assert forall|i: int| 0 <= i < rest.len() implies (#[trigger] rest[i]).len()
                <= 0xffff by {
                assert(rest[i] == sets[i + 1]);
            }
        }
        sets_read_back(before + written, rest, after);
        assert(before + written + sets_written(rest) + after =~= data);
        assert(data[at] == written[0]);
        assert(data[at + 1] == written[1]);
        assert(decode::be16(data, at) == first.len());
        let end = at + 2 + first.len();
        assert(data.subrange(at + 2, end) =~= first);
        assert(seq![first] + rest =~= sets);
    }
}

/// An AVCC record: five bytes of profile, the number of sequence parameter sets under three
/// reserved bits, the sets, and the picture parameter sets after their number.
pub open spec fn avcc_written(
    profile: Seq<u8>,
    reserved: u8,
    sps: Seq<Seq<u8>>,
    pps: Seq<Seq<u8>>,
) -> Seq<u8> {
    profile + seq![(reserved * 32 + sps.len()) as u8] + sets_written(sps) + seq![pps.len() as u8]
        + sets_written(pps)
}

/// The parameter sets in an AVCC record are read back, in order, whatever its reserved bits
/// are and whatever follows it.
pub proof fn avcc_reads_back(
    profile: Seq<u8>,
    reserved: u8,
    sps: Seq<Seq<u8>>,
    pps: Seq<Seq<u8>>,
    after: Seq<u8>,
)
    requires
        profile.len() == 5,
        reserved <= 7,
        sps.len() <= 31,
        pps.len() <= 255,
        sps.len() + pps.len() > 0,
        all_fit(sps),
        all_fit(pps),
    ensures
        decode::avcc_sets(avcc_written(profile, reserved, sps, pps) + after) == Ok::<
            Seq<Seq<u8>>,
            ErrorView,
        >(sps + pps),
{
    let data = avcc_written(profile, reserved, sps, pps) + after;
    let head = profile + seq![(reserved * 32 + sps.len()) as u8];
    let tail = seq![pps.len() as u8] + sets_written(pps) + after;
    assert(data =~= head + sets_written(sps) + tail);
    sets_read_back(head, sps, tail);
    let middle = (head.len() + sets_written(sps).len()) as int;
    let before = head + sets_written(sps) + seq![pps.len() as u8];
    assert(data =~= before + sets_written(pps) + after);
    sets_read_back(before, pps, after);
    assert(data[5] == (reserved * 32 + sps.len()) as u8);
    assert(data[5] % 32 == sps.len());
    assert(data[middle] == pps.len() as u8);
    assert(data.len() >= 7);
}

/// One array of an HVCC record: the type of its parameter sets, their number in two bytes,
/// and the sets.
pub open spec fn array_written(kind: u8, sets: Seq<Seq<u8>>) -> Seq<u8> {
    seq![kind, (sets.len() as int / 256) as u8, (sets.len() as int % 256) as u8] + sets_written(
        sets,
    )
}

/// Arrays one after another.
pub open spec fn arrays_written(arrays: Seq<(u8, Seq<Seq<u8>>)>) -> Seq<u8>
    decreases arrays.len(),
{
    if arrays.len() == 0 {
        Seq::empty()
    } else {
        array_written(arrays[0].0, arrays[0].1) + arrays_written(
            arrays.subrange(1, arrays.len() as int),
        )
    }
}

/// The parameter sets of all arrays, in order.
pub open spec fn all_sets(arrays: Seq<(u8, Seq<Seq<u8>>)>) -> Seq<Seq<u8>>
    decreases arrays.len(),
{
    if arrays.len() == 0 {
        Seq::empty()
    } else {
        arrays[0].1 + all_sets(arrays.subrange(1, arrays.len() as int))
    }
}

/// Whether every array is small enough for its numbers to fit into two bytes.
pub open spec fn arrays_fit(arrays: Seq<(u8, Seq<Seq<u8>>)>) -> bool {
    forall|i: int|
        0 <= i < arrays.len() ==> (#[trigger] arrays[i]).1.len() <= 0xffff && all_fit(arrays[i].1)
}

/// Arrays that stand in a record are read back.
proof fn arrays_read_back(before: Seq<u8>, arrays: Seq<(u8, Seq<Seq<u8>>)>, after: Seq<u8>)
    requires
        arrays_fit(arrays),
    ensures
        decode::arrays_at(
            before + arrays_written(arrays) + after,
            before.len() as int,
            arrays.len(),
        ) == all_sets(arrays),
    decreases arrays.len(),
{
    let data = before + arrays_written(arrays) + after;
    let at = before.len() as int;
    if arrays.len() > 0 {
        let (kind, sets) = arrays[0];
        let rest = arrays.subrange(1, arrays.len() as int);
        let head = seq![kind, (sets.len() as int / 256) as u8, (sets.len() as int % 256) as u8];
        let tail = arrays_written(rest) + after;
        assert(arrays[0].1.len() <= 0xffff);
        assert(arrays_fit(rest)) by {
            assert forall|i: int| 0 <= i < rest.len() implies (#[trigger] rest[i]).1.len() <= 0xffff
                && all_fit(rest[i].1) by {
                assert(rest[i] == arrays[i + 1]);
            }
        }
        sets_read_back(before + head, sets, tail);
        assert(before + head + sets_written(sets) + tail =~= data);
        arrays_read_back(before + array_written(kind, sets), rest, after);
        assert(before + array_written(kind, sets) + arrays_written(rest) + after =~= data);
        assert(data[at + 1] == head[1]);
        assert(data[at + 2] == head[2]);
        assert(decode::be16(data, at + 1) == sets.len());
    }
}

/// An HVCC record: 22 bytes of profile, the number of arrays, and the arrays.
pub open spec fn hvcc_written(profile: Seq<u8>, arrays: Seq<(u8, Seq<Seq<u8>>)>) -> Seq<u8> {
    profile + seq![arrays.len() as u8] + arrays_written(arrays)
}

/// The parameter sets in an HVCC record are read back, in order, whatever their arrays and
/// whatever follows the record.
pub proof fn hvcc_reads_back(
    profile: Seq<u8>,
    arrays: Seq<(u8, Seq<Seq<u8>>)>,
    after: Seq<u8>,
)
    requires
        profile.len() == 22,
        arrays.len() <= 255,
        arrays_fit(arrays),
        all_sets(arrays).len() > 0,
    ensures
        decode::hvcc_sets(hvcc_written(profile, arrays) + after) == Ok::<Seq<Seq<u8>>, ErrorView>(
            all_sets(arrays),
        ),
{
    let data = hvcc_written(profile, arrays) + after;
    let before = profile + seq![arrays.len() as u8];
    arrays_read_back(before, arrays, after);
    assert(data =~= before + arrays_written(arrays) + after);
    assert(data[22] == arrays.len() as u8);
}

/// A parameter set that is cut short is left out, and what came before it is kept.
pub proof fn cut_sets_are_left_out(before: Seq<u8>, set: Seq<u8>, kept: int, count: nat)
    requires
        set.len() <= 0xffff,
        0 <= kept < set_written(set).len(),
        count > 0,
    ensures
        decode::sets_at(before + set_written(set).take(kept), before.len() as int, count).0
            == Seq::<Seq<u8>>::empty(),
{
    let data = before + set_written(set).take(kept);
    let at = before.len() as int;
    if kept >= 2 {
        assert(data[at] == set_written(set)[0]);
        assert(data[at + 1] == set_written(set)[1]);
        assert(decode::be16(data, at) == set.len());
    }
}

} // verus!

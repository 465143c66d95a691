//! Which JPEG pictures the decoder can be handed.
//!
//! The decoder answers malformed data with an error, but it panics on some pictures that it
//! does not reject, and does not return from others: it copies a narrow picture with widely
//! spaced chroma into a buffer too short for it, takes for granted that the Huffman tables of
//! a later scan were defined, that the first component has the finest sampling and that a
//! progressive picture keeps its colour space, and looks for ever for the marker behind a
//! trailing restart. [`is_fit`] walks the markers as the decoder does and tells these pictures
//! from the rest.
use vstd::prelude::*;

verus! {

/// Start of a baseline frame.
pub const SOF0: u8 = 0xC0;

/// Start of a progressive frame, the last of the frame markers that the decoder reads.
pub const SOF2: u8 = 0xC2;

/// Define Huffman tables.
pub const DHT: u8 = 0xC4;

/// Define arithmetic coding conditions.
pub const DAC: u8 = 0xCC;

/// The first restart marker.
pub const RST0: u8 = 0xD0;

/// The last restart marker.
pub const RST7: u8 = 0xD7;

/// End of the image.
pub const EOI: u8 = 0xD9;

/// Start of a scan.
pub const SOS: u8 = 0xDA;

/// Define the number of lines.
pub const DNL: u8 = 0xDC;

/// Define the restart interval.
pub const DRI: u8 = 0xDD;

/// The first application segment.
pub const APP0: u8 = 0xE0;

/// The application segment of colour profiles.
pub const APP2: u8 = 0xE2;

/// The application segment of captions.
pub const APP13: u8 = 0xED;

/// The application segment that names the colour space.
pub const APP14: u8 = 0xEE;

/// A comment.
pub const COM: u8 = 0xFE;

/// Whether a marker starts at `at`: 0xFF and a byte that is neither a stuffed zero nor more
/// fill.
pub open spec fn marker_at(data: Seq<u8>, at: int) -> bool {
    0 <= at && at + 1 < data.len() && data[at] == 0xFF && data[at + 1] != 0 && data[at + 1] != 0xFF
}

/// Where the first marker from `from` on starts; the data's length where there is none.
pub open spec fn next_marker(data: Seq<u8>, from: int) -> int
    decreases data.len() - from,
{
    if from < 0 || from + 1 >= data.len() {
        data.len() as int
    } else if marker_at(data, from) {
        from
    } else {
        next_marker(data, from + 1)
    }
}

/// The big-endian number in the two bytes at `at`.
pub open spec fn word(data: Seq<u8>, at: int) -> int {
    data[at] * 256 + data[at + 1]
}

/// Whether the segment of the marker at `at` has a length and lies inside the data.
pub open spec fn segment_fits(data: Seq<u8>, at: int) -> bool {
    at + 4 <= data.len() && word(data, at + 2) >= 2 && at + 2 + word(data, at + 2) <= data.len()
}

/// Where the decoder reads on behind the segment at `at`. It always takes five bytes out of an
/// APP0 segment longer than five, though one of length six holds only four.
pub open spec fn segment_end(data: Seq<u8>, at: int) -> int {
    let end = at + 2 + word(data, at + 2);
    if data[at + 1] == APP0 && word(data, at + 2) == 6 && end < data.len() {
        end + 1
    } else {
        end
    }
}

/// Whether the decoder knows the marker. The codes between the restarts and [`DRI`] are all
/// known.
pub open spec fn is_known(code: u8) -> bool {
    SOF0 <= code <= SOF2 || code == DHT || code == DAC || RST0 <= code <= DRI || APP0 <= code
        <= APP2 || code == APP13 || code == APP14 || code == COM
}

/// Whether the marker restarts the entropy coding.
pub open spec fn is_restart(code: u8) -> bool {
    RST0 <= code <= RST7
}

/// How many components the frame at `at` has.
pub open spec fn components(data: Seq<u8>, at: int) -> int {
    data[at + 9] as int
}

/// Whether the frame header at `at` is as long as its components ask.
pub open spec fn frame_well_formed(data: Seq<u8>, at: int) -> bool {
    segment_fits(data, at) && word(data, at + 2) >= 8 && word(data, at + 2) == 8 + 3 * components(
        data,
        at,
    )
}

/// The horizontal sampling factor of the frame's `i`-th component.
pub open spec fn horizontal(data: Seq<u8>, at: int, i: int) -> int {
    data[at + 11 + 3 * i] as int / 16
}

/// The vertical sampling factor of the frame's `i`-th component.
pub open spec fn vertical(data: Seq<u8>, at: int, i: int) -> int {
    data[at + 11 + 3 * i] as int % 16
}

/// Whether the `i`-th component is sampled as the first one, or once per unit.
pub open spec fn full_or_single(data: Seq<u8>, at: int, i: int) -> bool {
    ||| horizontal(data, at, i) == horizontal(data, at, 0) && vertical(data, at, i) == vertical(
        data,
        at,
        0,
    )
    ||| horizontal(data, at, i) == 1 && vertical(data, at, i) == 1
}

/// Whether the decoder's buffers hold a picture sampled as the frame at `at` says. A single
/// component always fits. Otherwise the first component is the finest, except that a baseline
/// picture with no factor above two may be finer elsewhere down the picture; a factor of four
/// or more across needs a width that the colour conversion does not pad; and beyond factors of
/// two either nothing is sampled vertically, or each component is full or single.
pub open spec fn sampling_safe(data: Seq<u8>, at: int) -> bool {
    let across = horizontal(data, at, 0);
    let down = vertical(data, at, 0);
    ||| components(data, at) <= 1
    ||| {
        &&& forall|i: int|
            0 <= i < components(data, at) ==> #[trigger] horizontal(data, at, i) <= across
        &&& forall|i: int|
            0 <= i < components(data, at) ==> #[trigger] vertical(data, at, i) <= if data[at + 1]
                != SOF2 && across <= 2 && down <= 2 {
                2
            } else {
                down
            }
        &&& across < 4 || word(data, at + 7) >= 16
        &&& {
            ||| across <= 2 && down <= 2
            ||| down == 1
            ||| forall|i: int|
                0 <= i < components(data, at) ==> #[trigger] full_or_single(data, at, i)
        }
    }
}

/// The sum of `count` bytes from `from` on.
pub open spec fn total(data: Seq<u8>, from: int, count: nat) -> int
    decreases count,
{
    if count == 0 {
        0
    } else {
        total(data, from, (count - 1) as nat) + data[from + count - 1]
    }
}

/// Which Huffman tables are defined once the definitions between `from` and `end` are read:
/// four of DC coefficients, then four of AC coefficients. None where the decoder rejects them.
pub open spec fn tables_after(data: Seq<u8>, from: int, end: int, defined: Seq<bool>) -> Option<
    Seq<bool>,
>
    decreases end - from,
{
    if end - from <= 16 {
        if from < end {
            None
        } else {
            Some(defined)
        }
    } else {
        let class = data[from] as int / 16;
        let number = data[from] as int % 16;
        let symbols = total(data, from + 1, 16);
        if class > 1 || number > 3 || symbols < 0 || symbols > 256 || from + 17 + symbols > end {
            None
        } else {
            tables_after(data, from + 17 + symbols, end, defined.update(class * 4 + number, true))
        }
    }
}

/// The tables defined in a picture out of an AVI file, which may leave out the usual ones.
pub open spec fn with_usual(defined: Seq<bool>, from_avi: bool) -> Seq<bool> {
    if from_avi {
        defined.update(0, true).update(1, true).update(4, true).update(5, true)
    } else {
        defined
    }
}

/// Whether the APP0 segment at `at` says that the picture comes out of an AVI file.
pub open spec fn names_avi(data: Seq<u8>, at: int) -> bool {
    word(data, at + 2) > 5 && at + 9 <= data.len() && data.subrange(at + 4, at + 9) == seq![
        0x41u8,
        0x56,
        0x49,
        0x31,
        0,
    ]
}

/// Whether the scan header at `at` is as long as its components ask.
pub open spec fn scan_well_formed(data: Seq<u8>, at: int) -> bool {
    segment_fits(data, at) && word(data, at + 2) >= 6 && 1 <= data[at + 4] <= 4 && word(
        data,
        at + 2,
    ) == 6 + 2 * data[at + 4]
}

/// Whether the tables that the scan's `i`-th component names are defined.
pub open spec fn tables_defined(data: Seq<u8>, at: int, defined: Seq<bool>, i: int) -> bool {
    let tables = data[at + 6 + 2 * i] as int;
    defined[tables / 16 % 4] && defined[4 + tables % 16 % 4]
}

/// Whether every later scan of a baseline picture names tables that are defined. Restarts and
/// unknown markers are passed over; any other marker ends the decoding.
pub open spec fn scans_safe(data: Seq<u8>, from: int, defined: Seq<bool>) -> bool
    decreases data.len() - from,
    via scans_go_on
{
    let at = next_marker(data, from);
    if at >= data.len() {
        true
    } else if data[at + 1] == SOS {
        scan_well_formed(data, at) ==> {
            &&& forall|i: int|
                0 <= i < data[at + 4] ==> #[trigger] tables_defined(data, at, defined, i)
            &&& scans_safe(data, segment_end(data, at), defined)
        }
    } else if is_known(data[at + 1]) && !is_restart(data[at + 1]) {
        true
    } else {
        scans_safe(data, at + 2, defined)
    }
}

#[via_fn]
proof fn scans_go_on(data: Seq<u8>, from: int, defined: Seq<bool>) {
    marker_found(data, from);
}

/// Whether the decoder comes to an end of a progressive picture, and keeps to its colour
/// space. The data may not run out behind a restart, and between the scans only known
/// segments may stand, none of which names a colour space.
pub open spec fn progress_safe(data: Seq<u8>, from: int, restarted: bool) -> bool
    decreases data.len() - from,
    via progress_goes_on
{
    let at = next_marker(data, from);
    let code = data[at + 1];
    if at >= data.len() {
        !restarted
    } else if is_restart(code) {
        progress_safe(data, at + 2, true)
    } else if !is_known(code) || code == APP14 {
        false
    } else if code == EOI || SOF0 <= code <= SOF2 || code == DAC || code == DNL {
        true
    } else if code == SOS {
        scan_well_formed(data, at) ==> progress_safe(data, segment_end(data, at), false)
    } else {
        segment_fits(data, at) ==> progress_safe(data, segment_end(data, at), false)
    }
}

#[via_fn]
proof fn progress_goes_on(data: Seq<u8>, from: int, restarted: bool) {
    marker_found(data, from);
}

/// What the segments before the first scan have told.
pub struct Told {
    /// Where the frame header stands.
    pub frame: Option<int>,
    /// The Huffman tables that are defined.
    pub defined: Seq<bool>,
    /// Whether the picture comes out of an AVI file.
    pub from_avi: bool,
    /// Whether a colour space was named behind the frame header.
    pub recolored: bool,
}

/// Whether the first scan, at `at`, and what follows it are safe to decode.
pub open spec fn first_scan_safe(data: Seq<u8>, at: int, told: Told) -> bool {
    match told.frame {
        Some(frame) if scan_well_formed(data, at) => {
            let end = segment_end(data, at);
            if data[frame + 1] == SOF2 {
                components(data, frame) != 2 && !told.recolored && progress_safe(data, end, false)
            } else {
                data[at + 4] == components(data, frame) || scans_safe(
                    data,
                    end,
                    with_usual(told.defined, told.from_avi),
                )
            }
        },
        _ => true,
    }
}

/// Whether the decoder can be handed what stands from `from` on, before the first scan.
pub open spec fn headers_safe(data: Seq<u8>, from: int, told: Told) -> bool
    decreases data.len() - from,
    via headers_go_on
{
    let at = next_marker(data, from);
    let code = data[at + 1];
    let end = segment_end(data, at);
    if at >= data.len() || code == EOI || code == DAC || code == DNL || !segment_fits(data, at) {
        true
    } else if SOF0 <= code <= SOF2 {
        (told.frame is None && frame_well_formed(data, at)) ==> (sampling_safe(data, at)
            && headers_safe(data, end, Told { frame: Some(at), ..told }))
    } else if code == DHT {
        match tables_after(data, at + 4, end, told.defined) {
            Some(defined) => headers_safe(data, end, Told { defined, ..told }),
            None => true,
        }
    } else if code == APP0 {
        headers_safe(
            data,
            end,
            Told { from_avi: told.from_avi || names_avi(data, at), ..told },
        )
    } else if code == APP14 {
        headers_safe(data, end, Told { recolored: told.recolored || told.frame is Some, ..told })
    } else if code == SOS {
        first_scan_safe(data, at, told)
    } else {
        headers_safe(data, end, told)
    }
}

#[via_fn]
proof fn headers_go_on(data: Seq<u8>, from: int, told: Told) {
    marker_found(data, from);
}

/// What is told before the first segment.
pub open spec fn nothing_told() -> Told {
    Told { frame: None, defined: Seq::new(8, |i: int| false), from_avi: false, recolored: false }
}

/// Whether the decoder returns on `data`, with a picture or with an error. Data that does not
/// start as a JPEG picture is rejected at once.
pub open spec fn fit(data: Seq<u8>) -> bool {
    (data.len() >= 2 && word(data, 0) == 0xFFD8) ==> headers_safe(data, 2, nothing_told())
}

/// The next marker stands where it was looked for or later, or nowhere.
proof fn marker_found(data: Seq<u8>, from: int)
    ensures
        next_marker(data, from) == data.len() || (from <= next_marker(data, from) && marker_at(
            data,
            next_marker(data, from),
        )),
    decreases data.len() - from,
{
    if !(from < 0 || from + 1 >= data.len()) && !marker_at(data, from) {
        marker_found(data, from + 1);
    }
}

fn find_marker(data: &[u8], from: usize) -> (at: usize)
    ensures
        at == next_marker(data@, from as int),
        at == data.len() || (from <= at && marker_at(data@, at as int)),
{
    let mut at: usize = from;
    while at < data.len() && at < data.len() - 1
        invariant
            from <= at,
            next_marker(data@, at as int) == next_marker(data@, from as int),
        decreases data.len() - at,
    {
        if data[at] == 0xFF && data[at + 1] != 0 && data[at + 1] != 0xFF {
            return at;
        }
        at = at + 1;
    }
    data.len()
}

fn read_word(data: &[u8], at: usize) -> (number: usize)
    requires
        at + 2 <= data.len(),
    ensures
        number == word(data@, at as int),
        number <= 0xFFFF,
{
    data[at] as usize * 256 + data[at + 1] as usize
}

fn fits(data: &[u8], at: usize) -> (fitting: bool)
    requires
        at + 2 <= data.len(),
    ensures
        fitting == segment_fits(data@, at as int),
{
    if data.len() - at < 4 {
        return false;
    }
    let length: usize = read_word(data, at + 2);
    length >= 2 && length <= data.len() - at - 2
}

fn end_of(data: &[u8], at: usize) -> (end: usize)
    requires
        segment_fits(data@, at as int),
    ensures
        end == segment_end(data@, at as int),
        at + 4 <= end <= data.len(),
{
    let size: usize = data.len();
    let length: usize = read_word(data, at + 2);
    let end: usize = at + 2 + length;
    if data[at + 1] == APP0 && length == 6 && end < size {
        end + 1
    } else {
        end
    }
}

fn known(code: u8) -> (yes: bool)
    ensures
        yes == is_known(code),
{
    (SOF0 <= code && code <= SOF2) || code == DHT || code == DAC || (RST0 <= code && code <= DRI)
        || (APP0 <= code && code <= APP2) || code == APP13 || code == APP14 || code == COM
}

fn restart(code: u8) -> (yes: bool)
    ensures
        yes == is_restart(code),
{
    RST0 <= code && code <= RST7
}

fn frame_as_long_as_it_says(data: &[u8], at: usize) -> (yes: bool)
    requires
        segment_fits(data@, at as int),
    ensures
        yes == frame_well_formed(data@, at as int),
{
    let size: usize = data.len();
    assert(at + 4 <= size);
    let length: usize = read_word(data, at + 2);
    length >= 8 && length == 8 + 3 * data[at + 9] as usize
}

fn sampling_is_safe(data: &[u8], at: usize) -> (safe: bool)
    requires
        frame_well_formed(data@, at as int),
    ensures
        safe == sampling_safe(data@, at as int),
{
    let size: usize = data.len();
    assert(at + 10 <= size);
    let count: usize = data[at + 9] as usize;
    if count <= 1 {
        return true;
    }
    let across: u8 = data[at + 11] / 16;
    let down: u8 = data[at + 11] % 16;
    let deepest: u8 = if data[at + 1] != SOF2 && across <= 2 && down <= 2 {
        2
    } else {
        down
    };
    let mut finest = true;
    let mut plain = true;
    let mut i: usize = 0;
    while i < count
        invariant
            i <= count,
            size == data.len(),
            at + 10 + 3 * count <= size,
            count == components(data@, at as int),
            frame_well_formed(data@, at as int),
            across == horizontal(data@, at as int, 0),
            down == vertical(data@, at as int, 0),
            finest == forall|j: int|
                0 <= j < i ==> #[trigger] horizontal(data@, at as int, j) <= across && vertical(
                    data@,
                    at as int,
                    j,
                ) <= deepest,
            plain == forall|j: int| 0 <= j < i ==> #[trigger] full_or_single(data@, at as int, j),
        decreases count - i,
    {
        let factors: u8 = data[at + 11 + 3 * i];
        assert(factors / 16 == horizontal(data@, at as int, i as int));
        assert(factors % 16 == vertical(data@, at as int, i as int));
        if factors / 16 > across || factors % 16 > deepest {
            finest = false;
        }
        if !((factors / 16 == across && factors % 16 == down) || factors == 0x11) {
            assert(!full_or_single(data@, at as int, i as int));
            plain = false;
        } else {
            assert(full_or_single(data@, at as int, i as int));
        }
        i = i + 1;
    }
    proof {
        if finest {
            assert forall|j: int| 0 <= j < count implies #[trigger] vertical(data@, at as int, j)
                <= deepest by {
                assert(horizontal(data@, at as int, j) <= across);
            }
        }
    }
    let wide: bool = across < 4 || read_word(data, at + 7) >= 16;
    finest && wide && ((across <= 2 && down <= 2) || down == 1 || plain)
}

fn add_up(data: &[u8], from: usize, count: usize) -> (sum: usize)
    requires
        from + count <= data.len(),
        count <= 16,
    ensures
        sum == total(data@, from as int, count as nat),
        sum <= 16 * 255,
{
    let mut sum: usize = 0;
    let mut i: usize = 0;
    while i < count
        invariant
            i <= count <= 16,
            from + count <= data.len(),
            sum == total(data@, from as int, i as nat),
            sum <= i * 255,
        decreases count - i,
    {
        sum = sum + data[from + i] as usize;
        i = i + 1;
    }
    sum
}

/// Marks the tables defined between `from` and `end`; false where the decoder rejects them.
fn define_tables(data: &[u8], from: usize, end: usize, defined: &mut [bool; 8]) -> (accepted: bool)
    requires
        from <= end <= data.len(),
    ensures
        match tables_after(data@, from as int, end as int, old(defined)@) {
            Some(after) => accepted && final(defined)@ == after,
            None => !accepted,
        },
{
    let mut at: usize = from;
    while end - at > 16
        invariant
            from <= at <= end <= data.len(),
            tables_after(data@, at as int, end as int, defined@) == tables_after(
                data@,
                from as int,
                end as int,
                old(defined)@,
            ),
        decreases end - at,
    {
        let class: usize = data[at] as usize / 16;
        let number: usize = data[at] as usize % 16;
        let symbols: usize = add_up(data, at + 1, 16);
        if class > 1 || number > 3 || symbols > 256 || symbols > end - at - 17 {
            return false;
        }
        defined[class * 4 + number] = true;
        at = at + 17 + symbols;
    }
    at == end
}

fn add_usual(defined: &mut [bool; 8])
    ensures
        final(defined)@ == with_usual(old(defined)@, true),
{
    defined[0] = true;
    defined[1] = true;
    defined[4] = true;
    defined[5] = true;
}

fn says_avi(data: &[u8], at: usize) -> (yes: bool)
    requires
        segment_fits(data@, at as int),
    ensures
        yes == names_avi(data@, at as int),
{
    let size: usize = data.len();
    let length: usize = read_word(data, at + 2);
    if length <= 5 || size - at < 9 {
        return false;
    }
    let yes: bool = data[at + 4] == 0x41 && data[at + 5] == 0x56 && data[at + 6] == 0x49 && data[at
        + 7] == 0x31 && data[at + 8] == 0;
    proof {
        let name = data@.subrange(at + 4, at + 9);
        let avi = seq![0x41u8, 0x56, 0x49, 0x31, 0];
        assert(name[0] == data@[at + 4] && name[1] == data@[at + 5] && name[2] == data@[at + 6]
            && name[3] == data@[at + 7] && name[4] == data@[at + 8]);
        assert(avi[0] == 0x41 && avi[1] == 0x56 && avi[2] == 0x49 && avi[3] == 0x31 && avi[4] == 0);
        if yes {
            assert(name =~= avi);
        }
    }
    yes
}

fn scan_as_long_as_it_says(data: &[u8], at: usize) -> (yes: bool)
    requires
        at + 2 <= data.len(),
    ensures
        yes == scan_well_formed(data@, at as int),
{
    if !fits(data, at) {
        return false;
    }
    let size: usize = data.len();
    assert(at + 4 <= size);
    let length: usize = read_word(data, at + 2);
    length >= 6 && 1 <= data[at + 4] && data[at + 4] <= 4 && length == 6 + 2 * data[at + 4] as usize
}

fn names_defined_tables(data: &[u8], at: usize, defined: &[bool; 8]) -> (yes: bool)
    requires
        scan_well_formed(data@, at as int),
    ensures
        yes == forall|i: int|
            0 <= i < data@[at + 4] ==> #[trigger] tables_defined(data@, at as int, defined@, i),
{
    let size: usize = data.len();
    assert(at + 8 <= size);
    let count: usize = data[at + 4] as usize;
    let mut i: usize = 0;
    while i < count
        invariant
            i <= count,
            count == data@[at + 4],
            size == data.len(),
            at + 8 + 2 * count <= size,
            forall|j: int|
                0 <= j < i ==> #[trigger] tables_defined(data@, at as int, defined@, j),
        decreases count - i,
    {
        let tables: usize = data[at + 6 + 2 * i] as usize;
        if !defined[tables / 16 % 4] || !defined[4 + tables % 16 % 4] {
            assert(!tables_defined(data@, at as int, defined@, i as int));
            return false;
        }
        i = i + 1;
    }
    true
}

fn scans_are_safe(data: &[u8], from: usize, defined: &[bool; 8]) -> (safe: bool)
    requires
        from <= data.len(),
    ensures
        safe == scans_safe(data@, from as int, defined@),
{
    let mut next: usize = from;
    loop
        invariant
            next <= data.len(),
            scans_safe(data@, next as int, defined@) == scans_safe(data@, from as int, defined@),
        decreases data.len() - next,
    {
        let at: usize = find_marker(data, next);
        if at >= data.len() {
            return true;
        }
        let code: u8 = data[at + 1];
        if code == SOS {
            if !scan_as_long_as_it_says(data, at) {
                return true;
            }
            if !names_defined_tables(data, at, defined) {
                return false;
            }
            next = end_of(data, at);
        } else if known(code) && !restart(code) {
            return true;
        } else {
            next = at + 2;
        }
    }
}

fn progress_is_safe(data: &[u8], from: usize) -> (safe: bool)
    requires
        from <= data.len(),
    ensures
        safe == progress_safe(data@, from as int, false),
{
    let mut next: usize = from;
    let mut restarted = false;
    loop
        invariant
            next <= data.len(),
            progress_safe(data@, next as int, restarted) == progress_safe(
                data@,
                from as int,
                false,
            ),
        decreases data.len() - next,
    {
        let at: usize = find_marker(data, next);
        if at >= data.len() {
            return !restarted;
        }
        let code: u8 = data[at + 1];
        if restart(code) {
            next = at + 2;
            restarted = true;
        } else if !known(code) || code == APP14 {
            return false;
        } else if code == EOI || (SOF0 <= code && code <= SOF2) || code == DAC || code == DNL {
            return true;
        } else if (code == SOS && !scan_as_long_as_it_says(data, at)) || !fits(data, at) {
            return true;
        } else {
            next = end_of(data, at);
            restarted = false;
        }
    }
}

/// Whether the decoder can be handed `data`: see [`fit`].
pub fn is_fit(data: &[u8]) -> (yes: bool)
    ensures
        yes == fit(data@),
{
    if data.len() < 2 || data[0] != 0xFF || data[1] != 0xD8 {
        return true;
    }
    let mut next: usize = 2;
    let mut frame: Option<usize> = None;
    let mut defined: [bool; 8] = [false, false, false, false, false, false, false, false];
    let mut from_avi = false;
    let mut recolored = false;
    proof {
        assert(defined@ =~= nothing_told().defined);
    }
    loop
        invariant
            2 <= next <= data.len(),
            frame matches Some(at) ==> frame_well_formed(data@, at as int),
            fit(data@) == headers_safe(
                data@,
                next as int,
                Told {
                    frame: match frame {
                        Some(at) => Some(at as int),
                        None => None,
                    },
                    defined: defined@,
                    from_avi,
                    recolored,
                },
            ),
        decreases data.len() - next,
    {
        let at: usize = find_marker(data, next);
        if at >= data.len() {
            return true;
        }
        let code: u8 = data[at + 1];
        if code == EOI || code == DAC || code == DNL || !fits(data, at) {
            return true;
        }
        let end: usize = end_of(data, at);
        if SOF0 <= code && code <= SOF2 {
            if frame.is_some() || !frame_as_long_as_it_says(data, at) {
                return true;
            }
            if !sampling_is_safe(data, at) {
                return false;
            }
            frame = Some(at);
        } else if code == DHT {
            if !define_tables(data, at + 4, end, &mut defined) {
                return true;
            }
        } else if code == APP0 {
            from_avi = from_avi || says_avi(data, at);
        } else if code == APP14 {
            recolored = recolored || frame.is_some();
        } else if code == SOS {
            return match frame {
                Some(frame) => first_scan_is_safe(data, at, frame, defined, from_avi, recolored),
                None => true,
            };
        }
        next = end;
    }
}

fn first_scan_is_safe(
    data: &[u8],
    at: usize,
    frame: usize,
    defined: [bool; 8],
    from_avi: bool,
    recolored: bool,
) -> (safe: bool)
    requires
        at + 2 <= data.len(),
        frame_well_formed(data@, frame as int),
    ensures
        safe == first_scan_safe(
            data@,
            at as int,
            Told { frame: Some(frame as int), defined: defined@, from_avi, recolored },
        ),
{
    if !scan_as_long_as_it_says(data, at) {
        return true;
    }
    let size: usize = data.len();
    assert(frame + 10 <= size);
    let end: usize = end_of(data, at);
    if data[frame + 1] == SOF2 {
        data[frame + 9] != 2 && !recolored && progress_is_safe(data, end)
    } else if data[at + 4] == data[frame + 9] {
        true
    } else {
        let mut tables: [bool; 8] = defined;
        if from_avi {
            add_usual(&mut tables);
        }
        scans_are_safe(data, end, &tables)
    }
}

} // verus!

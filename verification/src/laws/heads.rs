//! What a response says is what is read out of it.

use crate::text;
use crate::wire;
use crate::wire::{DescribeView, HeadView, HeaderView, ProbeError, ProgressView, ReadEvent};
use crate::wire::{ReaderView, ResponseReader};
use vstd::prelude::*;
use vstd::utf8;

verus! {

/// Whether a text is made of white space alone, without a line break in it.
pub open spec fn blank(text: Seq<char>) -> bool {
    forall|i: int|
        0 <= i < text.len() ==> ((#[trigger] text[i]) == ' ' || text[i] == '\t')
}

/// Whether a text neither starts nor ends with white space.
pub open spec fn bare(text: Seq<char>) -> bool {
    text.len() > 0 ==> !text::is_space(text[0]) && !text::is_space(text.last())
}

/// Whether a text holds no such character.
pub open spec fn without(text: Seq<char>, c: char) -> bool {
    forall|i: int| 0 <= i < text.len() ==> (#[trigger] text[i]) != c
}

/// White space around a text that has none at its ends is trimmed off, and nothing else.
pub proof fn blanks_are_trimmed_off(before: Seq<char>, text: Seq<char>, after: Seq<char>)
    requires
        blank(before),
        bare(text),
        blank(after),
    ensures
        text::trimmed(before + text + after) == text,
    decreases before.len() + after.len(),
{
    let whole = before + text + after;
    if before.len() > 0 {
        let rest = before.subrange(1, before.len() as int);
        assert(whole[0] == before[0]);
        assert(blank(rest)) by {
            assert forall|i: int| 0 <= i < rest.len() implies ((#[trigger] rest[i]) == ' ' || rest[i]
                == '\t') by {
                assert(rest[i] == before[i + 1]);
            }
        }
        blanks_are_trimmed_off(rest, text, after);
        assert(whole.subrange(1, whole.len() as int) =~= rest + text + after);
    } else if after.len() > 0 {
        let rest = after.drop_last();
        assert(whole.last() == after.last());
        assert(text::is_space(whole.last()));
        assert(blank(rest)) by {
            assert forall|i: int| 0 <= i < rest.len() implies ((#[trigger] rest[i]) == ' ' || rest[i]
                == '\t') by {
                assert(rest[i] == after[i]);
            }
        }
        if text.len() == 0 {
            let shorter = after.subrange(1, after.len() as int);
            assert(whole[0] == after[0]);
            assert(blank(shorter)) by {
                assert forall|i: int| 0 <= i < shorter.len() implies ((#[trigger] shorter[i]) == ' '
                    || shorter[i] == '\t') by {
                    assert(shorter[i] == after[i + 1]);
                }
            }
            blanks_are_trimmed_off(before, text, shorter);
            assert(whole.subrange(1, whole.len() as int) =~= before + text + shorter);
        } else {
            assert(whole[0] == text[0]);
            blanks_are_trimmed_off(before, text, rest);
            assert(whole.drop_last() =~= before + text + rest);
        }
    } else {
        assert(whole =~= text);
    }
}

/// The first place of a character that stands behind a text without it.
proof fn first_behind(text: Seq<char>, c: char, from: int, place: int)
    requires
        0 <= from <= place < text.len(),
        text[place] == c,
        forall|i: int| from <= i < place ==> (#[trigger] text[i]) != c,
    ensures
        wire::first_of(text, c, from) == place,
    decreases place - from,
{
    if from < place {
        first_behind(text, c, from + 1, place);
    }
}

/// Headers read back: a line of a name, a colon and a value, with or without white space
/// around them, reads as exactly that name and that value. The name has no colon; the value
/// may have colons, and both may have white space inside.
pub proof fn headers_read_back(
    name: Seq<char>,
    value: Seq<char>,
    before: Seq<char>,
    left: Seq<char>,
    right: Seq<char>,
    after: Seq<char>,
)
    requires
        without(name, ':'),
        bare(name),
        bare(value),
        blank(before),
        blank(left),
        blank(right),
        blank(after),
    ensures
        wire::header_of(before + name + left + seq![':'] + right + value + after) == Some(
            (name, value),
        ),
{
    let key = before + name + left;
    let rest = right + value + after;
    let line = before + name + left + seq![':'] + right + value + after;
    assert(line =~= key + seq![':'] + rest);
    let colon = key.len() as int;
    assert forall|i: int| 0 <= i < colon implies (#[trigger] line[i]) != ':' by {
        assert(line[i] == key[i]);
        if i < before.len() {
            assert(key[i] == before[i]);
        } else if i < before.len() + name.len() {
            assert(key[i] == name[i - before.len()]);
        } else {
            assert(key[i] == left[i - before.len() - name.len()]);
        }
    }
    first_behind(line, ':', 0, colon);
    assert(line.subrange(0, colon) =~= key);
    assert(line.subrange(colon + 1, line.len() as int) =~= rest);
    blanks_are_trimmed_off(before, name, left);
    blanks_are_trimmed_off(right, value, after);
}

/// A line without a colon holds no header.
pub proof fn lines_without_a_colon_hold_no_header(line: Seq<char>)
    requires
        without(line, ':'),
    ensures
        wire::header_of(line) is None,
{
    none_behind(line, ':', 0);
}

proof fn none_behind(text: Seq<char>, c: char, from: int)
    requires
        0 <= from <= text.len(),
        forall|i: int| from <= i < text.len() ==> (#[trigger] text[i]) != c,
    ensures
        wire::first_of(text, c, from) == text.len(),
    decreases text.len() - from,
{
    if from < text.len() {
        none_behind(text, c, from + 1);
    }
}

/// Status codes read back: they stand between the first two spaces of the first line, whatever
/// the protocol is called and whatever is said after them.
pub proof fn status_codes_read_back(protocol: Seq<char>, status: u16, reason: Seq<char>)
    requires
        without(protocol, ' '),
    ensures
        wire::status_of(protocol + seq![' '] + text::decimal(status as nat) + seq![' '] + reason)
            == Some(status as nat),
        wire::status_of(protocol + seq![' '] + text::decimal(status as nat)) == Some(status as nat),
{
    let code = text::decimal(status as nat);
    text::decimal_reads_back(status as nat);
    assert(text::is_digit(code[0]));
    let space = protocol.len() as int;
    let short = protocol + seq![' '] + code;
    let line = short + seq![' '] + reason;
    assert(line =~= protocol + seq![' '] + code + seq![' '] + reason);
    assert forall|i: int| 0 <= i < space implies (#[trigger] line[i]) != ' ' && short[i] != ' ' by {
        assert(line[i] == protocol[i] && short[i] == protocol[i]);
    }
    assert(forall|i: int| 0 <= i < space ==> (#[trigger] short[i]) == protocol[i]);
    first_behind(line, ' ', 0, space);
    first_behind(short, ' ', 0, space);
    assert forall|i: int| space + 1 <= i < short.len() implies (#[trigger] line[i]) != ' '
        && short[i] != ' ' by {
        assert(line[i] == code[i - space - 1] && short[i] == code[i - space - 1]);
        assert(text::is_digit(code[i - space - 1]));
    }
    assert(forall|i: int|
        space + 1 <= i < short.len() ==> (#[trigger] short[i]) == code[i - space - 1]);
    first_behind(line, ' ', space + 1, short.len() as int);
    none_behind(short, ' ', space + 1);
    assert(line.subrange(space + 1, short.len() as int) =~= code);
    assert(short.subrange(space + 1, short.len() as int) =~= code);
    assert(text::unsigned_part(code) =~= code);
}

/// The lines of a response's head behind its first: `name: value`, with a line break before
/// each.
pub open spec fn lines_written(headers: Seq<HeaderView>) -> Seq<char>
    decreases headers.len(),
{
    if headers.len() == 0 {
        Seq::empty()
    } else {
        seq!['\r', '\n'] + headers[0].0 + seq![':', ' '] + headers[0].1 + lines_written(
            headers.subrange(1, headers.len() as int),
        )
    }
}

/// Whether names and values can be told apart again.
pub open spec fn all_plain(headers: Seq<HeaderView>) -> bool {
    forall|i: int|
        0 <= i < headers.len() ==> {
            let (name, value) = #[trigger] headers[i];
            &&& without(name, ':') && without(name, '\n') && bare(name)
            &&& without(value, '\n') && bare(value)
        }
}

/// A line ends at the first line break, or where the text does.
proof fn line_ends(text: Seq<char>, from: int, end: int)
    requires
        0 <= from <= end <= text.len(),
        forall|i: int| from <= i < end ==> (#[trigger] text[i]) != '\n',
        end == text.len() || end + 1 < text.len() && text[end] == '\r' && text[end + 1] == '\n',
    ensures
        wire::line_end(text, from) == end,
    decreases end - from,
{
    if from < end {
        if from + 1 < end {
            assert(text[from + 1] != '\n');
        }
        line_ends(text, from + 1, end);
    }
}

/// The headers from one on are read back.
proof fn lines_read_back(before: Seq<char>, headers: Seq<HeaderView>)
    requires
        headers.len() > 0,
        all_plain(headers),
    ensures
        ({
            let rest = headers.subrange(1, headers.len() as int);
            let line = headers[0].0 + seq![':', ' '] + headers[0].1;
            wire::headers_from(before + line + lines_written(rest), before.len() as int)
                == headers
        }),
    decreases headers.len(),
{
    let rest = headers.subrange(1, headers.len() as int);
    let (name, value) = headers[0];
    let line = name + seq![':', ' '] + value;
    let text = before + line + lines_written(rest);
    let from = before.len() as int;
    let end = from + line.len();
    assert forall|i: int| from <= i < end implies (#[trigger] text[i]) != '\n' by {
        assert(text[i] == line[i - from]);
        if i - from < name.len() {
            assert(line[i - from] == name[i - from]);
        } else if i - from >= name.len() + 2 {
            assert(line[i - from] == value[i - from - name.len() - 2]);
        }
    }
    if rest.len() > 0 {
        assert(lines_written(rest)[0] == '\r' && lines_written(rest)[1] == '\n');
        assert(text[end] == lines_written(rest)[0]);
        assert(text[end + 1] == lines_written(rest)[1]);
    }
    line_ends(text, from, end);
    assert(text.subrange(from, end) =~= line);
    let none = Seq::<char>::empty();
    headers_read_back(name, value, none, none, seq![' '], none);
    assert(none + name + none + seq![':'] + seq![' '] + value + none =~= line);
    if rest.len() > 0 {
        let next = rest.subrange(1, rest.len() as int);
        let next_line = rest[0].0 + seq![':', ' '] + rest[0].1;
        let longer = before + line + seq!['\r', '\n'];
        assert(all_plain(rest)) by {
            assert forall|i: int| 0 <= i < rest.len() implies ({
                let (name, value) = #[trigger] rest[i];
                &&& without(name, ':') && without(name, '\n') && bare(name)
                &&& without(value, '\n') && bare(value)
            }) by {
                assert(rest[i] == headers[i + 1]);
            }
        }
        lines_read_back(longer, rest);
        assert(longer + next_line + lines_written(next) =~= text);
        wire::line_end_bounds(text, from);
        assert(seq![(name, value)] + rest =~= headers);
    } else {
        assert(lines_written(rest) =~= Seq::<char>::empty());
        assert(seq![(name, value)] =~= headers);
    }
}

/// A whole head is read back: the status code out of its first line, and every header, in
/// order, as it was written.
pub proof fn heads_read_back(
    protocol: Seq<char>,
    status: u16,
    reason: Seq<char>,
    headers: Seq<HeaderView>,
)
    requires
        without(protocol, ' '),
        without(protocol, '\n'),
        without(reason, '\n'),
        all_plain(headers),
    ensures
        wire::head_of(
            protocol + seq![' '] + text::decimal(status as nat) + seq![' '] + reason
                + lines_written(headers),
        ) == Ok::<HeadView, ProbeError>(HeadView { status, headers }),
{
    let code = text::decimal(status as nat);
    let first = protocol + seq![' '] + code + seq![' '] + reason;
    let text = first + lines_written(headers);
    let end = first.len() as int;
    text::decimal_reads_back(status as nat);
    assert forall|i: int| 0 <= i < end implies (#[trigger] text[i]) != '\n' by {
        assert(text[i] == first[i]);
        let place = i - protocol.len() - 1;
        if i < protocol.len() {
            assert(first[i] == protocol[i]);
        } else if 0 <= place < code.len() {
            assert(first[i] == code[place]);
            assert(text::is_digit(code[place]));
        } else if place > code.len() {
            assert(first[i] == reason[place - code.len() - 1]);
        }
    }
    if headers.len() > 0 {
        assert(lines_written(headers)[0] == '\r' && lines_written(headers)[1] == '\n');
        assert(text[end] == lines_written(headers)[0]);
        assert(text[end + 1] == lines_written(headers)[1]);
    }
    line_ends(text, 0, end);
    assert(text.subrange(0, end) =~= first);
    status_codes_read_back(protocol, status, reason);
    if headers.len() > 0 {
        let rest = headers.subrange(1, headers.len() as int);
        let line = headers[0].0 + seq![':', ' '] + headers[0].1;
        let before = first + seq!['\r', '\n'];
        lines_read_back(before, headers);
        assert(before + line + lines_written(rest) =~= text);
    } else {
        assert(lines_written(headers) =~= Seq::<char>::empty());
        assert(headers =~= Seq::<HeaderView>::empty());
    }
}

/// Whether two characters are the same letter of the alphabet, or the same character.
pub open spec fn same_letter(left: char, right: char) -> bool {
    ||| left == right
    ||| 'A' <= left && left <= 'Z' && right as int == left as int + 32
    ||| 'A' <= right && right <= 'Z' && left as int == right as int + 32
}

/// Texts are the same without regard to case exactly where they are so letter by letter.
pub proof fn case_is_a_matter_of_letters(left: Seq<char>, right: Seq<char>)
    ensures
        text::same_ignoring_case(left, right) <==> left.len() == right.len() && forall|i: int|
            0 <= i < left.len() ==> same_letter(#[trigger] left[i], right[i]),
{
    if text::same_ignoring_case(left, right) {
        assert(text::lowered(left).len() == text::lowered(right).len());
        assert forall|i: int| 0 <= i < left.len() implies same_letter(#[trigger] left[i], right[i]) by {
            assert(text::lowered(left)[i] == text::lowered(right)[i]);
            lowered_letters(left[i], right[i]);
        }
    }
    if left.len() == right.len() && (forall|i: int|
        0 <= i < left.len() ==> same_letter(#[trigger] left[i], right[i])) {
        assert forall|i: int| 0 <= i < left.len() implies text::lowered(left)[i] == text::lowered(
            right,
        )[i] by {
            lowered_letters(left[i], right[i]);
        }
        assert(text::lowered(left) =~= text::lowered(right));
    }
}

proof fn lowered_letters(left: char, right: char)
    ensures
        text::lower(left) == text::lower(right) <==> same_letter(left, right),
{
}

/// The value of a header is that of the first one of its name.
pub proof fn the_first_header_of_a_name_counts(
    front: Seq<HeaderView>,
    found: HeaderView,
    back: Seq<HeaderView>,
    name: Seq<char>,
)
    requires
        text::same_ignoring_case(found.0, name),
        forall|i: int|
            0 <= i < front.len() ==> !text::same_ignoring_case((#[trigger] front[i]).0, name),
    ensures
        wire::header_value(front + seq![found] + back, name) == Some(found.1),
        wire::header_value(front, name) is None,
{
    let all = front + seq![found] + back;
    place_of(all, name, 0, front.len() as int);
    assert(all[front.len() as int] == found);
    place_of(front, name, 0, front.len() as int);
}

proof fn place_of(headers: Seq<HeaderView>, name: Seq<char>, from: int, place: int)
    requires
        0 <= from <= place <= headers.len(),
        place < headers.len() ==> text::same_ignoring_case(headers[place].0, name),
        forall|i: int|
            from <= i < place ==> !text::same_ignoring_case((#[trigger] headers[i]).0, name),
    ensures
        wire::header_place(headers, name, from) == place,
    decreases place - from,
{
    if from < place {
        place_of(headers, name, from + 1, place);
    }
}

/// The body is as long as its header says, up to the cap.
pub proof fn content_length_is_obeyed(
    front: Seq<HeaderView>,
    name: Seq<char>,
    length: nat,
    back: Seq<HeaderView>,
)
    requires
        text::same_ignoring_case(name, "content-length"@),
        length <= usize::MAX,
        forall|i: int|
            0 <= i < front.len() ==> !text::same_ignoring_case(
                (#[trigger] front[i]).0,
                "content-length"@,
            ),
    ensures
        wire::body_length(front + seq![(name, text::decimal(length))] + back) == if length
            <= 262144 {
            length
        } else {
            262144
        },
        wire::body_length(front) == 0,
{
    let value = text::decimal(length);
    text::decimal_reads_back(length);
    the_first_header_of_a_name_counts(front, (name, value), back, "content-length"@);
    assert(text::is_digit(value[0]) && text::is_digit(value.last()));
    let none = Seq::<char>::empty();
    blanks_are_trimmed_off(none, value, none);
    assert(none + value + none =~= value);
    assert(text::unsigned_part(value) =~= value);
}

/// Where the head of a response ends.
proof fn head_ends(bytes: Seq<u8>, from: int, end: int)
    requires
        0 <= from <= end,
        wire::blank_line_at(bytes, end),
        forall|i: int| from <= i < end ==> !#[trigger] wire::blank_line_at(bytes, i),
    ensures
        wire::head_end(bytes, from) == Some(end),
    decreases end - from,
{
    if from < end {
        assert(!wire::blank_line_at(bytes, from));
        head_ends(bytes, from + 1, end);
    }
}

/// A response: its head, an empty line and its body.
pub open spec fn response_written(head: Seq<u8>, body: Seq<u8>) -> Seq<u8> {
    head + seq![13u8, 10, 13, 10] + body
}

/// A response is its head, an empty line and its body: what came before the first empty line
/// is read as the head, and what came after it is the body once there is as much of it as the
/// head says. A body that is not asked for is left out.
pub proof fn responses_are_split_at_the_empty_line(head: Seq<u8>, body: Seq<u8>, read_body: bool)
    requires
        forall|i: int|
            0 <= i < head.len() ==> !#[trigger] wire::blank_line_at(
                response_written(head, body),
                i,
            ),
    ensures
        ({
            let whole = response_written(head, body);
            match wire::parsed(head) {
                Err(error) => wire::with_head(read_body, whole) == ProgressView::Failed(error),
                Ok(known) => {
                    &&& !read_body ==> wire::with_head(read_body, whole)
                        == (ProgressView::Finished { head: known, body: Seq::empty() })
                    &&& read_body && body.len() >= wire::body_length(known.headers)
                        ==> wire::with_head(read_body, whole) == (ProgressView::Finished {
                        head: known,
                        body,
                    })
                    &&& read_body && body.len() < wire::body_length(known.headers) ==> (
                    wire::with_head(read_body, whole) matches ProgressView::Reading(reader)
                        && reader.received == body && reader.head == Some(known))
                },
            }
        }),
{
    let whole = response_written(head, body);
    let end = head.len() as int;
    assert(whole[end] == 13 && whole[end + 1] == 10 && whole[end + 2] == 13 && whole[end + 3]
        == 10);
    head_ends(whole, 0, end);
    assert(whole.subrange(0, end) =~= head);
    assert(whole.subrange(end + 4, whole.len() as int) =~= body);
}

/// A stream is playable exactly where the host answers with 200 and a description in which a
/// line starts with `m=video`; it is missing exactly where the host answers with 404; every
/// other status is handed on.
pub proof fn descriptions_with_video_are_playable(
    status: u16,
    front: Seq<char>,
    back: Seq<char>,
)
    requires
        front.len() == 0 || front.last() == '\n',
    ensures
        wire::classified(200, front + "m=video"@ + back) == (DescribeView::Playable {
            sdp: front + "m=video"@ + back,
        }),
        wire::classified(404, front) == DescribeView::NotFound,
        status != 200 && status != 404 ==> wire::classified(status, front) == DescribeView::Other(
            status,
        ),
        front.len() < 7 ==> wire::classified(200, front) == DescribeView::Other(200),
{
    reveal_strlit("m=video");
    let sdp = front + "m=video"@ + back;
    assert(sdp.subrange(front.len() as int, front.len() as int + 7) =~= "m=video"@);
    assert(text::stands_at(sdp, "m=video"@, front.len() as int));
}

/// A description without a line that starts with `m=video` is not playable.
pub proof fn playable_descriptions_have_video(status: u16, sdp: Seq<char>)
    ensures
        wire::classified(status, sdp) is Playable ==> status == 200 && exists|at: int|
            {
                &&& 0 <= at <= sdp.len() - 7
                &&& at == 0 || sdp[at - 1] == '\n'
                &&& #[trigger] sdp.subrange(at, at + 7) == "m=video"@
            },
        wire::classified(status, sdp) matches DescribeView::Playable { sdp: kept } ==> kept == sdp,
        wire::classified(status, sdp) is NotFound <==> status == 404,
{
    reveal_strlit("m=video");
    if wire::classified(status, sdp) is Playable {
        let at = choose|at: int|
            (at == 0 || (0 < at <= sdp.len() && sdp[at - 1] == '\n'))
                && #[trigger] text::stands_at(sdp, "m=video"@, at);
        assert(sdp.subrange(at, at + 7) == "m=video"@);
    }
}

/// A number is read where it is no greater than allowed, and not where it is.
pub proof fn numbers_are_read_up_to_the_limit(value: nat, max: nat)
    ensures
        text::number(text::decimal(value), max) == if value <= max {
            Some(value)
        } else {
            None
        },
{
    let digits = text::decimal(value);
    text::decimal_reads_back(value);
    assert(text::is_digit(digits[0]));
    assert(text::unsigned_part(digits) =~= digits);
}

/// A text with anything but digits in it, behind a plus sign it may start with, is no number,
/// and neither is an empty one.
pub proof fn only_digits_are_numbers(text: Seq<char>, max: nat, place: int)
    requires
        0 <= place < text.len(),
        text[place] < '0' || text[place] > '9',
        place == 0 ==> text[0] != '+',
    ensures
        text::number(text, max) is None,
        text::number(Seq::empty(), max) is None,
{
    let digits = text::unsigned_part(text);
    if text[0] == '+' {
        assert(digits[place - 1] == text[place]);
        assert(!text::is_digit(digits[place - 1]));
    } else {
        assert(!text::is_digit(digits[place]));
    }
    assert(text::unsigned_part(Seq::<char>::empty()).len() == 0);
}

/// A host that does not answer in time, fails, or hangs up before its head is complete has
/// given no answer; one that hangs up in the body has given all of it.
pub proof fn answers_need_a_head(reader: ReaderView, event: ReadEvent)
    ensures
        event is TimedOut ==> wire::after(reader, event) == ProgressView::Failed(
            ProbeError::Timeout,
        ),
        event is Failed ==> wire::after(reader, event) == ProgressView::Failed(ProbeError::Io),
        event matches ReadEvent::Data(data) ==> data@.len() == 0 ==> match reader.head {
            None => wire::after(reader, event) == ProgressView::Failed(ProbeError::Eof),
            Some(head) => wire::after(reader, event) == (ProgressView::Finished {
                head,
                body: reader.received,
            }),
        },
{
}

/// A head that is no text, or whose first line has no status code, is malformed.
pub proof fn heads_without_a_status_are_malformed(bytes: Seq<u8>, line: Seq<char>)
    requires
        without(line, ' '),
        without(line, '\n'),
    ensures
        !utf8::valid_utf8(bytes) ==> wire::parsed(bytes) == Err::<HeadView, ProbeError>(
            ProbeError::Malformed,
        ),
        utf8::valid_utf8(bytes) ==> wire::parsed(bytes) == wire::head_of(utf8::decode_utf8(bytes)),
        wire::head_of(line) == Err::<HeadView, ProbeError>(ProbeError::Malformed),
{
    line_ends(line, 0, line.len() as int);
    assert(line.subrange(0, line.len() as int) =~= line);
    none_behind(line, ' ', 0);
}

/// A head that is not complete is waited for, with all that has come of it, until more than
/// 65,536 bytes have come.
pub proof fn incomplete_heads_are_waited_for(received: Seq<u8>, read_body: bool)
    requires
        forall|i: int| !#[trigger] wire::blank_line_at(received, i),
    ensures
        received.len() > 65536 ==> wire::with_head(read_body, received) == ProgressView::Failed(
            ProbeError::Malformed,
        ),
        received.len() <= 65536 ==> (wire::with_head(read_body, received) matches ProgressView::Reading(
            reader,
        ) && reader.received == received && reader.head is None && reader.read_body == read_body),
{
    no_head_end(received, 0);
}

proof fn no_head_end(bytes: Seq<u8>, from: int)
    requires
        0 <= from,
        forall|i: int| !#[trigger] wire::blank_line_at(bytes, i),
    ensures
        wire::head_end(bytes, from) is None,
    decreases bytes.len() - from,
{
    if from + 4 <= bytes.len() {
        assert(!wire::blank_line_at(bytes, from));
        no_head_end(bytes, from + 1);
    }
}

/// As long as something of a response is missing, some of it is asked for, and never more of a
/// body than is missing.
pub proof fn what_is_missing_is_asked_for(reader: ResponseReader, count: usize)
    requires
        call_ensures(wire::bytes_wanted, (&reader,), count),
    ensures
        reader.head is None ==> count > 0,
        reader.head is Some ==> {
            let missing = reader.content_length - reader.received@.len();
            &&& missing > 0 ==> 0 < count <= missing
            &&& missing <= 0 ==> count == 0
        },
{
}

} // verus!

//! The RTSP requests that discovery sends and the responses that it reads.

use crate::net;
use crate::net::{ip_text, IpAddr, SocketAddr};
use crate::text;
use crate::text::{append, append_number, chars_of, from_utf8, from_utf8_lossy};
use crate::text::{eq_ignore_ascii_case, matches_at, parse_number, text_between, trim, trim_between};
use vstd::prelude::*;
use vstd::slice::{slice_subrange, slice_to_vec};
use vstd::utf8;

verus! {

/// Bytes of a response's head beyond which it is given up.
pub const RESPONSE_HEADER_CAP: usize = 65536;

/// Bytes of a response's body beyond which no more is read.
pub const SDP_BODY_CAP: usize = 262144;

/// How this library names itself to the devices it asks.
pub const USER_AGENT: &'static str = "cameras/0.1.0 discover";

/// Why a host's answer could not be had.
#[derive(Clone, Copy, Debug, PartialEq, Eq, Structural)]
pub enum ProbeError {
    /// The host took too long.
    Timeout,
    /// The connection failed.
    Io,
    /// The host closed the connection before its answer was complete.
    Eof,
    /// The answer is not an RTSP response.
    Malformed,
}

/// A header's name and value.
pub type HeaderView = (Seq<char>, Seq<char>);

/// Headers as texts.
pub open spec fn header_views(headers: Seq<(String, String)>) -> Seq<HeaderView> {
    headers.map_values(|header: (String, String)| (header.0@, header.1@))
}

/// A host as it stands in a URL: an IPv6 address is put in square brackets.
pub open spec fn host_written(ip: IpAddr) -> Seq<char> {
    match ip {
        IpAddr::V4(_) => net::ip_written(ip),
        IpAddr::V6(_) => "["@ + net::ip_written(ip) + "]"@,
    }
}

/// The `rtsp://` URL of `path` on a host.
pub open spec fn url_written(addr: SocketAddr, path: Seq<char>) -> Seq<char> {
    "rtsp://"@ + host_written(addr.ip) + ":"@ + text::decimal(addr.port as nat) + "/"@ + path
}

fn host_text(ip: IpAddr) -> (host: String)
    ensures
        host@ == host_written(ip),
{
    match ip {
        IpAddr::V4(_) => ip_text(ip),
        IpAddr::V6(_) => append(append("[".to_owned(), ip_text(ip).as_str()), "]"),
    }
}

/// The `rtsp://` URL of `path` on a host.
pub fn rtsp_url(addr: SocketAddr, path: &str) -> (url: String)
    ensures
        url@ == url_written(addr, path@),
{
    let host = append("rtsp://".to_owned(), host_text(addr.ip).as_str());
    let endpoint = append_number(append(host, ":"), addr.port as u64);
    append(append(endpoint, "/"), path)
}

/// The request that asks a host what it is.
pub fn options_request(addr: SocketAddr) -> (request: String)
    ensures
        request@ == "OPTIONS "@ + url_written(addr, ""@) + " RTSP/1.0\r\nCSeq: 1\r\nUser-Agent: "@
            + USER_AGENT@ + "\r\n\r\n"@,
{
    let line = append("OPTIONS ".to_owned(), rtsp_url(addr, "").as_str());
    let headers = append(line, " RTSP/1.0\r\nCSeq: 1\r\nUser-Agent: ");
    append(append(headers, USER_AGENT), "\r\n\r\n")
}

/// The request that asks a host to describe the stream at `path`.
pub fn describe_request(addr: SocketAddr, path: &str) -> (request: String)
    ensures
        request@ == "DESCRIBE "@ + url_written(addr, path@)
            + " RTSP/1.0\r\nCSeq: 1\r\nAccept: application/sdp\r\nUser-Agent: "@ + USER_AGENT@
            + "\r\n\r\n"@,
{
    let line = append("DESCRIBE ".to_owned(), rtsp_url(addr, path).as_str());
    let headers = append(line, " RTSP/1.0\r\nCSeq: 1\r\nAccept: application/sdp\r\nUser-Agent: ");
    append(append(headers, USER_AGENT), "\r\n\r\n")
}

/// Whether an empty line ends at `at + 4`: the end of one line, then the end of another.
pub open spec fn blank_line_at(bytes: Seq<u8>, at: int) -> bool {
    0 <= at && at + 4 <= bytes.len() && bytes[at] == 13 && bytes[at + 1] == 10 && bytes[at + 2]
        == 13 && bytes[at + 3] == 10
}

/// Where the head of a response ends, searched for from `from` on.
pub open spec fn head_end(bytes: Seq<u8>, from: int) -> Option<int>
    decreases bytes.len() - from,
{
    if from + 4 > bytes.len() {
        None
    } else if blank_line_at(bytes, from) {
        Some(from)
    } else {
        head_end(bytes, from + 1)
    }
}

/// The first place where an empty line follows.
pub fn find_header_terminator(bytes: &[u8]) -> (place: Option<usize>)
    ensures
        match place {
            Some(at) => head_end(bytes@, 0) == Some(at as int) && at + 4 <= bytes.len(),
            None => head_end(bytes@, 0) is None,
        },
{
    let mut at: usize = 0;
    while at < bytes.len() && bytes.len() - at >= 4
        invariant
            at <= bytes.len(),
            head_end(bytes@, 0) == head_end(bytes@, at as int),
        decreases bytes.len() - at,
    {
        if bytes[at] == 13 && bytes[at + 1] == 10 && bytes[at + 2] == 13 && bytes[at + 3] == 10 {
            return Some(at);
        }
        at = at + 1;
    }
    None
}

/// Where the line that starts at `from` ends: at the next `\r\n`, or at the end of the
/// text.
pub open spec fn line_end(text: Seq<char>, from: int) -> int
    decreases text.len() - from,
{
    if from >= text.len() {
        text.len() as int
    } else if from + 1 < text.len() && text[from] == '\r' && text[from + 1] == '\n' {
        from
    } else {
        line_end(text, from + 1)
    }
}

/// A line ends no earlier than it starts, and at a `\r\n` or at the end of the text.
pub proof fn line_end_bounds(text: Seq<char>, from: int)
    requires
        from <= text.len(),
    ensures
        from <= line_end(text, from) <= text.len(),
        line_end(text, from) < text.len() ==> line_end(text, from) + 2 <= text.len(),
    decreases text.len() - from,
{
    if from < text.len() && !(from + 1 < text.len() && text[from] == '\r' && text[from + 1]
        == '\n') {
        line_end_bounds(text, from + 1);
    }
}

fn find_line_end(text: &Vec<char>, from: usize) -> (end: usize)
    requires
        from <= text.len(),
    ensures
        end == line_end(text@, from as int),
{
    let mut at: usize = from;
    while at < text.len()
        invariant
            from <= at <= text.len(),
            line_end(text@, from as int) == line_end(text@, at as int),
        decreases text.len() - at,
    {
        if text[at] == '\r' && at + 1 < text.len() && text[at + 1] == '\n' {
            return at;
        }
        at = at + 1;
    }
    at
}

/// The first place at or after `from` that holds `c`, or the end of the text.
pub open spec fn first_of(text: Seq<char>, c: char, from: int) -> int
    decreases text.len() - from,
{
    if from >= text.len() {
        text.len() as int
    } else if text[from] == c {
        from
    } else {
        first_of(text, c, from + 1)
    }
}

fn find_first(text: &Vec<char>, c: char, from: usize, end: usize) -> (place: usize)
    requires
        from <= end <= text.len(),
    ensures
        from <= place <= end,
        place == first_of(text@.subrange(0, end as int), c, from as int),
{
    let ghost line = text@.subrange(0, end as int);
    let mut at: usize = from;
    while at < end
        invariant
            from <= at <= end <= text.len(),
            line == text@.subrange(0, end as int),
            first_of(line, c, from as int) == first_of(line, c, at as int),
        decreases end - at,
    {
        if text[at] == c {
            return at;
        }
        at = at + 1;
    }
    at
}

/// The status code of a response, which stands between the first two spaces of its first
/// line.
pub open spec fn status_of(line: Seq<char>) -> Option<nat> {
    let space = first_of(line, ' ', 0);
    if space == line.len() {
        None
    } else {
        text::number(
            line.subrange(space + 1, first_of(line, ' ', space + 1)),
            u16::MAX as nat,
        )
    }
}

/// The header on a line: what stands before the first colon and what stands after it, each
/// without the white space around it. A line without a colon holds none.
pub open spec fn header_of(line: Seq<char>) -> Option<HeaderView> {
    let colon = first_of(line, ':', 0);
    if colon == line.len() {
        None
    } else {
        Some(
            (
                text::trimmed(line.subrange(0, colon)),
                text::trimmed(line.subrange(colon + 1, line.len() as int)),
            ),
        )
    }
}

/// The headers among the lines of a text from `from` on.
pub open spec fn headers_from(text: Seq<char>, from: int) -> Seq<HeaderView>
    decreases text.len() - from,
{
    if from > text.len() {
        Seq::empty()
    } else {
        let end = line_end(text, from);
        let header = match header_of(text.subrange(from, end)) {
            Some(header) => seq![header],
            None => Seq::empty(),
        };
        if end >= text.len() {
            header
        } else {
            proof {
                line_end_bounds(text, from);
            }
            header + headers_from(text, end + 2)
        }
    }
}

/// The head of a response.
pub struct HeadView {
    pub status: u16,
    pub headers: Seq<HeaderView>,
}

/// The head of a response as text.
pub open spec fn head_of(text: Seq<char>) -> Result<HeadView, ProbeError> {
    let end = line_end(text, 0);
    match status_of(text.subrange(0, end)) {
        None => Err(ProbeError::Malformed),
        Some(status) => Ok(
            HeadView {
                status: status as u16,
                headers: if end == text.len() {
                    Seq::empty()
                } else {
                    headers_from(text, end + 2)
                },
            },
        ),
    }
}

/// The head of a response as bytes. It has to be UTF-8.
pub open spec fn parsed(bytes: Seq<u8>) -> Result<HeadView, ProbeError> {
    if utf8::valid_utf8(bytes) {
        head_of(utf8::decode_utf8(bytes))
    } else {
        Err(ProbeError::Malformed)
    }
}

fn status_between(text: &Vec<char>, end: usize) -> (status: Option<u64>)
    requires
        end <= text.len(),
    ensures
        match status {
            Some(code) => status_of(text@.subrange(0, end as int)) == Some(code as nat),
            None => status_of(text@.subrange(0, end as int)) is None,
        },
        status matches Some(code) ==> code <= u16::MAX,
{
    let space: usize = find_first(text, ' ', 0, end);
    if space == end {
        return None;
    }
    let second: usize = find_first(text, ' ', space + 1, end);
    let code = text_between(text, space + 1, second);
    assert(code@ =~= text@.subrange(0, end as int).subrange(space + 1, second as int));
    parse_number(code.as_str(), u16::MAX as u64)
}

fn header_between(text: &Vec<char>, from: usize, end: usize) -> (header: Option<(String, String)>)
    requires
        from <= end <= text.len(),
    ensures
        match header {
            Some((key, value)) => header_of(text@.subrange(from as int, end as int)) == Some(
                (key@, value@),
            ),
            None => header_of(text@.subrange(from as int, end as int)) is None,
        },
{
    let ghost line = text@.subrange(from as int, end as int);
    let mut colon: usize = from;
    while colon < end && text[colon] != ':'
        invariant
            from <= colon <= end <= text.len(),
            line == text@.subrange(from as int, end as int),
            first_of(line, ':', 0) == first_of(line, ':', colon - from),
        decreases end - colon,
    {
        colon = colon + 1;
    }
    if colon == end {
        return None;
    }
    assert(first_of(line, ':', 0) == colon - from);
    let key = trim_between(text, from, colon);
    let value = trim_between(text, colon + 1, end);
    assert(text@.subrange(from as int, colon as int) =~= line.subrange(0, colon - from));
    assert(text@.subrange(colon + 1, end as int) =~= line.subrange(
        colon - from + 1,
        line.len() as int,
    ));
    Some((key, value))
}

/// Read the status code and the headers out of a response's head.
pub fn parse_status_and_headers(bytes: &[u8]) -> (head: Result<
    (u16, Vec<(String, String)>),
    ProbeError,
>)
    ensures
        match head {
            Ok((status, headers)) => parsed(bytes@) == Ok::<HeadView, ProbeError>(
                HeadView { status, headers: header_views(headers@) },
            ),
            Err(error) => parsed(bytes@) == Err::<HeadView, ProbeError>(error),
        },
{
    let text = match from_utf8(bytes) {
        Some(text) => chars_of(text.as_str()),
        None => {
            return Err(ProbeError::Malformed);
        },
    };
    let first_end: usize = find_line_end(&text, 0);
    proof {
        line_end_bounds(text@, 0);
    }
    let status: u16 = match status_between(&text, first_end) {
        Some(code) => code as u16,
        None => {
            return Err(ProbeError::Malformed);
        },
    };
    let mut headers: Vec<(String, String)> = Vec::new();
    assert(header_views(headers@) =~= Seq::<HeaderView>::empty());
    if first_end == text.len() {
        return Ok((status, headers));
    }
    let mut from: usize = first_end + 2;
    let ghost all = headers_from(text@, from as int);
    let mut more: bool = true;
    while more
        invariant
            from <= text.len(),
            more ==> all == header_views(headers@) + headers_from(text@, from as int),
            !more ==> all == header_views(headers@),
        decreases
                text.len() - from + if more {
                    1int
                } else {
                    0int
                },
    {
        let end: usize = find_line_end(&text, from);
        proof {
            line_end_bounds(text@, from as int);
        }
        let ghost before = header_views(headers@);
        if let Some(header) = header_between(&text, from, end) {
            headers.push(header);
            assert(header_views(headers@) =~= before.push((header.0@, header.1@)));
        }
        assert(all =~= header_views(headers@) + if end == text.len() {
            Seq::<HeaderView>::empty()
        } else {
            headers_from(text@, end + 2)
        });
        if end == text.len() {
            more = false;
        } else {
            from = end + 2;
        }
    }
    Ok((status, headers))
}

/// Place of the first header of that name, without regard to ASCII case, or the number of
/// headers where there is none.
pub open spec fn header_place(headers: Seq<HeaderView>, name: Seq<char>, from: int) -> int
    decreases headers.len() - from,
{
    if from >= headers.len() {
        headers.len() as int
    } else if text::same_ignoring_case(headers[from].0, name) {
        from
    } else {
        header_place(headers, name, from + 1)
    }
}

/// The value of the first header of that name, without regard to ASCII case.
pub open spec fn header_value(headers: Seq<HeaderView>, name: Seq<char>) -> Option<Seq<char>> {
    let place = header_place(headers, name, 0);
    if place == headers.len() {
        None
    } else {
        Some(headers[place].1)
    }
}

/// The value of the first header of that name, without regard to ASCII case.
pub fn header_get(headers: &[(String, String)], name: &str) -> (value: Option<String>)
    ensures
        match value {
            Some(found) => header_value(header_views(headers@), name@) == Some(found@),
            None => header_value(header_views(headers@), name@) is None,
        },
{
    let ghost views = header_views(headers@);
    let mut i: usize = 0;
    while i < headers.len()
        invariant
            i <= headers.len(),
            views == header_views(headers@),
            header_place(views, name@, 0) == header_place(views, name@, i as int),
        decreases headers.len() - i,
    {
        assert(views[i as int] == (headers@[i as int].0@, headers@[i as int].1@));
        if eq_ignore_ascii_case(headers[i].0.as_str(), name) {
            return Some(headers[i].1.clone());
        }
        i = i + 1;
    }
    None
}

/// Number of body bytes to wait for: what the first `Content-Length` header says, up to the
/// cap, and none where there is no such header or it holds no number.
pub open spec fn body_length(headers: Seq<HeaderView>) -> nat {
    match header_value(headers, "content-length"@) {
        None => 0,
        Some(value) => match text::number(text::trimmed(value), usize::MAX as nat) {
            None => 0,
            Some(length) => if length < SDP_BODY_CAP {
                length
            } else {
                SDP_BODY_CAP as nat
            },
        },
    }
}

fn content_length(headers: &[(String, String)]) -> (length: usize)
    ensures
        length == body_length(header_views(headers@)),
        length <= SDP_BODY_CAP,
{
    match header_get(headers, "content-length") {
        None => 0,
        Some(value) => match parse_number(trim(value.as_str()).as_str(), usize::MAX as u64) {
            None => 0,
            Some(length) => if length < SDP_BODY_CAP as u64 {
                length as usize
            } else {
                SDP_BODY_CAP
            },
        },
    }
}

/// A response as it was read.
#[derive(Debug)]
pub struct RtspResponse {
    /// Status code.
    pub status: u16,
    /// Headers in the order in which they came.
    pub headers: Vec<(String, String)>,
    /// Body, as much of it as was asked for.
    pub body: Vec<u8>,
}

/// A response that is being read.
#[derive(Debug)]
pub struct ResponseReader {
    /// Whether the body is read, too.
    pub read_body: bool,
    /// The head, once it is complete.
    pub head: Option<(u16, Vec<(String, String)>)>,
    /// Number of body bytes to wait for, once the head is complete.
    pub content_length: usize,
    /// Bytes of the head while the head is incomplete, and of the body afterwards.
    pub received: Vec<u8>,
}

/// How far reading a response has come.
#[derive(Debug)]
pub enum Progress {
    /// More bytes are needed.
    Reading(ResponseReader),
    /// The response is complete.
    Finished(RtspResponse),
    /// There will be no response.
    Failed(ProbeError),
}

/// What came of waiting for more bytes.
#[derive(Debug)]
pub enum ReadEvent {
    /// Bytes that arrived. An empty read means that the host closed the connection.
    Data(Vec<u8>),
    /// Nothing arrived in time.
    TimedOut,
    /// The connection failed.
    Failed,
}

/// A reader's state, with sequences in place of vectors.
pub struct ReaderView {
    pub read_body: bool,
    pub head: Option<HeadView>,
    pub content_length: nat,
    pub received: Seq<u8>,
}

/// How far reading has come, with sequences in place of vectors.
pub enum ProgressView {
    Reading(ReaderView),
    Finished { head: HeadView, body: Seq<u8> },
    Failed(ProbeError),
}

impl View for ResponseReader {
    type V = ReaderView;

    open spec fn view(&self) -> ReaderView {
        ReaderView {
            read_body: self.read_body,
            head: match self.head {
                None => None,
                Some((status, headers)) => Some(
                    HeadView { status, headers: header_views(headers@) },
                ),
            },
            content_length: self.content_length as nat,
            received: self.received@,
        }
    }
}

impl View for Progress {
    type V = ProgressView;

    open spec fn view(&self) -> ProgressView {
        match self {
            Progress::Reading(reader) => ProgressView::Reading(reader@),
            Progress::Finished(response) => ProgressView::Finished {
                head: HeadView {
                    status: response.status,
                    headers: header_views(response.headers@),
                },
                body: response.body@,
            },
            Progress::Failed(error) => ProgressView::Failed(*error),
        }
    }
}

/// A reader that has received nothing yet.
pub open spec fn fresh(read_body: bool) -> ReaderView {
    ReaderView { read_body, head: None, content_length: 0, received: Seq::empty() }
}

/// Where reading stands once the head is known and `body` has come in.
pub open spec fn with_body(head: HeadView, wanted: nat, body: Seq<u8>) -> ProgressView {
    if body.len() < wanted {
        ProgressView::Reading(
            ReaderView {
                read_body: true,
                head: Some(head),
                content_length: wanted,
                received: body,
            },
        )
    } else {
        ProgressView::Finished { head, body }
    }
}

/// Where reading stands once `received` has come in and no head was known before.
pub open spec fn with_head(read_body: bool, received: Seq<u8>) -> ProgressView {
    match head_end(received, 0) {
        None => if received.len() > RESPONSE_HEADER_CAP {
            ProgressView::Failed(ProbeError::Malformed)
        } else {
            ProgressView::Reading(
                ReaderView { read_body, head: None, content_length: 0, received },
            )
        },
        Some(end) => match parsed(received.subrange(0, end)) {
            Err(error) => ProgressView::Failed(error),
            Ok(head) => if read_body {
                with_body(
                    head,
                    body_length(head.headers),
                    received.subrange(end + 4, received.len() as int),
                )
            } else {
                ProgressView::Finished { head, body: Seq::empty() }
            },
        },
    }
}

/// Where reading stands after an event. The end of the stream ends the body, but not the
/// head.
pub open spec fn after(reader: ReaderView, event: ReadEvent) -> ProgressView {
    match event {
        ReadEvent::TimedOut => ProgressView::Failed(ProbeError::Timeout),
        ReadEvent::Failed => ProgressView::Failed(ProbeError::Io),
        ReadEvent::Data(data) => match reader.head {
            None => if data@.len() == 0 {
                ProgressView::Failed(ProbeError::Eof)
            } else {
                with_head(reader.read_body, reader.received + data@)
            },
            Some(head) => if data@.len() == 0 {
                ProgressView::Finished { head, body: reader.received }
            } else {
                with_body(head, reader.content_length, reader.received + data@)
            },
        },
    }
}

/// Start reading a response, with its body or without.
pub fn read_rtsp_response(read_body: bool) -> (reader: ResponseReader)
    ensures
        reader@ == fresh(read_body),
{
    let reader = ResponseReader { read_body, head: None, content_length: 0, received: Vec::new() };
    assert(reader@.received =~= Seq::<u8>::empty());
    reader
}

/// Number of bytes to ask for next: a fixed chunk while the head is incomplete, and no more
/// than the body still needs afterwards.
pub fn bytes_wanted(reader: &ResponseReader) -> (count: usize)
    ensures
        count == (match reader.head {
            None => 2048int,
            Some(_) => if reader@.content_length < reader@.received.len() {
                0
            } else if reader@.content_length - reader@.received.len() < 4096 {
                reader@.content_length - reader@.received.len()
            } else {
                4096
            },
        }),
{
    match reader.head {
        None => 2048,
        Some(_) => {
            if reader.content_length < reader.received.len() {
                return 0;
            }
            let needed: usize = reader.content_length - reader.received.len();
            if needed < 4096 {
                needed
            } else {
                4096
            }
        },
    }
}

fn finish_body(
    status: u16,
    headers: Vec<(String, String)>,
    wanted: usize,
    body: Vec<u8>,
) -> (progress: Progress)
    ensures
        progress@ == with_body(
            HeadView { status, headers: header_views(headers@) },
            wanted as nat,
            body@,
        ),
{
    if body.len() < wanted {
        Progress::Reading(
            ResponseReader {
                read_body: true,
                head: Some((status, headers)),
                content_length: wanted,
                received: body,
            },
        )
    } else {
        Progress::Finished(RtspResponse { status, headers, body })
    }
}

fn finish_head(read_body: bool, received: Vec<u8>) -> (progress: Progress)
    ensures
        progress@ == with_head(read_body, received@),
{
    let end: usize = match find_header_terminator(received.as_slice()) {
        None => {
            return if received.len() > RESPONSE_HEADER_CAP {
                Progress::Failed(ProbeError::Malformed)
            } else {
                Progress::Reading(
                    ResponseReader { read_body, head: None, content_length: 0, received },
                )
            };
        },
        Some(end) => end,
    };
    match parse_status_and_headers(slice_subrange(received.as_slice(), 0, end)) {
        Err(error) => Progress::Failed(error),
        Ok((status, headers)) => {
            if !read_body {
                let body: Vec<u8> = Vec::new();
                assert(body@ =~= Seq::<u8>::empty());
                return Progress::Finished(RtspResponse { status, headers, body });
            }
            let wanted: usize = content_length(headers.as_slice());
            let body = slice_to_vec(
                slice_subrange(received.as_slice(), end + 4, received.len()),
            );
            assert(body@ =~= received@.subrange(end + 4, received@.len() as int));
            finish_body(status, headers, wanted, body)
        },
    }
}

/// Take in what came of waiting for more bytes.
pub fn response_step(reader: ResponseReader, event: ReadEvent) -> (progress: Progress)
    ensures
        progress@ == after(reader@, event),
{
    match event {
        ReadEvent::TimedOut => Progress::Failed(ProbeError::Timeout),
        ReadEvent::Failed => Progress::Failed(ProbeError::Io),
        ReadEvent::Data(data) => {
            let mut received = reader.received;
            match reader.head {
                None => {
                    if data.len() == 0 {
                        return Progress::Failed(ProbeError::Eof);
                    }
                    received.extend_from_slice(data.as_slice());
                    assert(received@ =~= reader.received@ + data@);
                    finish_head(reader.read_body, received)
                },
                Some((status, headers)) => {
                    if data.len() == 0 {
                        return Progress::Finished(
                            RtspResponse { status, headers, body: received },
                        );
                    }
                    received.extend_from_slice(data.as_slice());
                    assert(received@ =~= reader.received@ + data@);
                    finish_body(status, headers, reader.content_length, received)
                },
            }
        },
    }
}

/// Result of a single `DESCRIBE` probe.
#[derive(Clone, Debug, PartialEq, Eq)]
pub enum DescribeResult {
    /// The stream exists and carries video.
    Playable {
        /// Its description.
        sdp: String,
    },
    /// There is no such stream.
    NotFound,
    /// The host answered otherwise, with this status.
    Other(u16),
}

/// A [`DescribeResult`] with its text as characters.
pub enum DescribeView {
    Playable { sdp: Seq<char> },
    NotFound,
    Other(u16),
}

impl View for DescribeResult {
    type V = DescribeView;

    open spec fn view(&self) -> DescribeView {
        match self {
            DescribeResult::Playable { sdp } => DescribeView::Playable { sdp: sdp@ },
            DescribeResult::NotFound => DescribeView::NotFound,
            DescribeResult::Other(status) => DescribeView::Other(*status),
        }
    }
}

/// Whether a line of the description starts with `m=video`.
pub open spec fn has_video(sdp: Seq<char>) -> bool {
    exists|at: int|
        (at == 0 || (0 < at <= sdp.len() && sdp[at - 1] == '\n')) && #[trigger] text::stands_at(
            sdp,
            "m=video"@,
            at,
        )
}

/// Whether a session description announces video.
pub fn sdp_has_video(sdp: &str) -> (video: bool)
    ensures
        video == has_video(sdp@),
{
    let chars = chars_of(sdp);
    let marker = chars_of("m=video");
    let mut from: usize = 0;
    while from < chars.len()
        invariant
            from <= chars.len(),
            chars@ == sdp@,
            marker@ == "m=video"@,
            forall|at: int|
                0 <= at < from && (at == 0 || sdp@[at - 1] == '\n') ==> !#[trigger] text::stands_at(
                    sdp@,
                    "m=video"@,
                    at,
                ),
        decreases chars.len() - from,
    {
        if (from == 0 || chars[from - 1] == '\n') && matches_at(&chars, &marker, from) {
            return true;
        }
        from = from + 1;
    }
    proof {
        reveal_strlit("m=video");
        if has_video(sdp@) {
            let at = choose|at: int|
                (at == 0 || (0 < at <= sdp@.len() && sdp@[at - 1] == '\n')) && #[trigger] text::stands_at(
                    sdp@,
                    "m=video"@,
                    at,
                );
            assert(at < from);
            assert(false);
        }
    }
    false
}

/// What a response to `DESCRIBE` means, given its body as text.
pub open spec fn classified(status: u16, sdp: Seq<char>) -> DescribeView {
    if status == 200 {
        if has_video(sdp) {
            DescribeView::Playable { sdp }
        } else {
            DescribeView::Other(200)
        }
    } else if status == 404 {
        DescribeView::NotFound
    } else {
        DescribeView::Other(status)
    }
}

/// Decide what a response to `DESCRIBE` means, given its body as text.
pub fn classify_sdp(status: u16, sdp: String) -> (result: DescribeResult)
    ensures
        result@ == classified(status, sdp@),
{
    match status {
        200 => {
            if sdp_has_video(sdp.as_str()) {
                DescribeResult::Playable { sdp }
            } else {
                DescribeResult::Other(200)
            }
        },
        404 => DescribeResult::NotFound,
        other => DescribeResult::Other(other),
    }
}

/// Decide what a response to `DESCRIBE` means.
pub fn classify_describe(status: u16, body: &[u8]) -> (result: Result<DescribeResult, ProbeError>)
    ensures
        result matches Ok(found) && found@ == classified(status, text::utf8_lossy(body@)),
{
    Ok(classify_sdp(status, from_utf8_lossy(body)))
}

} // verus!

//! What a viewer decides: which source to open, what to tell the user, and which targets a
//! line of text stands for.

use crate::error::Error;
use crate::net;
use crate::net::{parse_subnet, SocketAddr, Subnet};
use crate::source::{source_label, CameraSource};
use crate::text;
use crate::text::{append, append_number, chars_of, trim, trim_between};
use crate::types::{Credentials, Device, PixelFormat, Rect, Resolution, StreamConfig};
use vstd::prelude::*;

verus! {

/// Which kind of source the user has picked.
#[derive(Clone, Copy, Debug, PartialEq, Eq, Structural)]
pub enum SourceMode {
    /// A USB camera.
    Usb,
    /// A network stream.
    Rtsp,
}

/// The configuration that a viewer asks for: 1280 by 720 pixels, 30 frames per second, BGRA.
pub fn stream_config() -> (config: StreamConfig)
    ensures
        config == (StreamConfig {
            resolution: Resolution { width: 1280, height: 720 },
            framerate: 30,
            pixel_format: PixelFormat::Bgra8,
        }),
{
    StreamConfig {
        resolution: Resolution { width: 1280, height: 720 },
        framerate: 30,
        pixel_format: PixelFormat::Bgra8,
    }
}

/// Whether a source is the network stream that a user's entries stand for: the URL and the
/// username without the white space around them, and credentials unless both username and
/// password are empty. There is none where the platform does not play network streams.
pub open spec fn is_rtsp_source(
    source: Option<CameraSource>,
    supported: bool,
    url: Seq<char>,
    username: Seq<char>,
    password: Seq<char>,
) -> bool {
    if !supported || text::trimmed(url).len() == 0 {
        source is None
    } else {
        source matches Some(CameraSource::Rtsp { url: entered, credentials }) && {
            &&& entered@ == text::trimmed(url)
            &&& match credentials {
                None => text::trimmed(username).len() == 0 && password.len() == 0,
                Some(login) => {
                    &&& text::trimmed(username).len() > 0 || password.len() > 0
                    &&& login.username@ == text::trimmed(username)
                    &&& login.password@ == password
                },
            }
        }
    }
}

/// The network stream that a user's entries stand for, or `None` where the URL is empty.
/// `supported` says whether the platform plays network streams; where it does not, there is
/// none either.
pub fn build_rtsp_source(supported: bool, url: &str, username: &str, password: &str) -> (source:
    Option<CameraSource>)
    ensures
        is_rtsp_source(source, supported, url@, username@, password@),
{
    if !supported {
        return None;
    }
    let url = trim(url);
    if url.as_str().unicode_len() == 0 {
        return None;
    }
    let username = trim(username);
    let credentials = if username.as_str().unicode_len() == 0 && password.unicode_len() == 0 {
        None
    } else {
        Some(Credentials { username, password: password.to_owned() })
    };
    Some(CameraSource::Rtsp { url, credentials })
}

/// The source that a user has picked, or `None` where there is none: no device at the
/// selected place, an empty URL, or a platform that does not play network streams.
pub fn build_source(
    mode: SourceMode,
    rtsp_supported: bool,
    devices: &Vec<Device>,
    selected: usize,
    url: &str,
    username: &str,
    password: &str,
) -> (source: Option<CameraSource>)
    ensures
        match mode {
            SourceMode::Usb => source == (if selected < devices@.len() {
                Some(CameraSource::Usb(devices@[selected as int]))
            } else {
                None
            }),
            SourceMode::Rtsp => is_rtsp_source(source, rtsp_supported, url@, username@, password@),
        },
{
    match mode {
        SourceMode::Usb => if selected < devices.len() {
            Some(CameraSource::Usb(devices[selected].clone()))
        } else {
            None
        },
        SourceMode::Rtsp => build_rtsp_source(rtsp_supported, url, username, password),
    }
}

/// Whether connecting is offered: there is a device, or a URL has been entered.
pub fn connect_enabled(mode: SourceMode, device_count: usize, url: &str) -> (enabled: bool)
    ensures
        enabled == (match mode {
            SourceMode::Usb => device_count > 0,
            SourceMode::Rtsp => text::trimmed(url@).len() > 0,
        }),
{
    match mode {
        SourceMode::Usb => device_count > 0,
        SourceMode::Rtsp => trim(url).as_str().unicode_len() > 0,
    }
}

/// How far connecting to a source has come.
#[derive(Debug)]
pub enum ConnectStage {
    /// There is nothing to connect to.
    NoSource(SourceMode),
    /// The source is being opened.
    Connecting(CameraSource),
    /// The source is open.
    Streaming(CameraSource),
    /// The source could not be opened.
    Failed(Error),
    /// The user has closed the source.
    Disconnected,
}

/// The name of a source.
pub open spec fn label_of(source: CameraSource) -> Seq<char> {
    match source {
        CameraSource::Usb(device) => device.name@,
        CameraSource::Rtsp { url, .. } => url@,
    }
}

/// What to tell the user about connecting.
pub fn connect_status(stage: &ConnectStage) -> (status: String)
    ensures
        status@ == (match *stage {
            ConnectStage::NoSource(SourceMode::Usb) => "No camera selected"@,
            ConnectStage::NoSource(SourceMode::Rtsp) => "RTSP URL is empty"@,
            ConnectStage::Connecting(source) => "Connecting to "@ + label_of(source) + "..."@,
            ConnectStage::Streaming(source) => "Streaming: "@ + label_of(source),
            ConnectStage::Failed(error) => "Open failed: "@ + error@.text(),
            ConnectStage::Disconnected => "Disconnected"@,
        }),
{
    match stage {
        ConnectStage::NoSource(SourceMode::Usb) => "No camera selected".to_owned(),
        ConnectStage::NoSource(SourceMode::Rtsp) => "RTSP URL is empty".to_owned(),
        ConnectStage::Connecting(source) => {
            let label = source_label(source);
            append(append("Connecting to ".to_owned(), label.as_str()), "...")
        },
        ConnectStage::Streaming(source) => append(
            "Streaming: ".to_owned(),
            source_label(source).as_str(),
        ),
        ConnectStage::Failed(error) => append("Open failed: ".to_owned(), error.message().as_str()),
        ConnectStage::Disconnected => "Disconnected".to_owned(),
    }
}

/// The selected place after the list of devices has changed: the same one, or the first
/// where there are not that many devices any more.
pub fn refreshed_selection(selected: usize, device_count: usize) -> (place: usize)
    ensures
        place == (if selected >= device_count {
            0
        } else {
            selected
        }),
{
    if selected >= device_count {
        0
    } else {
        selected
    }
}

/// What to tell the user about the number of devices.
pub fn devices_status(count: usize) -> (status: String)
    ensures
        status@ == (if count == 0 {
            "No cameras detected"@
        } else if count == 1 {
            "1 camera available"@
        } else {
            text::decimal(count as nat) + " cameras available"@
        }),
{
    if count == 0 {
        "No cameras detected".to_owned()
    } else if count == 1 {
        "1 camera available".to_owned()
    } else {
        let number = append_number(String::new(), count as u64);
        assert(number@ =~= text::decimal(count as nat));
        append(number, " cameras available")
    }
}

/// What the button that connects says.
pub fn connect_label(connected: bool) -> (label: &'static str)
    ensures
        label@ == (if connected {
            "Reconnect"@
        } else {
            "Connect"@
        }),
{
    if connected {
        "Reconnect"
    } else {
        "Connect"
    }
}

/// What stands in place of the picture while nothing is connected.
pub fn placeholder_text(mode: SourceMode, device_count: usize) -> (hint: &'static str)
    ensures
        hint@ == (match mode {
            SourceMode::Rtsp => "Enter an RTSP URL and press Connect"@,
            SourceMode::Usb => if device_count == 0 {
                "Plug in a camera, grant permission, and press Refresh"@
            } else {
                "Press Connect to start streaming"@
            },
        }),
{
    match mode {
        SourceMode::Rtsp => "Enter an RTSP URL and press Connect",
        SourceMode::Usb => if device_count == 0 {
            "Plug in a camera, grant permission, and press Refresh"
        } else {
            "Press Connect to start streaming"
        },
    }
}

/// How far keeping a frame as a file has come.
#[derive(Debug)]
pub enum CaptureStage {
    /// No frame has arrived yet.
    NoFrame,
    /// The frame could not be converted.
    Undecodable(Error),
    /// The file could not be written, for the reason given.
    Unsaved(String),
    /// The frame stands in the file given.
    Saved(String),
}

/// What to tell the user about keeping a frame.
pub fn capture_status(stage: &CaptureStage) -> (status: String)
    ensures
        status@ == (match *stage {
            CaptureStage::NoFrame => "No frame to capture"@,
            CaptureStage::Undecodable(error) => "Decode failed: "@ + error@.text(),
            CaptureStage::Unsaved(reason) => "Save failed: "@ + reason@,
            CaptureStage::Saved(path) => "Saved to "@ + path@,
        }),
{
    match stage {
        CaptureStage::NoFrame => "No frame to capture".to_owned(),
        CaptureStage::Undecodable(error) => append(
            "Decode failed: ".to_owned(),
            error.message().as_str(),
        ),
        CaptureStage::Unsaved(reason) => append("Save failed: ".to_owned(), reason.as_str()),
        CaptureStage::Saved(path) => append("Saved to ".to_owned(), path.as_str()),
    }
}

/// The middle of a frame: half its width and half its height, a quarter in from the left and
/// from the top.
pub fn center_region(width: u32, height: u32) -> (region: Rect)
    ensures
        region == (Rect { x: width / 4, y: height / 4, width: width / 2, height: height / 2 }),
        region.x + region.width <= width,
        region.y + region.height <= height,
{
    Rect { x: width / 4, y: height / 4, width: width / 2, height: height / 2 }
}

/// Where the piece that starts at `from` ends: at the next comma, or at the end.
pub open spec fn comma(line: Seq<char>, from: int) -> int
    decreases line.len() - from,
{
    if from >= line.len() {
        line.len() as int
    } else if line[from] == ',' {
        from
    } else {
        comma(line, from + 1)
    }
}

/// A piece ends no earlier than it starts.
pub proof fn comma_bounds(line: Seq<char>, from: int)
    requires
        from <= line.len(),
    ensures
        from <= comma(line, from) <= line.len(),
    decreases line.len() - from,
{
    if from < line.len() && line[from] != ',' {
        comma_bounds(line, from + 1);
    }
}

/// The pieces of a line from `from` on, between commas, without the white space around them
/// and without the empty ones.
pub open spec fn tokens(line: Seq<char>, from: int) -> Seq<Seq<char>>
    decreases line.len() - from,
{
    if from > line.len() {
        Seq::empty()
    } else {
        let end = comma(line, from);
        let token = text::trimmed(line.subrange(from, end));
        let first = if token.len() == 0 {
            Seq::empty()
        } else {
            seq![token]
        };
        if end >= line.len() {
            first
        } else {
            proof {
                comma_bounds(line, from);
            }
            first + tokens(line, end + 1)
        }
    }
}

/// The texts of a list of strings.
pub open spec fn texts(strings: Seq<String>) -> Seq<Seq<char>> {
    strings.map_values(|string: String| string@)
}

/// Cut a line at its commas.
pub fn split_targets(line: &str) -> (pieces: Vec<String>)
    ensures
        texts(pieces@) == tokens(line@, 0),
{
    let chars = chars_of(line);
    let mut pieces: Vec<String> = Vec::new();
    let mut from: usize = 0;
    let mut more = true;
    let ghost all = tokens(line@, 0);
    assert(texts(pieces@) =~= Seq::<Seq<char>>::empty());
    assert(texts(pieces@) + tokens(line@, 0) =~= all);
    while more
        invariant
            chars@ == line@,
            from <= chars.len(),
            more ==> all == texts(pieces@) + tokens(line@, from as int),
            !more ==> all == texts(pieces@),
        decreases
                chars.len() - from + if more {
                    1int
                } else {
                    0int
                },
    {
        let mut end: usize = from;
        while end < chars.len() && chars[end] != ','
            invariant
                from <= end <= chars.len(),
                chars@ == line@,
                comma(line@, from as int) == comma(line@, end as int),
            decreases chars.len() - end,
        {
            end = end + 1;
        }
        let ghost before = texts(pieces@);
        let token = trim_between(&chars, from, end);
        if token.as_str().unicode_len() > 0 {
            pieces.push(token);
            assert(texts(pieces@) =~= before.push(token@));
        }
        assert(all =~= texts(pieces@) + if end == chars.len() {
            Seq::<Seq<char>>::empty()
        } else {
            tokens(line@, end + 1)
        });
        if end == chars.len() {
            more = false;
        } else {
            from = end + 1;
        }
    }
    pieces
}

/// Something to scan.
pub enum Target {
    /// One endpoint.
    Endpoint(SocketAddr),
    /// A block of addresses.
    Block(Subnet),
}

/// What a piece stands for: the endpoint that it was read as, if it was, or else the block
/// that it was read as.
pub open spec fn target(
    endpoint: Option<SocketAddr>,
    block: Option<(bool, u128, u8)>,
) -> Option<Target> {
    match endpoint {
        Some(addr) => Some(Target::Endpoint(addr)),
        None => match net::subnet_of(block) {
            Some(subnet) => Some(Target::Block(subnet)),
            None => None,
        },
    }
}

/// The place of the first of the pieces from `from` on that stands for nothing, or their
/// number.
pub open spec fn first_unread(pieces: Seq<(String, Option<SocketAddr>)>, from: int) -> int
    decreases pieces.len() - from,
{
    if from >= pieces.len() {
        pieces.len() as int
    } else if target(pieces[from].1, net::block_read(pieces[from].0@)) is None {
        from
    } else {
        first_unread(pieces, from + 1)
    }
}

/// The blocks among the first `count` pieces.
pub open spec fn blocks(pieces: Seq<(String, Option<SocketAddr>)>, count: nat) -> Seq<Subnet>
    decreases count,
{
    if count == 0 {
        Seq::empty()
    } else {
        let before = blocks(pieces, (count - 1) as nat);
        match target(pieces[count - 1].1, net::block_read(pieces[count - 1].0@)) {
            Some(Target::Block(subnet)) => before.push(subnet),
            _ => before,
        }
    }
}

/// The endpoints among the first `count` pieces.
pub open spec fn endpoints(pieces: Seq<(String, Option<SocketAddr>)>, count: nat) -> Seq<SocketAddr>
    decreases count,
{
    if count == 0 {
        Seq::empty()
    } else {
        let before = endpoints(pieces, (count - 1) as nat);
        match target(pieces[count - 1].1, net::block_read(pieces[count - 1].0@)) {
            Some(Target::Endpoint(addr)) => before.push(addr),
            _ => before,
        }
    }
}

/// Sort what a user wants scanned into blocks and endpoints.
///
/// Each piece comes with the endpoint that it was read as, if it was. A piece that is no
/// endpoint is read as a block. A piece that is neither is refused, and so is a list of
/// nothing.
pub fn parse_targets(pieces: &Vec<(String, Option<SocketAddr>)>) -> (sorted: Result<
    (Vec<Subnet>, Vec<SocketAddr>),
    String,
>)
    ensures
        ({
            let unread = first_unread(pieces@, 0);
            match sorted {
                Ok((subnets, addrs)) => {
                    &&& unread == pieces@.len() > 0
                    &&& subnets@ == blocks(pieces@, pieces@.len())
                    &&& addrs@ == endpoints(pieces@, pieces@.len())
                    &&& net::all_valid(subnets@)
                },
                Err(message) => if unread < pieces@.len() {
                    message@ == "could not parse `"@ + pieces@[unread].0@
                        + "` as CIDR or host:port"@
                } else {
                    pieces@.len() == 0 && message@ == "enter at least one CIDR or host:port"@
                },
            }
        }),
{
    let mut subnets: Vec<Subnet> = Vec::new();
    let mut addrs: Vec<SocketAddr> = Vec::new();
    let mut i: usize = 0;
    while i < pieces.len()
        invariant
            i <= pieces.len(),
            first_unread(pieces@, 0) == first_unread(pieces@, i as int),
            subnets@ == blocks(pieces@, i as nat),
            addrs@ == endpoints(pieces@, i as nat),
            net::all_valid(subnets@),
            subnets@.len() + addrs@.len() == i,
        decreases pieces.len() - i,
    {
        let piece = &pieces[i];
        match piece.1 {
            Some(addr) => {
                addrs.push(addr);
            },
            None => match parse_subnet(piece.0.as_str()) {
                Some(subnet) => {
                    subnets.push(subnet);
                },
                None => {
                    let message = append("could not parse `".to_owned(), piece.0.as_str());
                    return Err(append(message, "` as CIDR or host:port"));
                },
            },
        }
        i = i + 1;
    }
    if subnets.len() == 0 && addrs.len() == 0 {
        return Err("enter at least one CIDR or host:port".to_owned());
    }
    Ok((subnets, addrs))
}

} // verus!

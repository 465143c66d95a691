//! Contract every platform backend must implement.
//!
//! The library never holds a `Box<dyn Backend>`; a backend is a type, chosen at compile time.
//! The trait exists so the compiler can
//! verify that every platform implements the same surface: adding a method here
//! forces every backend to provide it.

use crate::camera::Camera;
use crate::controls::{ControlCapabilities, Controls};
use crate::error::{Error, ErrorView};
use crate::monitor::DeviceMonitor;
use crate::source::CameraSource;
use crate::types::{Capabilities, Credentials, Device, DeviceId, StreamConfig};
use vstd::prelude::*;

verus! {

/// The contract every platform backend implements.
///
/// Users should not consume this trait directly; call the free functions
/// ([`devices`], [`probe`], [`open`], [`monitor`])
/// which dispatch through the chosen backend.
pub trait Backend: Sized {
    /// Opaque platform-specific handle stored inside [`Camera`] to keep the OS session
    /// alive while the camera is open. Its `Drop` impl shuts the session down.
    type SessionHandle;

    /// What keeps a hotplug monitor going. Its `Drop` impl stops it.
    type MonitorHandle;

    /// List every video capture device currently visible to the platform.
    fn devices() -> Result<Vec<Device>, Error>;

    /// Return every format the given device supports.
    fn probe(id: &DeviceId) -> Result<Capabilities, Error>;

    /// Open a streaming session on the given device with the given configuration.
    fn open(id: &DeviceId, config: StreamConfig) -> Result<Camera<Self::SessionHandle>, Error>;

    /// Open a streaming session against an RTSP URL.
    fn open_rtsp(url: &str, credentials: Option<Credentials>, config: StreamConfig) -> Result<
        Camera<Self::SessionHandle>,
        Error,
    >;

    /// Start a hotplug monitor.
    fn monitor() -> Result<DeviceMonitor<Self::MonitorHandle>, Error>;
}

/// Extension of [`Backend`] exposing camera runtime controls.
///
/// Implemented separately so adding controls cannot grow the core [`Backend`]
/// contract.
pub trait BackendControls: Backend {
    /// The type of a control's value.
    type Value;

    /// Report which controls this device supports and their native ranges.
    fn control_capabilities(id: &DeviceId) -> Result<ControlCapabilities<Self::Value>, Error>;

    /// Read the current value of every exposed control.
    fn read_controls(id: &DeviceId) -> Result<Controls<Self::Value>, Error>;

    /// Apply every [`Some`]-valued field in `controls` to the device.
    fn apply_controls(id: &DeviceId, controls: &Controls<Self::Value>) -> Result<(), Error>;
}

/// Enumerate every video capture device the platform currently sees.
///
/// On macOS this triggers the system camera permission prompt on first call
/// if it hasn't been granted. On Linux this reads `/dev/video*`. On Windows
/// this queries Media Foundation via `MFEnumDeviceSources`.
pub fn devices<B: Backend>() -> (result: Result<Vec<Device>, Error>)
    ensures
        call_ensures(B::devices, (), result),
{
    B::devices()
}

/// Inspect a device's full set of supported formats without opening a stream.
///
/// Returns every native `(resolution, framerate_range, pixel_format)` tuple the
/// device reports. On macOS and Linux this is cheap metadata; on Windows it
/// instantiates a source reader briefly.
pub fn probe<B: Backend>(device: &Device) -> (result: Result<Capabilities, Error>)
    ensures
        call_ensures(B::probe, (&device.id,), result),
{
    B::probe(&device.id)
}

/// Open a camera with the given configuration and start streaming.
///
/// The returned [`Camera`] is fed by a worker that pushes frames into a
/// bounded channel. Read them with [`crate::camera::next_frame`] or
/// [`crate::camera::try_next_frame`].
/// Dropping the [`Camera`] stops the stream.
pub fn open<B: Backend>(device: &Device, config: StreamConfig) -> (result: Result<
    Camera<B::SessionHandle>,
    Error,
>)
    ensures
        call_ensures(B::open, (&device.id, config), result),
{
    B::open(&device.id, config)
}

/// Open a camera described by `source`, dispatching to [`open`] or
/// `open_rtsp` as appropriate.
pub fn open_source<B: Backend>(source: CameraSource, config: StreamConfig) -> (result: Result<
    Camera<B::SessionHandle>,
    Error,
>)
    ensures
        match source {
            CameraSource::Usb(device) => call_ensures(B::open, (&device.id, config), result),
            CameraSource::Rtsp { url, credentials } => exists|text: &str| #[trigger]
                call_ensures(B::open_rtsp, (text, credentials, config), result) && text@ == url@,
        },
{
    match source {
        CameraSource::Usb(device) => open::<B>(&device, config),
        CameraSource::Rtsp { url, credentials } => B::open_rtsp(
            url.as_str(),
            credentials,
            config,
        ),
    }
}

/// Start a hotplug monitor.
///
/// Returns a [`DeviceMonitor`] that emits [`crate::types::DeviceEvent::Added`] /
/// [`crate::types::DeviceEvent::Removed`]
/// as cameras appear and disappear. Initial events are emitted for every device already
/// present when the monitor starts. Dropping the monitor stops its polling.
pub fn monitor<B: Backend>() -> (result: Result<DeviceMonitor<B::MonitorHandle>, Error>)
    ensures
        call_ensures(B::monitor, (), result),
{
    B::monitor()
}

/// Report which runtime controls the given device exposes and their native ranges.
///
/// Fields on the returned [`ControlCapabilities`] are `None` for controls the
/// platform / device does not expose. Ranges are in each platform's native
/// unit; do not assume a normalized scale.
pub fn control_capabilities<B: BackendControls>(device: &Device) -> (result: Result<
    ControlCapabilities<B::Value>,
    Error,
>)
    ensures
        call_ensures(<B as BackendControls>::control_capabilities, (&device.id,), result),
{
    B::control_capabilities(&device.id)
}

/// Read the current value of every exposed control on `device`.
///
/// Fields are `None` for controls the device does not expose. Read-back of
/// `auto_exposure` collapses V4L2 priority modes into `Some(true)`.
pub fn read_controls<B: BackendControls>(device: &Device) -> (result: Result<
    Controls<B::Value>,
    Error,
>)
    ensures
        call_ensures(<B as BackendControls>::read_controls, (&device.id,), result),
{
    B::read_controls(&device.id)
}

/// Apply every [`Some`]-valued field in `controls` to `device`.
///
/// `None` fields are left at their current value. Returns the first platform
/// failure encountered; does not preflight against [`control_capabilities`].
pub fn apply_controls<B: BackendControls>(device: &Device, controls: &Controls<B::Value>) -> (result:
    Result<(), Error>)
    ensures
        call_ensures(
            <B as BackendControls>::apply_controls,
            (&device.id, controls),
            result,
        ),
{
    B::apply_controls(&device.id, controls)
}

/// What keeps a session alive where there are no sessions.
#[derive(Debug)]
pub struct SessionHandle;

/// The backend of a platform that has none.
#[derive(Debug)]
pub struct Driver;

/// The failure that a missing backend answers everything with.
pub open spec fn not_implemented() -> ErrorView {
    ErrorView::BackendNotImplemented { platform: "unknown"@ }
}

/// The failure that missing controls are answered with.
pub open spec fn no_controls() -> ErrorView {
    ErrorView::Unsupported {
        platform: "unknown"@,
        reason: "controls unavailable on this target"@,
    }
}

impl Backend for Driver {
    type SessionHandle = SessionHandle;

    type MonitorHandle = SessionHandle;

    fn devices() -> (result: Result<Vec<Device>, Error>)
        ensures
            result matches Err(error) && error@ == not_implemented(),
    {
        Err(Error::BackendNotImplemented { platform: "unknown" })
    }

    fn probe(_id: &DeviceId) -> (result: Result<Capabilities, Error>)
        ensures
            result matches Err(error) && error@ == not_implemented(),
    {
        Err(Error::BackendNotImplemented { platform: "unknown" })
    }

    fn open(_id: &DeviceId, _config: StreamConfig) -> (result: Result<Camera<SessionHandle>, Error>)
        ensures
            result matches Err(error) && error@ == not_implemented(),
    {
        Err(Error::BackendNotImplemented { platform: "unknown" })
    }

    fn open_rtsp(
        _url: &str,
        _credentials: Option<Credentials>,
        _config: StreamConfig,
    ) -> (result: Result<Camera<SessionHandle>, Error>)
        ensures
            result matches Err(error) && error@ == not_implemented(),
    {
        Err(Error::BackendNotImplemented { platform: "unknown" })
    }

    fn monitor() -> (result: Result<DeviceMonitor<SessionHandle>, Error>)
        ensures
            result matches Err(error) && error@ == not_implemented(),
    {
        Err(Error::BackendNotImplemented { platform: "unknown" })
    }
}

impl BackendControls for Driver {
    type Value = i64;

    fn control_capabilities(_id: &DeviceId) -> (result: Result<ControlCapabilities<i64>, Error>)
        ensures
            result matches Err(error) && error@ == no_controls(),
    {
        Err(
            Error::Unsupported {
                platform: "unknown",
                reason: "controls unavailable on this target",
            },
        )
    }

    fn read_controls(_id: &DeviceId) -> (result: Result<Controls<i64>, Error>)
        ensures
            result matches Err(error) && error@ == no_controls(),
    {
        Err(
            Error::Unsupported {
                platform: "unknown",
                reason: "controls unavailable on this target",
            },
        )
    }

    fn apply_controls(_id: &DeviceId, _controls: &Controls<i64>) -> (result: Result<(), Error>)
        ensures
            result matches Err(error) && error@ == no_controls(),
    {
        Err(
            Error::Unsupported {
                platform: "unknown",
                reason: "controls unavailable on this target",
            },
        )
    }
}

} // verus!

//! Typed error enum for every failure path in the library.

use crate::text::append;
use vstd::prelude::*;

verus! {

/// Every error returned by the library.
///
/// Matches on shape, not string text. Each variant carries the context needed to
/// diagnose the failure without having to parse a message.
#[derive(Clone, Debug)]
#[non_exhaustive]
pub enum Error {
    /// The user or OS denied access to camera hardware.
    PermissionDenied,
    /// The supplied [`crate::types::DeviceId`] did not match any currently-connected device.
    DeviceNotFound(String),
    /// Another application holds exclusive access to the camera.
    DeviceInUse,
    /// The requested [`crate::types::StreamConfig`] is not supported by the device.
    FormatNotSupported,
    /// No frame arrived before the timeout expired.
    Timeout,
    /// The camera stream ended (for example, the device was unplugged).
    StreamEnded,
    /// MJPEG decoding failed.
    MjpegDecode(String),
    /// A discovery target list that cannot be scanned.
    InvalidSubnet(String),
    /// The current platform does not yet have a backend implementation.
    BackendNotImplemented {
        /// Name of the platform that is missing a backend.
        platform: &'static str,
    },
    /// Catch-all for platform-specific failures (ObjC exceptions, HRESULTs, ioctl errors).
    Backend {
        /// Name of the platform that raised the error.
        platform: &'static str,
        /// Human-readable message from the underlying platform API.
        message: String,
    },
    /// The requested control or capability is not supported on this platform/device.
    Unsupported {
        /// Name of the platform reporting the unsupported operation.
        platform: &'static str,
        /// Short identifier for what is unsupported (control field name, missing interface, or scope phrase).
        reason: &'static str,
    },
}

/// An [`Error`] with its texts as sequences of characters.
pub enum ErrorView {
    PermissionDenied,
    DeviceNotFound(Seq<char>),
    DeviceInUse,
    FormatNotSupported,
    Timeout,
    StreamEnded,
    MjpegDecode(Seq<char>),
    InvalidSubnet(Seq<char>),
    BackendNotImplemented { platform: Seq<char> },
    Backend { platform: Seq<char>, message: Seq<char> },
    Unsupported { platform: Seq<char>, reason: Seq<char> },
}

impl View for Error {
    type V = ErrorView;

    open spec fn view(&self) -> ErrorView {
        match self {
            Error::PermissionDenied => ErrorView::PermissionDenied,
            Error::DeviceNotFound(id) => ErrorView::DeviceNotFound(id@),
            Error::DeviceInUse => ErrorView::DeviceInUse,
            Error::FormatNotSupported => ErrorView::FormatNotSupported,
            Error::Timeout => ErrorView::Timeout,
            Error::StreamEnded => ErrorView::StreamEnded,
            Error::MjpegDecode(message) => ErrorView::MjpegDecode(message@),
            Error::InvalidSubnet(message) => ErrorView::InvalidSubnet(message@),
            Error::BackendNotImplemented { platform } => ErrorView::BackendNotImplemented {
                platform: platform@,
            },
            Error::Backend { platform, message } => ErrorView::Backend {
                platform: platform@,
                message: message@,
            },
            Error::Unsupported { platform, reason } => ErrorView::Unsupported {
                platform: platform@,
                reason: reason@,
            },
        }
    }
}

impl ErrorView {
    /// The sentence that describes an error to a person.
    pub open spec fn text(self) -> Seq<char> {
        match self {
            ErrorView::PermissionDenied => "camera permission denied"@,
            ErrorView::DeviceNotFound(id) => "device not found: "@ + id,
            ErrorView::DeviceInUse => "device is already in use"@,
            ErrorView::FormatNotSupported => "requested format is not supported"@,
            ErrorView::Timeout => "timed out waiting for frame"@,
            ErrorView::StreamEnded => "camera stream ended"@,
            ErrorView::MjpegDecode(message) => "mjpeg decode failed: "@ + message,
            ErrorView::InvalidSubnet(message) => "invalid subnet: "@ + message,
            ErrorView::BackendNotImplemented { platform } => platform
                + " backend not implemented yet"@,
            ErrorView::Backend { platform, message } => platform + ": "@ + message,
            ErrorView::Unsupported { platform, reason } => platform + ": unsupported ("@ + reason
                + ")"@,
        }
    }
}

impl Error {
    /// The sentence that describes this error to a person.
    pub fn message(&self) -> (text: String)
        ensures
            text@ == self@.text(),
    {
        match self {
            Error::PermissionDenied => "camera permission denied".to_owned(),
            Error::DeviceNotFound(id) => append("device not found: ".to_owned(), id.as_str()),
            Error::DeviceInUse => "device is already in use".to_owned(),
            Error::FormatNotSupported => "requested format is not supported".to_owned(),
            Error::Timeout => "timed out waiting for frame".to_owned(),
            Error::StreamEnded => "camera stream ended".to_owned(),
            Error::MjpegDecode(message) => append(
                "mjpeg decode failed: ".to_owned(),
                message.as_str(),
            ),
            Error::InvalidSubnet(message) => append(
                "invalid subnet: ".to_owned(),
                message.as_str(),
            ),
            Error::BackendNotImplemented { platform } => append(
                (*platform).to_owned(),
                " backend not implemented yet",
            ),
            Error::Backend { platform, message } => {
                let prefix = append((*platform).to_owned(), ": ");
                append(prefix, message.as_str())
            },
            Error::Unsupported { platform, reason } => {
                let prefix = append((*platform).to_owned(), ": unsupported (");
                append(append(prefix, reason), ")")
            },
        }
    }
}

/// A platform failure described by a fixed text.
pub(crate) fn backend_error(platform: &'static str, message: &str) -> (error: Error)
    ensures
        error@ == (ErrorView::Backend { platform: platform@, message: message@ }),
{
    Error::Backend { platform, message: message.to_owned() }
}

} // verus!

//! Camera frames, formats, discovery and pumping as plain data and plain functions.

pub mod analysis;
pub mod autofocus;
pub mod backend;
pub mod bmp;
pub mod buffer;
pub mod camera;
pub mod channel;
pub mod controls;
pub mod convert;
pub mod decode;
pub mod discover;
pub mod error;

pub mod jpeg;
pub mod laws;
pub mod linux;
pub mod macos;
pub mod monitor;
pub mod negotiation;
pub mod net;
pub mod pick;
pub mod picture;
pub mod pump;
pub mod rtsp;
pub mod session;
pub mod source;
pub mod streaming;
pub mod text;
pub mod tiling;
pub mod types;
pub mod viewer;
pub mod windows;
pub mod wire;

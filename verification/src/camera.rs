//! The [`Camera`] resource handle and frame-reading free functions.

use crate::channel;
use crate::channel::{look_for, wait_for, Received};
use crate::error::{backend_error, Error, ErrorView};
use crate::types::{Frame, StreamConfig};
use crossbeam_channel::Receiver;
use std::time::Duration;
use vstd::prelude::*;

verus! {

/// A reasonable default timeout for [`next_frame`], in milliseconds, when you don't want to
/// hand-pick one.
pub const DEFAULT_FRAME_TIMEOUT_MILLIS: u64 = 500;

/// How many frames wait for the reader at most. Where the reader falls behind, the oldest are
/// dropped for newer ones (see [`offer_step`]).
pub const FRAME_QUEUE_CAPACITY: usize = 3;

/// An open, streaming camera.
///
/// A worker continuously pushes frames
/// into a bounded channel; read them with [`next_frame`] or [`try_next_frame`]. Dropping
/// the `Camera` drops its handle, which stops the stream and releases the underlying OS
/// session.
#[derive(Debug)]
pub struct Camera<H> {
    /// The configuration that is actually applied to the hardware.
    ///
    /// May differ from what was asked for if the platform had to round
    /// the resolution or framerate to the nearest supported value. This is the single
    /// source of truth for frame dimensions and pixel format.
    pub config: StreamConfig,
    /// Where the frames arrive.
    pub frame_rx: Receiver<Result<Frame, Error>>,
    /// What keeps the OS session alive.
    pub handle: H,
}

/// What waiting for a frame means to the caller: the frame or the failure that was sent,
/// [`Error::Timeout`] where nothing came in time, and [`Error::StreamEnded`] where nothing
/// will come any more.
pub open spec fn is_frame_outcome(
    received: Received<Result<Frame, Error>>,
    outcome: Result<Frame, Error>,
) -> bool {
    match received {
        Received::Item(item) => outcome == item,
        Received::TimedOut => outcome == Err::<Frame, Error>(Error::Timeout),
        Received::Disconnected => outcome == Err::<Frame, Error>(Error::StreamEnded),
    }
}

/// Decide what waiting for a frame means to the caller.
pub fn frame_outcome(received: Received<Result<Frame, Error>>) -> (outcome: Result<Frame, Error>)
    ensures
        is_frame_outcome(received, outcome),
{
    match received {
        Received::Item(item) => item,
        Received::TimedOut => Err(Error::Timeout),
        Received::Disconnected => Err(Error::StreamEnded),
    }
}

/// Block for the next frame up to `timeout`.
///
/// Returns [`Error::Timeout`] if no frame arrives in time (the camera is still open,
/// try again), or [`Error::StreamEnded`] if the worker thread has exited.
pub fn next_frame<H>(camera: &Camera<H>, timeout: Duration) -> (outcome: Result<Frame, Error>)
    ensures
        exists|received: Received<Result<Frame, Error>>|
            {
                &&& #[trigger] channel::came_of_waiting(&camera.frame_rx, timeout, received)
                &&& is_frame_outcome(received, outcome)
            },
{
    frame_outcome(wait_for(&camera.frame_rx, timeout))
}

/// Return immediately with a frame if one is already buffered, or `None` otherwise.
///
/// Useful when you want to poll the camera from a render loop without ever blocking.
pub fn try_next_frame<H>(camera: &Camera<H>) -> (item: Option<Result<Frame, Error>>)
    ensures
        channel::came_of_looking(&camera.frame_rx, item),
{
    look_for(&camera.frame_rx)
}

/// What to do about a frame that is offered to the reader's queue.
#[derive(Clone, Copy, Debug, PartialEq, Eq, Structural)]
pub enum OfferStep {
    /// Append it. That settles it.
    Send,
    /// Drop the oldest frame of the queue, and ask again.
    DropOldest,
}

/// Decide what to do about a frame that is offered to a queue in which `waiting` frames wait:
/// it is always taken, and the oldest make room for it where there is none.
pub fn offer_step(waiting: usize) -> (step: OfferStep)
    ensures
        step == (if waiting < FRAME_QUEUE_CAPACITY {
            OfferStep::Send
        } else {
            OfferStep::DropOldest
        }),
{
    if waiting < FRAME_QUEUE_CAPACITY {
        OfferStep::Send
    } else {
        OfferStep::DropOldest
    }
}

/// What a queue holds once a frame was offered to it and every step that [`offer_step`] decides
/// was taken.
pub open spec fn offered<T>(queue: Seq<T>, item: T) -> Seq<T>
    decreases queue.len(),
{
    if queue.len() < FRAME_QUEUE_CAPACITY {
        queue.push(item)
    } else {
        offered(queue.drop_first(), item)
    }
}

/// Decide what waiting for a session to come up means to the caller: the configuration that
/// was applied, the failure that was reported, or a failure of `platform` where nothing came
/// in time or the worker went away without a word.
pub fn handshake_outcome(
    received: Received<Result<StreamConfig, Error>>,
    platform: &'static str,
    message: &str,
) -> (outcome: Result<StreamConfig, Error>)
    ensures
        match received {
            Received::Item(reported) => outcome == reported,
            _ => outcome matches Err(error) && error@ == (ErrorView::Backend {
                platform: platform@,
                message: message@,
            }),
        },
{
    match received {
        Received::Item(reported) => reported,
        _ => Err(backend_error(platform, message)),
    }
}

/// The place where a worker leaves the latest frame for whoever shows it.
#[derive(Debug)]
pub struct FrameSlot {
    /// The latest frame that has not been taken.
    pub frame: Option<Frame>,
}

impl Default for FrameSlot {
    fn default() -> (slot: FrameSlot)
        ensures
            slot.frame is None,
    {
        FrameSlot { frame: None }
    }
}

/// Publish `frame`, replacing any previous frame.
pub fn publish_frame(slot: &mut FrameSlot, frame: Frame)
    ensures
        final(slot).frame == Some(frame),
{
    slot.frame = Some(frame);
}

/// Take the latest frame, returning `None` if no frame has
/// arrived since the last call.
pub fn take_frame(slot: &mut FrameSlot) -> (frame: Option<Frame>)
    ensures
        frame == old(slot).frame,
        final(slot).frame is None,
{
    slot.frame.take()
}

/// Look at the latest frame without taking it.
pub fn snapshot(slot: &FrameSlot) -> (frame: Option<Frame>)
    ensures
        match slot.frame {
            None => frame is None,
            Some(latest) => frame matches Some(copy) && copy@ == latest@,
        },
{
    match &slot.frame {
        None => None,
        Some(latest) => Some(latest.clone()),
    }
}

} // verus!

//! The bookkeeping of a run-every-frame loop: given the last frame's
//! timestamp, the new one, and whether the window is gone, decide whether
//! to stop, to skip (the first frame has no time delta to offer), or to
//! run the frame callback with the elapsed time.  Timestamps are in
//! microseconds.

use vstd::prelude::*;

verus! {

/// What to do with one animation frame.
#[derive(Clone, Copy, Debug, PartialEq, Eq, Structural)]
pub enum FrameStep {
    /// Tear the loop down: the window is gone.
    Stop,
    /// Request the next frame without running the callback: the first
    /// frame has no previous timestamp to measure from.
    Skip,
    /// Run the callback with the microseconds elapsed since the last
    /// frame, then request the next frame if the callback says to go on.
    Run { delta: i64 },
}

/// One step of the frame loop: the new "last timestamp" and what to do.
pub fn frame_step(last: Option<i64>, timestamp: i64, closed: bool) -> (r: (
    Option<i64>,
    FrameStep,
))
    requires
        match last {
            Some(l) => i64::MIN <= timestamp - l <= i64::MAX,
            None => true,
        },
    ensures
        r == if closed {
            (last, FrameStep::Stop)
        } else {
            match last {
                None => (Some(timestamp), FrameStep::Skip),
                Some(l) => (
                    Some(timestamp),
                    FrameStep::Run { delta: (timestamp - l) as i64 },
                ),
            }
        },
{
    if closed {
        (last, FrameStep::Stop)
    } else {
        match last {
            None => (Some(timestamp), FrameStep::Skip),
            Some(l) => (Some(timestamp), FrameStep::Run { delta: timestamp - l }),
        }
    }
}

} // verus!

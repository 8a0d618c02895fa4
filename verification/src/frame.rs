//! The pace of the frames: how long a frame may take, and how long to wait
//! at the end of one that took less. Times are counted in nanoseconds.

use vstd::prelude::*;

verus! {

/// The number of nanoseconds in a second.
pub const NANOS_PER_SECOND: u64 = 1_000_000_000;

/// The number of frames a second that the game aims at.
pub const MAX_FPS: u16 = 60;

/// The time given to one frame at `max_fps` frames a second.
pub open spec fn spec_frame_duration(max_fps: u16) -> nat {
    (NANOS_PER_SECOND as nat) / (max_fps as nat)
}

/// The time to wait at the end of a frame that took `frame_time`: what is
/// left of `frame_duration`, nothing where the frame took as long or longer.
pub open spec fn spec_frame_rest(frame_time: u64, frame_duration: u64) -> Option<u64> {
    if frame_time < frame_duration {
        Some((frame_duration - frame_time) as u64)
    } else {
        None
    }
}

/// The time from the start of the frame before to the start of this one,
/// nothing where the clock went back.
pub open spec fn spec_delta_time(previous_frame_start: u64, frame_start: u64) -> u64 {
    if frame_start >= previous_frame_start {
        (frame_start - previous_frame_start) as u64
    } else {
        0
    }
}

/// The time given to one frame at `max_fps` frames a second.
pub fn frame_duration(max_fps: u16) -> (duration: u64)
    requires
        max_fps > 0,
    ensures
        duration == spec_frame_duration(max_fps),
{
    NANOS_PER_SECOND / (max_fps as u64)
}

/// The time to wait at the end of a frame that took `frame_time`: what is
/// left of `frame_duration`, nothing where the frame took as long or longer.
pub fn frame_rest(frame_time: u64, frame_duration: u64) -> (rest: Option<u64>)
    ensures
        rest == spec_frame_rest(frame_time, frame_duration),
{
    if frame_time < frame_duration {
        Some(frame_duration - frame_time)
    } else {
        None
    }
}

/// The time from the start of the frame before to the start of this one,
/// nothing where the clock went back.
pub fn delta_time(previous_frame_start: u64, frame_start: u64) -> (delta: u64)
    ensures
        delta == spec_delta_time(previous_frame_start, frame_start),
{
    if frame_start >= previous_frame_start {
        frame_start - previous_frame_start
    } else {
        0
    }
}

/// A frame and the wait at its end take the time given to a frame, or the
/// time of the frame where that is longer.
pub proof fn lemma_frame_rest_fills_the_frame(frame_time: u64, frame_duration: u64)
    ensures
        match spec_frame_rest(frame_time, frame_duration) {
            Some(rest) => frame_time + rest == frame_duration && rest > 0,
            None => frame_time >= frame_duration,
        },
{
}

} // verus!

use vstd::prelude::*;
use crate::time::{ClockTime, MSECOND_NS};

verus! {

/// Where a video being written stands: the next frame to write, the last
/// frame to write, and the time between frames in milliseconds.
pub struct FrameSchedule {
    pub current: i32,
    pub frames: i32,
    pub delta: u64,
}

/// What to do when the encoder asks for data.
#[derive(Clone, Copy, Debug, PartialEq, Eq, Structural)]
pub enum FrameStep {
    /// Every frame is written: end the stream.
    EndOfStream,
    /// Draw the frame at this time and push it, stamped with this time.
    PushFrame(ClockTime),
}

/// The milliseconds between frames at `fps` frames per second: 1000
/// divided by `fps`, rounded toward zero, read as an unsigned 64-bit
/// number (a negative quotient wraps around).
pub open spec fn frame_delta(fps: int) -> int {
    if fps > 0 {
        1000int / fps
    } else if 1000int / (-fps) == 0 {
        0
    } else {
        0x1_0000_0000_0000_0000int - 1000int / (-fps)
    }
}

impl FrameSchedule {
    /// A schedule that writes frames 0 to `frames`, `fps` per second.
    pub fn new(frames: i32, fps: i32) -> (r: FrameSchedule)
        requires
            fps != 0,
        ensures
            r.current == 0,
            r.frames == frames,
            r.delta == frame_delta(fps as int),
    {
        let delta: u64 = if fps > 0 {
            let f: u64 = fps as u64;
            1000 / f
        } else {
            let f: u64 = (0 - (fps as i64)) as u64;
            let q: u64 = 1000 / f;
            if q == 0 {
                0
            } else {
                u64::MAX - q + 1
            }
        };
        FrameSchedule { current: 0, frames: frames, delta: delta }
    }

    /// Answers the encoder's request for data: once the last frame is
    /// written, the end of the stream; else the next frame, at
    /// `current * delta` milliseconds, after which the next one is due.
    pub fn need_data(&mut self) -> (r: FrameStep)
        requires
            old(self).current >= 0,
            old(self).current <= old(self).frames ==> {
                &&& old(self).current < i32::MAX
                &&& old(self).current * old(self).delta * MSECOND_NS <= u64::MAX
            },
        ensures
            final(self).frames == old(self).frames,
            final(self).delta == old(self).delta,
            if old(self).current > old(self).frames {
                &&& r == FrameStep::EndOfStream
                &&& final(self).current == old(self).current
            } else {
                &&& r == FrameStep::PushFrame(ClockTime { nanos: (old(self).current * old(self).delta * MSECOND_NS) as u64 })
                &&& final(self).current == old(self).current + 1
            },
    {
        if self.current > self.frames {
            return FrameStep::EndOfStream;
        }
        let c: u64 = self.current as u64;
        proof {
            assert(c * self.delta <= c * self.delta * MSECOND_NS) by (nonlinear_arith)
                requires
                    c * self.delta >= 0,
            ;
        }
        let ms: u64 = c * self.delta;
        let at = ClockTime::from_mseconds(ms);
        self.current = self.current + 1;
        FrameStep::PushFrame(at)
    }
}

} // verus!

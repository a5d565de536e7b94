use madder_core::render::{FrameSchedule, FrameStep};
use madder_core::time::ClockTime;

#[test]
fn schedule_pushes_frames_then_ends() {
    let mut s = FrameSchedule::new(2, 30);
    assert_eq!(s.delta, 33);
    assert_eq!(s.need_data(), FrameStep::PushFrame(ClockTime::from_mseconds(0)));
    assert_eq!(s.need_data(), FrameStep::PushFrame(ClockTime::from_mseconds(33)));
    assert_eq!(s.need_data(), FrameStep::PushFrame(ClockTime::from_mseconds(66)));
    assert_eq!(s.need_data(), FrameStep::EndOfStream);
    assert_eq!(s.need_data(), FrameStep::EndOfStream);
    assert_eq!(s.current, 3);
}

#[test]
fn delta_rounds_toward_zero_and_wraps_when_negative() {
    assert_eq!(FrameSchedule::new(0, 7).delta, (1000 / 7) as u64);
    assert_eq!(FrameSchedule::new(0, -3).delta, (1000i32 / -3) as u64);
    assert_eq!(FrameSchedule::new(0, -2000).delta, 0);
    assert_eq!(FrameSchedule::new(0, 2000).delta, 0);
    let mut empty = FrameSchedule::new(-1, 25);
    assert_eq!(empty.need_data(), FrameStep::EndOfStream);
}

use tetris::frame::{delta_time, frame_duration, frame_rest, MAX_FPS, NANOS_PER_SECOND};

#[test]
fn frame_duration_divides_the_second() {
    assert_eq!(frame_duration(60), 16_666_666);
    assert_eq!(frame_duration(120), 8_333_333);
    assert_eq!(frame_duration(1), NANOS_PER_SECOND);
    assert_eq!(frame_duration(MAX_FPS), 16_666_666);
    assert_eq!(frame_duration(u16::MAX), 15_259);
}

#[test]
fn short_frame_waits_for_the_rest() {
    assert_eq!(frame_rest(1_000_000, 16_666_666), Some(15_666_666));
    assert_eq!(frame_rest(0, 16_666_666), Some(16_666_666));
    assert_eq!(frame_rest(16_666_665, 16_666_666), Some(1));
}

#[test]
fn long_frame_does_not_wait() {
    assert_eq!(frame_rest(16_666_666, 16_666_666), None);
    assert_eq!(frame_rest(20_000_000, 16_666_666), None);
    assert_eq!(frame_rest(u64::MAX, 0), None);
}

#[test]
fn delta_time_between_frames() {
    assert_eq!(delta_time(100, 250), 150);
    assert_eq!(delta_time(250, 250), 0);
    assert_eq!(delta_time(250, 100), 0);
}

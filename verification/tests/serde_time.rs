use madder_core::serde_impl::SerTime;
use madder_core::time::ClockTime;

#[test]
fn time_is_written_in_milliseconds() {
    assert_eq!(SerTime::serialize_time(&ClockTime::from_mseconds(1500)), 1500);
    assert_eq!(SerTime::serialize_time(&ClockTime::from_nseconds(2_999_999)), 2);
}

#[test]
fn written_time_reads_back() {
    for ms in [0u64, 1, 100, 123_456_789] {
        let t = SerTime::deserialize_time(ms);
        assert_eq!(t.nanos, ms * 1_000_000);
        assert_eq!(SerTime::serialize_time(&t), ms);
    }
}

use madder_core::component::Component;
use madder_core::repository::RepositoryHashMapImpl;
use madder_core::time::ClockTime;

fn component(start_ms: u64, length_ms: u64) -> Component {
    Component {
        start_time: ClockTime::from_mseconds(start_ms),
        length: ClockTime::from_mseconds(length_ms),
        attributes: RepositoryHashMapImpl::new(),
        effect: vec!["e1".to_string()],
    }
}

#[test]
fn end_time_is_start_plus_length() {
    assert_eq!(component(100, 250).end_time().nanos, 350_000_000);
}

#[test]
fn partial_update_sets_named_times() {
    let mut c = component(100, 250);
    c.partial_update(&vec![("length".to_string(), ClockTime::from_mseconds(10))]);
    assert_eq!(c.start_time.nanos, 100_000_000);
    assert_eq!(c.length.nanos, 10_000_000);
    c.partial_update(&vec![
        ("start_time".to_string(), ClockTime::from_mseconds(1)),
        ("length".to_string(), ClockTime::from_mseconds(2)),
    ]);
    assert_eq!(c.start_time.nanos, 1_000_000);
    assert_eq!(c.length.nanos, 2_000_000);
    assert_eq!(c.effect, vec!["e1".to_string()]);
}

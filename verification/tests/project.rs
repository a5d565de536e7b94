use madder_core::project::{Layer, Project};
use madder_core::time::ClockTime;

#[test]
fn layer_keeps_keys_in_order() {
    let mut layer = Layer::new();
    assert!(layer.list().is_empty());
    layer.push("a".to_string());
    layer.push("b".to_string());
    assert_eq!(layer.list(), &vec!["a".to_string(), "b".to_string()]);
}

#[test]
fn new_project_has_one_empty_layer() {
    let p = Project::new(640, 480, ClockTime::from_mseconds(100), ClockTime::from_nseconds(0));
    assert_eq!(p.list_layers().len(), 1);
    assert!(p.get_components_at_layer(0).is_empty());
    assert_eq!(p.size, (640, 480));
    assert_eq!(p.length.nanos, 100_000_000);
}

#[test]
fn components_are_added_to_their_layer() {
    let mut p = Project::new(1, 1, ClockTime::from_nseconds(0), ClockTime::from_nseconds(0));
    p.insert_layer(1);
    p.add_component_at(1, "x".to_string());
    p.add_component_at(0, "y".to_string());
    p.add_component_at(1, "z".to_string());
    assert_eq!(p.get_components_at_layer(0), &vec!["y".to_string()]);
    assert_eq!(p.get_components_at_layer(1), &vec!["x".to_string(), "z".to_string()]);
}

#[test]
fn insert_layer_shifts_later_layers() {
    let mut p = Project::new(1, 1, ClockTime::from_nseconds(0), ClockTime::from_nseconds(0));
    p.add_component_at(0, "old".to_string());
    p.insert_layer(0);
    assert_eq!(p.list_layers().len(), 2);
    assert!(p.get_components_at_layer(0).is_empty());
    assert_eq!(p.get_components_at_layer(1), &vec!["old".to_string()]);
}

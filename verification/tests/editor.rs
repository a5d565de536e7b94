use madder_core::editor::{components_to_draw, EditorComponent};
use madder_core::time::ClockTime;

fn comp(start_ms: u64, length_ms: u64, layer: usize) -> EditorComponent {
    EditorComponent {
        start_time: ClockTime::from_mseconds(start_ms),
        length: ClockTime::from_mseconds(length_ms),
        layer_index: layer,
    }
}

#[test]
fn draws_higher_layers_first_and_later_components_first() {
    let cs = vec![comp(0, 100, 0), comp(0, 100, 2), comp(0, 100, 0), comp(50, 10, 1), comp(0, 100, 2)];
    assert_eq!(components_to_draw(&cs, ClockTime::from_mseconds(55)), vec![4, 1, 3, 2, 0]);
}

#[test]
fn only_components_on_screen_are_drawn() {
    let cs = vec![comp(0, 10, 0), comp(10, 10, 0), comp(30, 5, 1)];
    assert_eq!(components_to_draw(&cs, ClockTime::from_mseconds(10)), vec![1, 0]);
    assert_eq!(components_to_draw(&cs, ClockTime::from_mseconds(20)), vec![1]);
    assert_eq!(components_to_draw(&cs, ClockTime::from_mseconds(25)), Vec::<usize>::new());
    assert_eq!(components_to_draw(&cs, ClockTime::from_mseconds(35)), vec![2]);
    assert!(components_to_draw(&vec![], ClockTime::from_mseconds(0)).is_empty());
}

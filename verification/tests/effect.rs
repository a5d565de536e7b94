use madder_core::effect::{EffectType, Transition};

#[test]
fn effect_types_are_listed_in_order() {
    assert_eq!(
        EffectType::types(),
        vec![
            EffectType::CoordinateX,
            EffectType::CoordinateY,
            EffectType::Rotate,
            EffectType::ScaleX,
            EffectType::ScaleY,
            EffectType::Alpha,
        ]
    );
}

#[test]
fn transitions_are_listed_in_order() {
    assert_eq!(
        Transition::transitions(),
        vec![
            Transition::Linear,
            Transition::Ease,
            Transition::EaseIn,
            Transition::EaseOut,
            Transition::EaseInOut,
        ]
    );
}

#[test]
fn each_effect_type_is_found_once() {
    let types = EffectType::types();
    for t in types.iter() {
        assert_eq!(types.iter().filter(|x| *x == t).count(), 1);
    }
    let transitions = Transition::transitions();
    for t in transitions.iter() {
        assert_eq!(transitions.iter().filter(|x| *x == t).count(), 1);
    }
}

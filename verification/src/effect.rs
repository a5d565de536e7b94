use vstd::prelude::*;

verus! {

/// The property of a component that an effect animates.
#[derive(Clone, Copy, Debug, PartialEq, Eq, Structural)]
pub enum EffectType {
    CoordinateX,
    CoordinateY,
    Rotate,
    ScaleX,
    ScaleY,
    Alpha,
}

/// Every effect type, in declaration order.
pub open spec fn all_effect_types() -> Seq<EffectType> {
    seq![
        EffectType::CoordinateX,
        EffectType::CoordinateY,
        EffectType::Rotate,
        EffectType::ScaleX,
        EffectType::ScaleY,
        EffectType::Alpha,
    ]
}

impl EffectType {
    /// Lists every effect type, in declaration order.
    pub fn types() -> (r: Vec<EffectType>)
        ensures
            r@ == all_effect_types(),
    {
        let mut v: Vec<EffectType> = Vec::new();
        v.push(EffectType::CoordinateX);
        v.push(EffectType::CoordinateY);
        v.push(EffectType::Rotate);
        v.push(EffectType::ScaleX);
        v.push(EffectType::ScaleY);
        v.push(EffectType::Alpha);
        v
    }
}

/// The easing curve along which an effect moves from its start value to
/// its end value.
#[derive(Clone, Copy, Debug, PartialEq, Eq, Structural)]
pub enum Transition {
    Linear,
    Ease,
    EaseIn,
    EaseOut,
    EaseInOut,
}

/// Every transition, in declaration order.
pub open spec fn all_transitions() -> Seq<Transition> {
    seq![
        Transition::Linear,
        Transition::Ease,
        Transition::EaseIn,
        Transition::EaseOut,
        Transition::EaseInOut,
    ]
}

impl Transition {
    /// Lists every transition, in declaration order.
    pub fn transitions() -> (r: Vec<Transition>)
        ensures
            r@ == all_transitions(),
    {
        let mut v: Vec<Transition> = Vec::new();
        v.push(Transition::Linear);
        v.push(Transition::Ease);
        v.push(Transition::EaseIn);
        v.push(Transition::EaseOut);
        v.push(Transition::EaseInOut);
        v
    }
}

/// Every effect type is listed, and none twice.
pub proof fn law_effect_types_listed_once()
    ensures
        forall|t: EffectType| #[trigger] all_effect_types().contains(t),
        forall|i: int, j: int|
            0 <= i < j < all_effect_types().len() ==> all_effect_types()[i] != all_effect_types()[j],
{
    assert forall|t: EffectType| #[trigger] all_effect_types().contains(t) by {
        match t {
            EffectType::CoordinateX => assert(all_effect_types()[0] == t),
            EffectType::CoordinateY => assert(all_effect_types()[1] == t),
            EffectType::Rotate => assert(all_effect_types()[2] == t),
            EffectType::ScaleX => assert(all_effect_types()[3] == t),
            EffectType::ScaleY => assert(all_effect_types()[4] == t),
            EffectType::Alpha => assert(all_effect_types()[5] == t),
        }
    }
}

/// Every transition is listed, and none twice.
pub proof fn law_transitions_listed_once()
    ensures
        forall|t: Transition| #[trigger] all_transitions().contains(t),
        forall|i: int, j: int|
            0 <= i < j < all_transitions().len() ==> all_transitions()[i] != all_transitions()[j],
{
    assert forall|t: Transition| #[trigger] all_transitions().contains(t) by {
        match t {
            Transition::Linear => assert(all_transitions()[0] == t),
            Transition::Ease => assert(all_transitions()[1] == t),
            Transition::EaseIn => assert(all_transitions()[2] == t),
            Transition::EaseOut => assert(all_transitions()[3] == t),
            Transition::EaseInOut => assert(all_transitions()[4] == t),
        }
    }
}

} // verus!

use vstd::prelude::*;
use crate::json::Json;
use crate::repository::RepositoryHashMapImpl;
use crate::text::str_equal;
use crate::time::ClockTime;

verus! {

/// An object on the timeline: when it starts, how long it lasts, its
/// free-form attributes and the keys of the effects applied to it.
pub struct Component {
    pub start_time: ClockTime,
    pub length: ClockTime,
    pub attributes: RepositoryHashMapImpl<Json>,
    pub effect: Vec<String>,
}

/// The last time given for `key` in a list of updates, if any.
pub open spec fn last_update(updates: Seq<(String, ClockTime)>, key: Seq<char>) -> Option<ClockTime>
    decreases updates.len(),
{
    if updates.len() == 0 {
        None
    } else if updates.last().0@ == key {
        Some(updates.last().1)
    } else {
        last_update(updates.drop_last(), key)
    }
}

/// The time an update list gives for `key` is the time of its last update
/// keyed `key`, whatever the other keys; a list with no update for `key`
/// gives none.
pub proof fn law_last_update_is_last_for_key(updates: Seq<(String, ClockTime)>, key: Seq<char>)
    ensures
        (forall|i: int| 0 <= i < updates.len() ==> (#[trigger] updates[i]).0@ != key) ==> last_update(updates, key) is None,
        (exists|i: int| 0 <= i < updates.len() && (#[trigger] updates[i]).0@ == key) ==> exists|i: int|
            0 <= i < updates.len() && (#[trigger] updates[i]).0@ == key && last_update(updates, key) == Some(updates[i].1)
                && forall|j: int| i < j < updates.len() ==> (#[trigger] updates[j]).0@ != key,
    decreases updates.len(),
{
    if updates.len() > 0 {
        let n = updates.len() - 1;
        let d = updates.drop_last();
        law_last_update_is_last_for_key(d, key);
        if updates[n].0@ == key {
            assert(updates[n].0@ == key && last_update(updates, key) == Some(updates[n].1));
        } else {
            if exists|i: int| 0 <= i < updates.len() && (#[trigger] updates[i]).0@ == key {
                let w = choose|i: int| 0 <= i < updates.len() && (#[trigger] updates[i]).0@ == key;
                assert(w != n);
                assert(d[w] == updates[w]);
                assert(exists|i: int| 0 <= i < d.len() && (#[trigger] d[i]).0@ == key);
                let i = choose|i: int|
                    0 <= i < d.len() && (#[trigger] d[i]).0@ == key && last_update(d, key) == Some(d[i].1)
                        && forall|j: int| i < j < d.len() ==> (#[trigger] d[j]).0@ != key;
                assert(updates[i] == d[i]);
                assert forall|j: int| i < j < updates.len() implies (#[trigger] updates[j]).0@ != key by {
                    if j < n {
                        assert(updates[j] == d[j]);
                    }
                }
            }
            if forall|i: int| 0 <= i < updates.len() ==> (#[trigger] updates[i]).0@ != key {
                assert forall|i: int| 0 <= i < d.len() implies (#[trigger] d[i]).0@ != key by {
                    assert(d[i] == updates[i]);
                }
            }
        }
    }
}

/// Whether every update names one of the two times of a component.
pub open spec fn updates_known(updates: Seq<(String, ClockTime)>) -> bool {
    forall|i: int|
        0 <= i < updates.len() ==> (#[trigger] updates[i]).0@ == "start_time"@ || updates[i].0@
            == "length"@
}

impl Component {
    /// The time at which the component ends.
    pub fn end_time(&self) -> (r: ClockTime)
        requires
            self.start_time.nanos + self.length.nanos <= u64::MAX,
        ensures
            r.nanos == self.start_time.nanos + self.length.nanos,
    {
        self.start_time.plus(self.length)
    }

    /// Sets the start time and the length from a list of updates keyed by
    /// `start_time` and `length`; a later update of a key wins.
    pub fn partial_update(&mut self, value: &Vec<(String, ClockTime)>)
        requires
            updates_known(value@),
        ensures
            final(self).start_time == match last_update(value@, "start_time"@) {
                Some(t) => t,
                None => old(self).start_time,
            },
            final(self).length == match last_update(value@, "length"@) {
                Some(t) => t,
                None => old(self).length,
            },
            final(self).attributes == old(self).attributes,
            final(self).effect == old(self).effect,
    {
        let mut i: usize = 0;
        while i < value.len()
            invariant
                i <= value@.len(),
                updates_known(value@),
                self.start_time == match last_update(value@.subrange(0, i as int), "start_time"@) {
                    Some(t) => t,
                    None => old(self).start_time,
                },
                self.length == match last_update(value@.subrange(0, i as int), "length"@) {
                    Some(t) => t,
                    None => old(self).length,
                },
                self.attributes == old(self).attributes,
                self.effect == old(self).effect,
            decreases value@.len() - i,
        {
            proof {
                assert(value@.subrange(0, i + 1).drop_last() =~= value@.subrange(0, i as int));
                assert(value@.subrange(0, i + 1).last() == value@[i as int]);
            }
            proof {
                reveal_strlit("start_time");
                reveal_strlit("length");
            }
            let (k, t) = (&value[i].0, value[i].1);
            if str_equal(k.as_str(), "start_time") {
                proof {
                    assert("start_time"@.len() != "length"@.len());
                    assert(value@[i as int].0@ != "length"@);
                }
                self.start_time = t;
            } else {
                proof {
                    assert(value@[i as int].0@ == "length"@);
                    assert("start_time"@.len() != "length"@.len());
                    assert(value@[i as int].0@ != "start_time"@);
                }
                self.length = t;
            }
            i = i + 1;
        }
        proof {
            assert(value@.subrange(0, value@.len() as int) =~= value@);
        }
    }
}

/// Access to the timeline component that a value carries.
pub trait HaveComponent {
    /// The component carried.
    spec fn component_view(&self) -> Component;

    fn component(&self) -> (r: &Component)
        ensures
            *r == self.component_view(),
    ;

    fn component_mut(&mut self) -> (r: &mut Component)
        ensures
            *r == old(self).component_view(),
            final(self).component_view() == *final(r),
    ;
}

/// A video clip read from a file.
pub struct VideoComponent {
    pub component: Component,
    pub data_path: String,
}

/// A still image read from a file.
pub struct ImageComponent {
    pub component: Component,
    pub data_path: String,
}

/// A colour with 8-bit channels.
#[derive(Clone, Copy, Debug, PartialEq, Eq, Structural)]
pub struct RGBA {
    pub red: u8,
    pub green: u8,
    pub blue: u8,
    pub alpha: u8,
}

/// A piece of text drawn in a font and a colour.
pub struct TextComponent {
    pub component: Component,
    pub text_font: String,
    pub text_color: RGBA,
    pub text: String,
}

/// A sound read from a file.
pub struct SoundComponent {
    pub component: Component,
    pub data_path: String,
}

/// The kinds of component that a project holds.
pub enum ComponentExt {
    Video(VideoComponent),
    Image(ImageComponent),
}

impl HaveComponent for VideoComponent {
    open spec fn component_view(&self) -> Component {
        self.component
    }

    fn component(&self) -> (r: &Component) {
        &self.component
    }

    fn component_mut(&mut self) -> (r: &mut Component) {
        &mut self.component
    }
}

impl HaveComponent for ImageComponent {
    open spec fn component_view(&self) -> Component {
        self.component
    }

    fn component(&self) -> (r: &Component) {
        &self.component
    }

    fn component_mut(&mut self) -> (r: &mut Component) {
        &mut self.component
    }
}

impl HaveComponent for TextComponent {
    open spec fn component_view(&self) -> Component {
        self.component
    }

    fn component(&self) -> (r: &Component) {
        &self.component
    }

    fn component_mut(&mut self) -> (r: &mut Component) {
        &mut self.component
    }
}

impl HaveComponent for SoundComponent {
    open spec fn component_view(&self) -> Component {
        self.component
    }

    fn component(&self) -> (r: &Component) {
        &self.component
    }

    fn component_mut(&mut self) -> (r: &mut Component) {
        &mut self.component
    }
}

/// Whether `b` is `a` with at most its timeline component changed: the
/// same kind, reading the same file.
pub open spec fn same_source(a: ComponentExt, b: ComponentExt) -> bool {
    match (a, b) {
        (ComponentExt::Video(x), ComponentExt::Video(y)) => x.data_path == y.data_path,
        (ComponentExt::Image(x), ComponentExt::Image(y)) => x.data_path == y.data_path,
        _ => false,
    }
}

impl HaveComponent for ComponentExt {
    open spec fn component_view(&self) -> Component {
        match self {
            ComponentExt::Video(c) => c.component,
            ComponentExt::Image(c) => c.component,
        }
    }

    fn component(&self) -> (r: &Component) {
        match self {
            ComponentExt::Video(c) => c.component(),
            ComponentExt::Image(c) => c.component(),
        }
    }

    fn component_mut(&mut self) -> (r: &mut Component)
        ensures
            same_source(*old(self), *final(self)),
    {
        match self {
            ComponentExt::Video(c) => &mut c.component,
            ComponentExt::Image(c) => &mut c.component,
        }
    }
}

/// An effect applied to a component.
pub struct Effect {}

/// Access to the effect that a value carries.
pub trait HaveEffect {
    fn effect(&self) -> &Effect;

    fn effect_mut(&mut self) -> &mut Effect;
}

} // verus!

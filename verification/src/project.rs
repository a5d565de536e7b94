use vstd::prelude::*;
use crate::time::ClockTime;

verus! {

/// One layer of the timeline: the keys of its components, in order.
#[derive(Clone)]
pub struct Layer {
    components: Vec<String>,
}

impl Layer {
    /// The keys of the layer's components, in order.
    pub closed spec fn ids(&self) -> Seq<String> {
        self.components@
    }

    /// An empty layer.
    pub fn new() -> (r: Layer)
        ensures
            r.ids() == Seq::<String>::empty(),
    {
        Layer { components: Vec::new() }
    }

    /// Adds a component key at the end of the layer.
    pub fn push(&mut self, component: String)
        ensures
            final(self).ids() == old(self).ids().push(component),
    {
        self.components.push(component);
    }

    /// The keys of the layer's components, in order.
    pub fn list(&self) -> (r: &Vec<String>)
        ensures
            r@ == self.ids(),
    {
        &self.components
    }
}

/// A project: its layers (the first one drawn on top), the size of the
/// screen, its length and the current position on the timeline.
pub struct Project {
    pub layers: Vec<Layer>,
    pub size: (i32, i32),
    pub length: ClockTime,
    pub position: ClockTime,
}

impl Project {
    /// A project with one empty layer.
    pub fn new(width: i32, height: i32, length: ClockTime, position: ClockTime) -> (r: Project)
        ensures
            r.layers@.len() == 1,
            r.layers@[0].ids() == Seq::<String>::empty(),
            r.size == (width, height),
            r.length == length,
            r.position == position,
    {
        let mut layers: Vec<Layer> = Vec::new();
        layers.push(Layer::new());
        Project { layers: layers, size: (width, height), length: length, position: position }
    }

    /// Inserts an empty layer at `index`; later layers move down by one.
    pub fn insert_layer(&mut self, index: usize)
        requires
            index <= old(self).layers@.len(),
        ensures
            final(self).layers@.len() == old(self).layers@.len() + 1,
            final(self).layers@[index as int].ids() == Seq::<String>::empty(),
            forall|i: int|
                0 <= i < index ==> (#[trigger] final(self).layers@[i]) == old(self).layers@[i],
            forall|i: int|
                index < i < final(self).layers@.len() ==> (#[trigger] final(self).layers@[i])
                    == old(self).layers@[i - 1],
            final(self).size == old(self).size,
            final(self).length == old(self).length,
            final(self).position == old(self).position,
    {
        self.layers.insert(index, Layer::new());
    }

    /// The layers, from the top one down.
    pub fn list_layers(&self) -> (r: &Vec<Layer>)
        ensures
            r@ == self.layers@,
    {
        &self.layers
    }

    /// Adds a component key at the end of the layer `layer_index`.
    pub fn add_component_at(&mut self, layer_index: usize, component: String)
        requires
            layer_index < old(self).layers@.len(),
        ensures
            final(self).layers@.len() == old(self).layers@.len(),
            final(self).layers@[layer_index as int].ids() == old(self).layers@[layer_index as int].ids().push(
                component,
            ),
            forall|i: int|
                0 <= i < final(self).layers@.len() && i != layer_index ==> (#[trigger] final(self).layers@[i])
                    == old(self).layers@[i],
            final(self).size == old(self).size,
            final(self).length == old(self).length,
            final(self).position == old(self).position,
    {
        let mut layer = self.layers.remove(layer_index);
        layer.push(component);
        self.layers.insert(layer_index, layer);
    }

    /// The component keys of the layer `layer_index`, in order.
    pub fn get_components_at_layer(&self, layer_index: usize) -> (r: &Vec<String>)
        requires
            layer_index < self.layers@.len(),
        ensures
            r@ == self.layers@[layer_index as int].ids(),
    {
        self.layers[layer_index].list()
    }
}

} // verus!

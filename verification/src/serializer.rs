use vstd::prelude::*;

verus! {

/// The kinds of component that an editor file names.
#[derive(Clone, Copy, Debug, PartialEq, Eq, Structural)]
pub enum ComponentType {
    Video,
    Image,
    Text,
    Sound,
}

/// One component of an editor file: its kind, where it lies on the
/// timeline (in milliseconds), the file or text it shows, and where on
/// the screen.
pub struct ComponentStructure {
    pub component_type: ComponentType,
    pub start_time: u64,
    pub end_time: u64,
    pub entity: String,
    pub coordinate: (i32, i32),
}

/// The contents of an editor file: the screen size and the components.
pub struct EditorStructure {
    pub size: (i32, i32),
    pub components: Vec<ComponentStructure>,
}

} // verus!

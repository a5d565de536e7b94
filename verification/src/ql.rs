use vstd::prelude::*;
use crate::time::{ClockTime, SECOND_NS};

verus! {

/// An unsigned 32-bit number as the query API exchanges it.
#[derive(Clone, Copy, Debug, PartialEq, Eq, Structural)]
pub struct U32(u32);

impl View for U32 {
    type V = u32;

    closed spec fn view(&self) -> u32 {
        self.0
    }
}

impl U32 {
    /// The number that a signed 32-bit value has as its bit pattern read
    /// unsigned (a negative value wraps around).
    pub fn from_i32(v: i32) -> (r: U32)
        ensures
            r@ == v as u32,
    {
        U32(v as u32)
    }

    /// The number held.
    pub fn as_u32(self) -> (r: u32)
        ensures
            r == self@,
    {
        self.0
    }
}

/// The size of the screen, in pixels.
#[derive(Clone, Copy, Debug, PartialEq, Eq, Structural)]
pub struct ScreenSize {
    pub width: U32,
    pub height: U32,
}

/// A video clip of the query API's project.
pub struct VideoComponent {
    pub id: String,
    pub start_time: ClockTime,
    pub length: ClockTime,
    pub uri: String,
}

/// A test-pattern clip of the query API's project.
pub struct VideoTestComponent {
    pub id: String,
    pub start_time: ClockTime,
    pub length: ClockTime,
}

/// A component of the query API's project.
pub enum Component {
    VideoComponent(VideoComponent),
    VideoTestComponent(VideoTestComponent),
}

/// The project that the query API serves.
pub struct Project {
    pub size: ScreenSize,
    pub length: ClockTime,
    pub position: ClockTime,
    pub components: Vec<Component>,
}

/// The state behind the query API.
pub struct Editor {
    pub project: Project,
}

impl Editor {
    /// An editor with a 1280x720 project of one second, at its start,
    /// with no component.
    pub fn new() -> (r: Editor)
        ensures
            r.project.size.width@ == 1280,
            r.project.size.height@ == 720,
            r.project.length.nanos == SECOND_NS,
            r.project.position.nanos == 0,
            r.project.components@.len() == 0,
    {
        Editor {
            project: Project {
                size: ScreenSize { width: U32::from_i32(1280), height: U32::from_i32(720) },
                length: ClockTime::from_seconds(1),
                position: ClockTime::from_seconds(0),
                components: Vec::new(),
            },
        }
    }
}

/// The context that queries and mutations run in: the editor.
pub struct Context(pub Editor);

impl Context {
    /// A context holding a new editor.
    pub fn new() -> (r: Context)
        ensures
            r.0.project.size.width@ == 1280,
            r.0.project.size.height@ == 720,
            r.0.project.length.nanos == SECOND_NS,
            r.0.project.position.nanos == 0,
            r.0.project.components@.len() == 0,
    {
        Context(Editor::new())
    }
}

/// The queries of the API.
pub struct QueryRoot;

impl QueryRoot {
    /// The project.
    pub fn project<'a>(&self, context: &'a Context) -> (r: &'a Project)
        ensures
            *r == context.0.project,
    {
        &context.0.project
    }
}

/// The mutations of the API.
pub struct MutationRoot;

impl MutationRoot {
    /// Sets the size of the screen and returns the new size.
    pub fn set_screen_size(&self, context: &mut Context, width: i32, height: i32) -> (r: ScreenSize)
        ensures
            r.width@ == width as u32,
            r.height@ == height as u32,
            final(context).0.project.size == r,
            final(context).0.project.length == old(context).0.project.length,
            final(context).0.project.position == old(context).0.project.position,
            final(context).0.project.components == old(context).0.project.components,
    {
        let size = ScreenSize { width: U32::from_i32(width), height: U32::from_i32(height) };
        context.0.project.size = size;
        size
    }
}

} // verus!

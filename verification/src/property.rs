use vstd::prelude::*;

verus! {

/// Where a component is drawn when its geometry names no coordinate: the
/// top left corner of the screen.
pub fn coordinate_default() -> (r: (i32, i32))
    ensures
        r == (0i32, 0i32),
{
    (0, 0)
}

/// How opaque a component is drawn when its geometry names no alpha:
/// fully opaque.
pub fn alpha_default() -> (r: i32)
    ensures
        r == 255,
{
    255
}

} // verus!

use madder_core::property::{alpha_default, coordinate_default};

#[test]
fn geometry_defaults() {
    assert_eq!(coordinate_default(), (0, 0));
    assert_eq!(alpha_default(), 255);
}

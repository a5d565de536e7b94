use madder_core::ql::{Context, MutationRoot, QueryRoot, U32};

#[test]
fn default_screen_size_should_be_1280x720() {
    let context = Context::new();
    let project = QueryRoot.project(&context);
    assert_eq!(project.size.width.as_u32(), 1280);
    assert_eq!(project.size.height.as_u32(), 720);
}

#[test]
fn can_update_screen_size() {
    let new_size = (200, 150);
    let mut context = Context::new();

    let res = MutationRoot.set_screen_size(&mut context, new_size.0, new_size.1);
    let w = new_size.0 as u32;
    let h = new_size.1 as u32;
    assert_eq!(res.width.as_u32(), w);
    assert_eq!(res.height.as_u32(), h);

    let project = QueryRoot.project(&context);
    assert_eq!(project.size.width.as_u32(), w);
    assert_eq!(project.size.height.as_u32(), h);
}

#[test]
fn u32_wraps_negative_values() {
    assert_eq!(U32::from_i32(5).as_u32(), 5);
    assert_eq!(U32::from_i32(-1).as_u32(), u32::MAX);
}

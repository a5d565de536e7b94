use madder_core::api_server::{Handler, Method};
use madder_core::component::{Component, ComponentExt, Effect, HaveComponent, ImageComponent, VideoComponent};
use madder_core::json::Json;
use madder_core::madder::{Madder, ProjectUsecase};
use madder_core::project::{Layer, Project};
use madder_core::repository::{Entity, Repository, RepositoryHashMapImpl};
use madder_core::time::ClockTime;

fn video(start_ms: u64, length_ms: u64, path: &str) -> ComponentExt {
    ComponentExt::Video(VideoComponent {
        component: Component {
            start_time: ClockTime::from_mseconds(start_ms),
            length: ClockTime::from_mseconds(length_ms),
            attributes: RepositoryHashMapImpl::new(),
            effect: vec![],
        },
        data_path: path.to_string(),
    })
}

fn image(start_ms: u64, length_ms: u64, path: &str) -> ComponentExt {
    ComponentExt::Image(ImageComponent {
        component: Component {
            start_time: ClockTime::from_mseconds(start_ms),
            length: ClockTime::from_mseconds(length_ms),
            attributes: RepositoryHashMapImpl::new(),
            effect: vec![],
        },
        data_path: path.to_string(),
    })
}

fn path_of(c: &ComponentExt) -> &str {
    match c {
        ComponentExt::Video(v) => &v.data_path,
        ComponentExt::Image(i) => &i.data_path,
    }
}

fn only_key(app: &Madder) -> String {
    let listed = app.mapper_list_component();
    assert_eq!(listed.len(), 1);
    listed[0].id.to_string()
}

#[test]
fn new_editor_is_empty() {
    let app = Madder::new();
    assert_eq!(app.project.size, (640, 480));
    assert_eq!(app.project.length.nanos, 100_000_000);
    assert_eq!(app.project.layers.len(), 1);
    assert!(app.mapper_list_component().is_empty());
    assert!(app.mapper_list_effect().is_empty());
}

#[test]
fn created_component_is_stored_and_layered() {
    let mut app = Madder::new();
    app.mapper_create_component(video(0, 100, "a.mp4")).unwrap();
    let key = only_key(&app);
    assert_eq!(app.project.get_components_at_layer(0), &vec![key.clone()]);
    let (h, params) = app.server.route(Method::Get, &format!("/component/{}", key)).unwrap();
    assert_eq!(h, Handler::GetComponent);
    assert_eq!(path_of(app.mapper_get_component(&params).unwrap()), "a.mp4");
}

#[test]
fn attributes_read_back_what_was_written() {
    let mut app = Madder::new();
    app.mapper_create_component(image(0, 100, "b.png")).unwrap();
    let key = only_key(&app);
    let (_, params) = app.server.route(Method::Update, &format!("/component/{}/attribute/title", key)).unwrap();
    app.mapper_update_component_attribute(&params, Json::Str("hello".to_string())).unwrap();
    let (_, params) = app.server.route(Method::Get, &format!("/component/{}/attribute/title", key)).unwrap();
    match app.mapper_get_component_attribute(&params).unwrap() {
        Json::Str(s) => assert_eq!(s, "hello"),
        _ => panic!("expected a string attribute"),
    }
}

#[test]
fn effects_are_created_and_inserted_in_order() {
    let mut app = Madder::new();
    app.mapper_create_component(video(0, 100, "a.mp4")).unwrap();
    let key = only_key(&app);
    let (_, params) = app.server.route(Method::Create, &format!("/component/{}/effect", key)).unwrap();
    app.mapper_create_component_effect(&params, Ok(Effect {})).unwrap();
    app.mapper_create_component_effect(&params, Ok(Effect {})).unwrap();
    let (_, params) = app.server.route(Method::Create, &format!("/component/{}/effect/0", key)).unwrap();
    app.mapper_insert_component_effect(&params, Ok(Effect {})).unwrap();
    assert_eq!(app.mapper_list_effect().len(), 3);
    let (_, params) = app.server.route(Method::Get, &format!("/component/{}/effect", key)).unwrap();
    assert_eq!(app.mapper_list_component_effect(&params).unwrap().len(), 3);
    let (_, params) = app.server.route(Method::Get, &format!("/component/{}/effect/2", key)).unwrap();
    assert!(app.mapper_get_component_effect(&params).is_ok());
}

#[test]
fn effect_read_errors_are_handed_on() {
    let mut app = Madder::new();
    app.mapper_create_component(video(0, 100, "a.mp4")).unwrap();
    let key = only_key(&app);
    let (_, params) = app.server.route(Method::Create, &format!("/component/{}/effect", key)).unwrap();
    let r = app.mapper_create_component_effect(&params, Err("bad effect".to_string()));
    assert_eq!(r.unwrap_err(), "bad effect");
    assert!(app.mapper_list_effect().is_empty());
    let (_, params) = app.server.route(Method::Get, "/component").unwrap();
    assert_eq!(app.mapper_get_component(&params).err().unwrap(), "No such parameter: component_id");
}

#[test]
fn update_component_changes_times() {
    let mut app = Madder::new();
    app.mapper_create_component(video(0, 100, "a.mp4")).unwrap();
    let key = only_key(&app);
    let (_, params) = app.server.route(Method::Update, &format!("/component/{}", key)).unwrap();
    app.mapper_update_component(&params, &vec![("start_time".to_string(), ClockTime::from_mseconds(40))]).unwrap();
    let c = app.component_repo.get(&key);
    assert_eq!(c.component().start_time.nanos, 40_000_000);
    assert_eq!(c.component().length.nanos, 100_000_000);
}

#[test]
fn deleted_component_is_gone() {
    let mut app = Madder::new();
    app.mapper_create_component(video(0, 100, "a.mp4")).unwrap();
    let key = only_key(&app);
    let (_, params) = app.server.route(Method::Delete, &format!("/component/{}", key)).unwrap();
    app.mapper_delete_component(&params).unwrap();
    assert!(app.mapper_list_component().is_empty());
}

#[test]
fn screen_shows_components_in_time() {
    let mut app = Madder::new();
    app.mapper_create_component(video(0, 100, "first.mp4")).unwrap();
    app.mapper_create_component(image(50, 100, "second.png")).unwrap();
    app.project.insert_layer(0);
    app.mapper_create_component(image(0, 10, "top.png")).unwrap();
    let at = |ms: u64| -> Vec<String> {
        app.components_on_screen(ClockTime::from_mseconds(ms)).iter().map(|c| path_of(c).to_string()).collect()
    };
    assert_eq!(at(0), vec!["first.mp4", "top.png"]);
    assert_eq!(at(10), vec!["first.mp4", "top.png"]);
    assert_eq!(at(60), vec!["first.mp4", "second.png"]);
    assert_eq!(at(100), vec!["first.mp4", "second.png"]);
    assert_eq!(at(150), vec!["second.png"]);
    assert!(at(151).is_empty());
}

#[test]
fn usecase_adds_to_repository_only() {
    let mut app = Madder::new();
    ProjectUsecase::add_component(&mut app, video(0, 1, "x.mp4"));
    assert_eq!(app.mapper_list_component().len(), 1);
    assert!(app.project.get_components_at_layer(0).is_empty());
}

#[test]
fn from_yaml_replaces_project_and_tables() {
    let mut app = Madder::new();
    app.mapper_create_component(video(0, 10, "gone.mp4")).unwrap();
    app.project.position = ClockTime::from_mseconds(7);
    let mut layer = Layer::new();
    layer.push("c1".to_string());
    let project = Project::new(1280, 720, ClockTime::from_mseconds(5000), ClockTime::from_mseconds(99));
    let project = Project { layers: vec![layer], ..project };
    app.from_yaml(
        project,
        vec![Entity::new("c1".to_string(), image(0, 20, "kept.png"))],
        vec![Entity::new("e1".to_string(), Effect {})],
    );
    assert_eq!(app.project.size, (1280, 720));
    assert_eq!(app.project.length.nanos, 5_000_000_000);
    assert_eq!(app.project.position.nanos, 7_000_000);
    assert_eq!(app.project.get_components_at_layer(0), &vec!["c1".to_string()]);
    let listed = app.mapper_list_component();
    assert_eq!(listed.len(), 1);
    assert_eq!(listed[0].id, "c1");
    assert_eq!(path_of(listed[0].entity), "kept.png");
    let effects = app.mapper_list_effect();
    assert_eq!(effects.len(), 1);
    assert_eq!(effects[0].id, "e1");
}

#[test]
fn handlers_keep_size_length_position() {
    let mut app = Madder::new();
    app.mapper_create_component(video(0, 100, "a.mp4")).unwrap();
    let key = only_key(&app);
    let (_, params) = app.server.route(Method::Create, &format!("/component/{}/effect", key)).unwrap();
    app.mapper_create_component_effect(&params, Ok(Effect {})).unwrap();
    let (_, params) = app.server.route(Method::Update, &format!("/component/{}", key)).unwrap();
    app.mapper_update_component(&params, &vec![("length".to_string(), ClockTime::from_mseconds(5))]).unwrap();
    assert_eq!(app.project.size, (640, 480));
    assert_eq!(app.project.length.nanos, 100_000_000);
    assert_eq!(app.project.position.nanos, 0);
    assert_eq!(app.server.route(Method::Get, "/component").unwrap().0, Handler::ListComponent);
}

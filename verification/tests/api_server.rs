use madder_core::api_server::{is_routable, ApiServer, Handler, Method};

#[test]
fn routes_static_paths() {
    let server = ApiServer::new();
    let (h, _) = server.route(Method::Get, "/component").unwrap();
    assert_eq!(h, Handler::ListComponent);
    let (h, _) = server.route(Method::Create, "/component").unwrap();
    assert_eq!(h, Handler::CreateComponent);
    let (h, _) = server.route(Method::Get, "/effect").unwrap();
    assert_eq!(h, Handler::ListEffect);
    let (h, _) = server.route(Method::Update, "/project/yaml").unwrap();
    assert_eq!(h, Handler::UpdateProjectYaml);
}

#[test]
fn routes_capture_parameters() {
    let server = ApiServer::new();
    let (h, params) = server.route(Method::Get, "/component/abc/attribute/color").unwrap();
    assert_eq!(h, Handler::GetComponentAttribute);
    assert_eq!(params.find("component_id").unwrap(), "abc");
    assert_eq!(params.find("key").unwrap(), "color");
    assert_eq!(params.find("nothing").unwrap_err(), "No such parameter: nothing");

    let (h, params) = server.route(Method::Create, "/component/c1/effect/3").unwrap();
    assert_eq!(h, Handler::InsertComponentEffect);
    assert_eq!(params.find_as_usize("index").unwrap(), 3);

    let (h, params) = server.route(Method::Get, "/screen/250").unwrap();
    assert_eq!(h, Handler::GetScreen);
    assert_eq!(params.find_as_u64("time").unwrap(), 250);
}

#[test]
fn same_path_differs_by_method() {
    let server = ApiServer::new();
    assert_eq!(server.route(Method::Get, "/component/x").unwrap().0, Handler::GetComponent);
    assert_eq!(server.route(Method::Update, "/component/x").unwrap().0, Handler::UpdateComponent);
    assert_eq!(server.route(Method::Delete, "/component/x").unwrap().0, Handler::DeleteComponent);
}

#[test]
fn unknown_routes_are_errors() {
    let server = ApiServer::new();
    assert!(server.route(Method::Delete, "/component").is_err());
    assert!(server.route(Method::Get, "/nothing/here").is_err());
    assert!(server.route(Method::Update, "/effect").is_err());
}

#[test]
fn bad_numbers_give_parse_errors() {
    let server = ApiServer::new();
    let (_, params) = server.route(Method::Get, "/component/c/effect/x1").unwrap();
    assert_eq!(params.find_as_usize("index").unwrap_err(), "invalid digit found in string");
    assert_eq!(params.find_as_u64("missing").unwrap_err(), "No such parameter: missing");
}

#[test]
fn handler_names_match_registration() {
    assert_eq!(Handler::CreateEffectIntermed.name(), "mapper_create_effet_intermed");
    assert_eq!(Handler::GetScreen.name(), "mapper_get_screen");
}

#[test]
fn routable_paths_have_no_nul_and_ascii_before_last_slash() {
    assert!(is_routable("/component/abc/effect/0"));
    assert!(is_routable(""));
    assert!(is_routable("/effect/\u{e9}"));
    assert!(is_routable("/component/x/attribute/caf\u{e9}"));
    assert!(!is_routable("/component/\u{e9}/effect/0"));
    assert!(!is_routable("/component/a\u{0}b"));
    assert!(!is_routable("/effect/\u{0}"));
    assert!(is_routable("/screen/\u{7f}"));
}

#[test]
fn non_ascii_last_segment_is_captured() {
    let server = ApiServer::new();
    let (h, params) = server.route(Method::Get, "/effect/\u{e9}t\u{e9}").unwrap();
    assert_eq!(h, Handler::GetEffect);
    assert_eq!(params.find("effect_id").unwrap(), "\u{e9}t\u{e9}");
}

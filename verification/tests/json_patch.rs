use madder_core::json::Json;
use madder_core::json_patch::{AsIndexRange, IndexRange, Operation, Pointer};

fn tokens(p: &Pointer) -> Vec<&str> {
    p.0.iter().map(|s| s.as_str()).collect()
}

fn obj(fields: Vec<(&str, Json)>) -> Json {
    Json::Object(fields.into_iter().map(|(k, v)| (k.to_string(), v)).collect())
}

fn s(t: &str) -> Json {
    Json::Str(t.to_string())
}

#[test]
fn index_range_reads_dash_as_all() {
    assert_eq!(IndexRange::from_str("-"), Some(IndexRange::All));
}

#[test]
fn index_range_reads_numbers() {
    assert_eq!(IndexRange::from_str("0"), Some(IndexRange::Index(0)));
    assert_eq!(IndexRange::from_str("42"), Some(IndexRange::Index(42)));
    assert_eq!(IndexRange::from_str("+7"), Some(IndexRange::Index(7)));
    assert_eq!(IndexRange::from_str("-1"), Some(IndexRange::ReverseIndex(1)));
    assert_eq!(IndexRange::from_str("-2147483647"), Some(IndexRange::ReverseIndex(2147483647)));
}

#[test]
fn index_range_rejects_other_text() {
    assert_eq!(IndexRange::from_str(""), None);
    assert_eq!(IndexRange::from_str("x"), None);
    assert_eq!(IndexRange::from_str("1a"), None);
    assert_eq!(IndexRange::from_str("--"), None);
    assert_eq!(IndexRange::from_str("2147483648"), None);
}

#[test]
fn as_index_counts_from_front_and_back() {
    let v = vec![10, 20, 30];
    assert_eq!(*v.as_index(IndexRange::Index(0)), 10);
    assert_eq!(*v.as_index(IndexRange::Index(2)), 30);
    assert_eq!(*v.as_index(IndexRange::ReverseIndex(1)), 30);
    assert_eq!(*v.as_index(IndexRange::ReverseIndex(3)), 10);
}

#[test]
fn as_index_mut_changes_one_element() {
    let mut v = vec![10, 20, 30];
    *v.as_index_mut(IndexRange::ReverseIndex(2)) = 99;
    assert_eq!(v, vec![10, 99, 30]);
    *v.as_index_mut(IndexRange::Index(0)) = 1;
    assert_eq!(v, vec![1, 99, 30]);
}

#[test]
fn pointer_splits_and_unescapes() {
    assert_eq!(tokens(&Pointer::from_str("/a~1b/c~0d")), vec!["a/b", "c~d"]);
    assert_eq!(tokens(&Pointer::from_str("/foo/0")), vec!["foo", "0"]);
    assert_eq!(tokens(&Pointer::from_str("/~01")), vec!["~1"]);
}

#[test]
fn pointer_edge_cases() {
    assert_eq!(tokens(&Pointer::from_str("")), Vec::<&str>::new());
    assert_eq!(tokens(&Pointer::from_str("/")), vec![""]);
    assert_eq!(tokens(&Pointer::from_str("a/b")), vec!["b"]);
    assert_eq!(tokens(&Pointer::from_str("//")), vec!["", ""]);
}

#[test]
fn pointer_token_count_is_slash_count() {
    for text in ["", "/", "/a/b/c", "x/y", "///", "/a~1b"] {
        assert_eq!(Pointer::from_str(text).0.len(), text.matches('/').count());
    }
}

#[test]
fn pointers_add_up_like_their_text() {
    let a = Pointer::from_str("/x/y~1z");
    let b = Pointer::from_str("/w");
    let joined = Pointer::from_str("/x/y~1z/w");
    assert_eq!(tokens(&(a.clone() + b.clone())), tokens(&joined));
    assert_eq!(tokens(&a.concat(b)), vec!["x", "y/z", "w"]);
}

#[test]
fn reads_add_operation() {
    let op = Operation::new_from_json(obj(vec![
        ("op", s("add")),
        ("path", s("/a/b")),
        ("value", Json::PosInt(3)),
    ]))
    .unwrap();
    match &op {
        Operation::Add(p, Json::PosInt(3)) => assert_eq!(tokens(p), vec!["a", "b"]),
        _ => panic!("expected an add operation"),
    }
    assert_eq!(tokens(&op.get_path()), vec!["a", "b"]);
}

#[test]
fn reads_each_operation_kind() {
    let remove = Operation::new_from_json(obj(vec![("op", s("remove")), ("path", s("/x"))])).unwrap();
    assert!(matches!(remove, Operation::Remove(_)));
    let copy = Operation::new_from_json(obj(vec![("op", s("copy")), ("path", s("/x")), ("from", s("/y"))])).unwrap();
    match &copy {
        Operation::Copy(p, f) => {
            assert_eq!(tokens(p), vec!["x"]);
            assert_eq!(tokens(f), vec!["y"]);
        }
        _ => panic!("expected a copy operation"),
    }
    let mv = Operation::new_from_json(obj(vec![("from", s("/y")), ("op", s("move")), ("path", s("/x"))])).unwrap();
    assert!(matches!(mv, Operation::Move(_, _)));
    let test = Operation::new_from_json(obj(vec![("op", s("test")), ("path", s("/x")), ("value", Json::Null)])).unwrap();
    assert!(matches!(test, Operation::Test(_, Json::Null)));
    let replace =
        Operation::new_from_json(obj(vec![("op", s("replace")), ("path", s("/x")), ("value", Json::Bool(true))])).unwrap();
    assert!(matches!(replace, Operation::Replace(_, Json::Bool(true))));
    assert_eq!(tokens(&replace.get_path()), vec!["x"]);
}

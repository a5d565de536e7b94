use madder_core::json::Json;
use madder_core::json_api::{Document, Payload, PrimaryData, Resource};

fn article(id: &str) -> Resource {
    Resource { id: id.to_string(), type_: "articles".to_string(), attributes: vec![], relationships: vec![] }
}

#[test]
fn new_document_has_only_its_payload() {
    let doc = Document::new(Payload::Data(PrimaryData::Single(article("1"))));
    assert!(matches!(doc.meta, Json::Null));
    assert!(matches!(doc.jsonapi, Json::Null));
    assert!(doc.links.is_none());
    assert!(doc.included.is_empty());
    match doc.payload {
        Payload::Data(PrimaryData::Single(r)) => {
            assert_eq!(r.id, "1");
            assert_eq!(r.type_, "articles");
        }
        _ => panic!("payload changed"),
    }
}

#[test]
fn primary_data_emptiness() {
    assert!(PrimaryData::default().is_empty());
    assert!(PrimaryData::Multiple(vec![]).is_empty());
    assert!(!PrimaryData::Multiple(vec![article("1"), article("2")]).is_empty());
    assert!(!PrimaryData::Single(article("1")).is_empty());
}

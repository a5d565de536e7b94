use vstd::prelude::*;
use crate::json::Json;

verus! {

/// A JSON:API document: its primary data or error, and the optional
/// members beside it.
pub struct Document {
    pub payload: Payload,
    pub meta: Json,
    pub jsonapi: Json,
    pub links: Option<Links>,
    pub included: Vec<Resource>,
}

/// What a document carries: its primary data, or an error.
pub enum Payload {
    Data(PrimaryData),
    Error(Json),
}

/// The primary data of a document or a relationship: one resource or a
/// list of them.
pub enum PrimaryData {
    Single(Resource),
    Multiple(Vec<Resource>),
}

/// A resource object: its identity, attributes and relationships, each
/// member by name.
pub struct Resource {
    pub id: String,
    pub type_: String,
    pub attributes: Vec<(String, Json)>,
    pub relationships: Vec<(String, Relationship)>,
}

/// A relationship of a resource: its links, the resources it points at,
/// and its meta links.
pub struct Relationship {
    pub links: Vec<(String, Link)>,
    pub data: PrimaryData,
    pub meta: Vec<(String, Link)>,
}

/// The links member of a document, by name.
pub struct Links {
    pub links: Vec<(String, Link)>,
}

/// A link: a bare URL, or an object with a URL and meta information.
pub enum Link {
    URL(String),
    Object { href: String, meta: Json },
}

impl Document {
    /// A document carrying `payload` and nothing else.
    pub fn new(payload: Payload) -> (r: Document)
        ensures
            r.payload == payload,
            r.meta == Json::Null,
            r.jsonapi == Json::Null,
            r.links is None,
            r.included@ == Seq::<Resource>::empty(),
    {
        Document { payload: payload, meta: Json::Null, jsonapi: Json::Null, links: None, included: Vec::new() }
    }
}

impl PrimaryData {
    /// Whether this is an empty list of resources (a single resource is
    /// never empty).
    pub fn is_empty(&self) -> (r: bool)
        ensures
            r == (self matches PrimaryData::Multiple(v) && v@.len() == 0),
    {
        match self {
            PrimaryData::Multiple(v) => v.len() == 0,
            PrimaryData::Single(_) => false,
        }
    }
}

impl Default for PrimaryData {
    /// No resource: an empty list.
    fn default() -> (r: PrimaryData)
        ensures
            r matches PrimaryData::Multiple(v) && v@.len() == 0,
    {
        PrimaryData::Multiple(Vec::new())
    }
}

} // verus!

use vstd::prelude::*;
use crate::text::str_equal;

verus! {

/// A JSON value as the library holds it. Numbers keep the three forms
/// that a JSON number can take: a non-negative integer, a negative
/// integer, or a double, which is held by its IEEE-754 bit pattern.
/// The fields of an object keep their order; a key is looked up at its
/// first occurrence.
#[derive(Debug)]
pub enum Json {
    Null,
    Bool(bool),
    PosInt(u64),
    NegInt(i64),
    FloatBits(u64),
    Str(String),
    Array(Vec<Json>),
    Object(Vec<(String, Json)>),
}

/// Whether position `i` holds the first field named `key`.
pub open spec fn is_first_field(fields: Seq<(String, Json)>, key: Seq<char>, i: int) -> bool {
    &&& 0 <= i < fields.len()
    &&& fields[i].0@ == key
    &&& forall|j: int| 0 <= j < i ==> (#[trigger] fields[j]).0@ != key
}

/// The value of the first field named `key`, if there is one.
pub open spec fn field_value(fields: Seq<(String, Json)>, key: Seq<char>) -> Option<Json> {
    if exists|i: int| is_first_field(fields, key, i) {
        Some(fields[choose|i: int| is_first_field(fields, key, i)].1)
    } else {
        None
    }
}

/// Finds the first field named `key`.
pub fn find_field(fields: &Vec<(String, Json)>, key: &str) -> (r: Option<usize>)
    ensures
        match r {
            Some(i) => is_first_field(fields@, key@, i as int),
            None => forall|j: int| 0 <= j < fields@.len() ==> (#[trigger] fields@[j]).0@ != key@,
        },
{
    let mut i: usize = 0;
    while i < fields.len()
        invariant
            i <= fields.len(),
            forall|j: int| 0 <= j < i ==> (#[trigger] fields@[j]).0@ != key@,
        decreases fields.len() - i,
    {
        if str_equal(fields[i].0.as_str(), key) {
            return Some(i);
        }
        i = i + 1;
    }
    None
}

/// The first field named `key` is unique at its position.
pub proof fn lemma_first_field_unique(fields: Seq<(String, Json)>, key: Seq<char>, i: int, k: int)
    requires
        is_first_field(fields, key, i),
        is_first_field(fields, key, k),
    ensures
        i == k,
{
    if i < k {
        assert(fields[i].0@ != key);
    } else if k < i {
        assert(fields[k].0@ != key);
    }
}

impl Json {
    /// The text of a JSON string, or `None` for any other value.
    pub fn as_str(&self) -> (r: Option<&str>)
        ensures
            match self {
                Json::Str(s) => r matches Some(t) && t@ == s@,
                _ => r is None,
            },
    {
        match self {
            Json::Str(s) => Some(s.as_str()),
            _ => None,
        }
    }

    /// The value of the first field named `key`, when this is an object.
    pub fn get(&self, key: &str) -> (r: Option<&Json>)
        ensures
            match self {
                Json::Object(fields) => match r {
                    Some(v) => field_value(fields@, key@) == Some(*v),
                    None => field_value(fields@, key@) is None,
                },
                _ => r is None,
            },
    {
        match self {
            Json::Object(fields) => {
                match find_field(fields, key) {
                    Some(i) => {
                        proof {
                            let k = choose|k: int| is_first_field(fields@, key@, k);
                            lemma_first_field_unique(fields@, key@, i as int, k);
                        }
                        Some(&fields[i].1)
                    },
                    None => None,
                }
            },
            _ => None,
        }
    }
}

} // verus!

//! JSON documents as the library reads them: the members of a top-level
//! object, with the value of each boolean or string member.
use vstd::prelude::*;
use vstd::string::StringExecFns;
use serde_json::Value;
use crate::text::same_text;

verus! {

/// A member of a JSON object, as the library reads it.
pub enum JsonScalar {
    Bool(bool),
    Text(String),
    /// `null`, a number, an array or an object.
    Other,
}

/// A JSON document, as the library reads it: the members of an object,
/// in the order `serde_json`'s map gives them, or any other value.
pub enum JsonDoc {
    Object(Vec<(String, JsonScalar)>),
    Other,
}

/// The view of a member.
pub enum ScalarView {
    Bool(bool),
    Text(Seq<char>),
    Other,
}

/// The view of a document.
pub enum DocView {
    Object(Seq<(Seq<char>, ScalarView)>),
    Other,
}

impl View for JsonScalar {
    type V = ScalarView;

    open spec fn view(&self) -> ScalarView {
        match self {
            JsonScalar::Bool(b) => ScalarView::Bool(*b),
            JsonScalar::Text(s) => ScalarView::Text(s@),
            JsonScalar::Other => ScalarView::Other,
        }
    }
}

impl View for JsonDoc {
    type V = DocView;

    open spec fn view(&self) -> DocView {
        match self {
            JsonDoc::Object(ms) => DocView::Object(
                ms@.map_values(|m: (String, JsonScalar)| (m.0@, m.1@)),
            ),
            JsonDoc::Other => DocView::Other,
        }
    }
}

/// What `serde_json::from_str` reads in `text` as a `serde_json::Value`:
/// `None` when the text is not JSON.
pub uninterp spec fn json_doc(text: Seq<char>) -> Option<DocView>;

/// `serde_json::from_str::<serde_json::Value>`, its result taken apart one
/// variant at a time. The result is a function of the text alone; what the
/// JSON grammar accepts is not restated here.
#[verifier::external_body]
pub(crate) fn parse_json(text: &str) -> (r: Option<JsonDoc>)
    ensures
        match r {
            Some(d) => json_doc(text@) == Some(d@),
            None => json_doc(text@) is None,
        },
{
    match serde_json::from_str::<Value>(text) {
        Ok(Value::Object(map)) => Some(JsonDoc::Object(map.into_iter().map(|(k, v)| (k, match v {
            Value::Bool(b) => JsonScalar::Bool(b),
            Value::String(s) => JsonScalar::Text(s),
            Value::Null | Value::Number(_) | Value::Array(_) | Value::Object(_) => JsonScalar::Other,
        })).collect())),
        Ok(Value::Null | Value::Bool(_) | Value::Number(_) | Value::String(_) | Value::Array(_)) => Some(JsonDoc::Other),
        Err(_) => None,
    }
}

/// The member named `key` of a document (`Value::get`): `None` for a
/// document that is not an object or has no such member.
pub open spec fn member(d: DocView, key: Seq<char>) -> Option<ScalarView> {
    match d {
        DocView::Object(ms) => if exists|i: int| 0 <= i < ms.len() && (#[trigger] ms[i]).0 == key {
            let i = choose|i: int| 0 <= i < ms.len() && (#[trigger] ms[i]).0 == key && forall|j: int|
                0 <= j < i ==> (#[trigger] ms[j]).0 != key;
            Some(ms[i].1)
        } else {
            None
        },
        DocView::Other => None,
    }
}

/// The boolean member `key` of a document (`Value::get`, then
/// `Value::as_bool`).
pub open spec fn bool_member(d: DocView, key: Seq<char>) -> Option<bool> {
    match member(d, key) {
        Some(ScalarView::Bool(b)) => Some(b),
        _ => None,
    }
}

/// The string member `key` of a document (`Value::get`, then
/// `Value::as_str`).
pub open spec fn text_member(d: DocView, key: Seq<char>) -> Option<Seq<char>> {
    match member(d, key) {
        Some(ScalarView::Text(s)) => Some(s),
        _ => None,
    }
}

/// The position of the first member named `key`, if there is one.
fn member_index(ms: &Vec<(String, JsonScalar)>, key: &str) -> (r: Option<usize>)
    ensures
        match r {
            Some(i) => i < ms.len() && ms@[i as int].0@ == key@ && forall|j: int|
                0 <= j < i ==> (#[trigger] ms@[j]).0@ != key@,
            None => forall|j: int| 0 <= j < ms.len() ==> (#[trigger] ms@[j]).0@ != key@,
        },
{
    let mut i: usize = 0;
    while i < ms.len()
        invariant
            i <= ms.len(),
            forall|j: int| 0 <= j < i ==> (#[trigger] ms@[j]).0@ != key@,
        decreases ms.len() - i,
    {
        if same_text(ms[i].0.as_str(), key) {
            return Some(i);
        }
        i = i + 1;
    }
    None
}

/// Relates a member found by position to `member`.
proof fn lemma_member_at(ms: Seq<(String, JsonScalar)>, key: Seq<char>, found: Option<usize>)
    requires
        match found {
            Some(i) => i < ms.len() && ms[i as int].0@ == key && forall|j: int|
                0 <= j < i ==> (#[trigger] ms[j]).0@ != key,
            None => forall|j: int| 0 <= j < ms.len() ==> (#[trigger] ms[j]).0@ != key,
        },
    ensures
        member(DocView::Object(ms.map_values(|m: (String, JsonScalar)| (m.0@, m.1@))), key) == match found {
            Some(i) => Some(ms[i as int].1@),
            None => None::<ScalarView>,
        },
{
    let vs = ms.map_values(|m: (String, JsonScalar)| (m.0@, m.1@));
    match found {
        Some(i) => {
            assert(vs[i as int].0 == key);
            let c = choose|c: int| 0 <= c < vs.len() && (#[trigger] vs[c]).0 == key && forall|j: int|
                0 <= j < c ==> (#[trigger] vs[j]).0 != key;
            assert(0 <= i < vs.len() && vs[i as int].0 == key && forall|j: int|
                0 <= j < i ==> (#[trigger] vs[j]).0 != key);
            if c < i {
                assert(vs[c].0 == ms[c].0@);
            } else if c > i {
                assert(vs[i as int].0 != key);
            }
        },
        None => {
            assert forall|j: int| 0 <= j < vs.len() implies (#[trigger] vs[j]).0 != key by {
                assert(vs[j].0 == ms[j].0@);
            }
        },
    }
}

/// The boolean member `key` of a document.
pub fn bool_member_of(d: &JsonDoc, key: &str) -> (r: Option<bool>)
    ensures
        r == bool_member(d@, key@),
{
    match d {
        JsonDoc::Object(ms) => {
            let found = member_index(ms, key);
            proof {
                lemma_member_at(ms@, key@, found);
            }
            match found {
                Some(i) => match &ms[i].1 {
                    JsonScalar::Bool(b) => Some(*b),
                    _ => None,
                },
                None => None,
            }
        },
        JsonDoc::Other => None,
    }
}

/// The string member `key` of a document.
pub fn text_member_of(d: &JsonDoc, key: &str) -> (r: Option<String>)
    ensures
        match r {
            Some(s) => text_member(d@, key@) == Some(s@),
            None => text_member(d@, key@) is None,
        },
{
    match d {
        JsonDoc::Object(ms) => {
            let found = member_index(ms, key);
            proof {
                lemma_member_at(ms@, key@, found);
            }
            match found {
                Some(i) => match &ms[i].1 {
                    JsonScalar::Text(s) => Some(s.clone()),
                    _ => None,
                },
                None => None,
            }
        },
        JsonDoc::Other => None,
    }
}

} // verus!

//! JSON documents as values of the library.
//!
//! Reading JSON text is left to `serde_json`; what it hands back is turned
//! into a [`Json`], which the rest of the library can take apart.

use vstd::prelude::*;
use crate::error::LoadError;
use crate::lookup::first_position;
use crate::lookup::lemma_first_position_is;

verus! {

/// A JSON document.
#[derive(Debug, PartialEq, Eq)]
pub enum Json {
    Null,
    Bool(bool),
    /// A number. Its value is not kept: no maze holds one.
    Number,
    Text(String),
    Array(Vec<Json>),
    /// An object: its members, each a name and a value, in order.
    Object(Vec<(String, Json)>),
}

/// What a [`Json`] is in contracts.
pub enum JsonView {
    Null,
    Bool(bool),
    Number,
    Text(Seq<char>),
    Array(Seq<JsonView>),
    Object(Seq<(Seq<char>, JsonView)>),
}

impl View for Json {
    type V = JsonView;

    open spec fn view(&self) -> JsonView
        decreases self,
    {
        match self {
            Json::Null => JsonView::Null,
            Json::Bool(b) => JsonView::Bool(*b),
            Json::Number => JsonView::Number,
            Json::Text(text) => JsonView::Text(text@),
            Json::Array(items) => JsonView::Array(
                Seq::new(
                    items@.len(),
                    |i: int|
                        if 0 <= i < items@.len() {
                            items@[i]@
                        } else {
                            JsonView::Null
                        },
                ),
            ),
            Json::Object(members) => JsonView::Object(
                Seq::new(
                    members@.len(),
                    |i: int|
                        if 0 <= i < members@.len() {
                            (members@[i].0@, members@[i].1@)
                        } else {
                            (Seq::empty(), JsonView::Null)
                        },
                ),
            ),
        }
    }
}

/// The names of the members of an object, in the same order.
pub open spec fn member_names(members: Seq<(Seq<char>, JsonView)>) -> Seq<Seq<char>> {
    Seq::new(members.len(), |i: int| members[i].0)
}

impl JsonView {
    /// The value of the first member called `name`, where the document is
    /// an object that has one.
    pub open spec fn member(self, name: Seq<char>) -> Option<JsonView> {
        match self {
            JsonView::Object(members) => {
                if member_names(members).contains(name) {
                    Some(members[first_position(member_names(members), name)].1)
                } else {
                    None
                }
            },
            _ => None,
        }
    }
}

/// `serde_json::Value`, carried through as it is: nothing is known of what
/// is inside but through [`json_content`].
#[verifier::external_type_specification]
#[verifier::external_body]
pub struct ExValue(serde_json::Value);

/// `serde_json::Error`, carried through as it is.
#[verifier::external_type_specification]
#[verifier::external_body]
pub struct ExError(serde_json::Error);

/// The document that `serde_json::from_slice` reads from `text`, or `None`
/// where it reads none.
pub uninterp spec fn json_document(text: Seq<u8>) -> Option<JsonView>;

/// The document that a `serde_json::Value` holds.
pub uninterp spec fn json_content(value: serde_json::Value) -> JsonView;

/// Calls `serde_json::from_slice` for a `serde_json::Value`. What comes
/// back depends on the bytes alone: the value's content is the document
/// of `text`, and an error means that `text` has none.
#[verifier::external_body]
fn value_from_slice(text: &[u8]) -> (parsed: Result<serde_json::Value, serde_json::Error>)
    ensures
        match parsed {
            Ok(value) => json_document(text@) == Some(json_content(value)),
            Err(_) => json_document(text@) is None,
        },
{
    serde_json::from_slice::<serde_json::Value>(text)
}

/// The outermost layer of a `serde_json::Value`: which kind of document it
/// is, with what lies one level down still as `serde_json` holds it.
enum Layer<'a> {
    Null,
    Bool(bool),
    Number,
    Text(&'a String),
    Array(&'a Vec<serde_json::Value>),
    Object(Vec<(&'a String, &'a serde_json::Value)>),
}

/// The document that a layer stands for.
spec fn layer_content(layer: Layer) -> JsonView {
    match layer {
        Layer::Null => JsonView::Null,
        Layer::Bool(b) => JsonView::Bool(b),
        Layer::Number => JsonView::Number,
        Layer::Text(text) => JsonView::Text(text@),
        Layer::Array(items) => JsonView::Array(
            Seq::new(items@.len(), |i: int| json_content(items@[i])),
        ),
        Layer::Object(members) => JsonView::Object(
            Seq::new(members@.len(), |i: int| (members@[i].0@, json_content(*members@[i].1))),
        ),
    }
}

/// Tells the variants of a `serde_json::Value` apart. The content of the
/// value is what the layer stands for: a scalar is itself, an array holds
/// the contents of its items in order, and an object the names and contents
/// of its members in the order in which `serde_json::Map::iter` hands them
/// out.
#[verifier::external_body]
fn layer_of<'a>(value: &'a serde_json::Value) -> (layer: Layer<'a>)
    ensures
        layer_content(layer) == json_content(*value),
{
    match value {
        serde_json::Value::Null => Layer::Null,
        serde_json::Value::Bool(b) => Layer::Bool(*b),
        serde_json::Value::Number(_) => Layer::Number,
        serde_json::Value::String(text) => Layer::Text(text),
        serde_json::Value::Array(items) => Layer::Array(items),
        serde_json::Value::Object(members) => Layer::Object(members.iter().collect()),
    }
}

/// The document that `value` holds.
fn json_from_value(value: &serde_json::Value) -> (json: Json)
    ensures
        json@ == json_content(*value),
    decreases json_content(*value),
{
    match layer_of(value) {
        Layer::Null => Json::Null,
        Layer::Bool(b) => Json::Bool(b),
        Layer::Number => Json::Number,
        Layer::Text(text) => Json::Text(text.clone()),
        Layer::Array(items) => {
            let ghost contents = json_content(*value)->Array_0;
            let mut documents: Vec<Json> = Vec::new();
            let mut i: usize = 0;
            while i < items.len()
                invariant
                    i <= items.len(),
                    documents.len() == i,
                    json_content(*value) == JsonView::Array(contents),
                    contents.len() == items.len(),
                    forall|j: int| 0 <= j < items.len() ==> contents[j] == json_content(items@[j]),
                    forall|j: int| 0 <= j < i ==> documents@[j]@ == contents[j],
                decreases items.len() - i,
            {
                proof {
                    let whole = json_content(*value);
                    assert(decreases_to!(whole => whole->Array_0));
                    assert(decreases_to!(whole->Array_0 => (whole->Array_0)[i as int]));
                }
                documents.push(json_from_value(&items[i]));
                i += 1;
            }
            let json = Json::Array(documents);
            proof {
                reveal_with_fuel(<Json as View>::view, 2);
                assert(json@->Array_0 =~= contents);
            }
            json
        },
        Layer::Object(members) => {
            let ghost contents = json_content(*value)->Object_0;
            let mut documents: Vec<(String, Json)> = Vec::new();
            let mut i: usize = 0;
            while i < members.len()
                invariant
                    i <= members.len(),
                    documents.len() == i,
                    json_content(*value) == JsonView::Object(contents),
                    contents.len() == members.len(),
                    forall|j: int|
                        0 <= j < members.len() ==> contents[j] == (
                            members@[j].0@,
                            json_content(*members@[j].1),
                        ),
                    forall|j: int|
                        0 <= j < i ==> (documents@[j].0@, documents@[j].1@) == contents[j],
                decreases members.len() - i,
            {
                let name = members[i].0.clone();
                proof {
                    let whole = json_content(*value);
                    assert(decreases_to!(whole => whole->Object_0));
                    assert(decreases_to!(whole->Object_0 => (whole->Object_0)[i as int]));
                    assert(decreases_to!((whole->Object_0)[i as int] => (whole->Object_0)[i as int].1));
                }
                let document = json_from_value(members[i].1);
                documents.push((name, document));
                i += 1;
            }
            let json = Json::Object(documents);
            proof {
                reveal_with_fuel(<Json as View>::view, 2);
                assert(json@->Object_0 =~= contents);
            }
            json
        },
    }
}

impl Json {
    /// Reads a document from JSON text.
    pub fn parse(text: &[u8]) -> (parsed: Result<Json, LoadError>)
        ensures
            match parsed {
                Ok(json) => json_document(text@) == Some(json@),
                Err(error) => error == LoadError::Malformed && json_document(text@) is None,
            },
    {
        match value_from_slice(text) {
            Ok(value) => Ok(json_from_value(&value)),
            Err(_) => Err(LoadError::Malformed),
        }
    }

    /// The value of the first member called `name`, where the document is
    /// an object that has one.
    pub fn get(&self, name: &str) -> (found: Option<&Json>)
        ensures
            match found {
                Some(value) => self@.member(name@) == Some(value@),
                None => self@.member(name@) is None,
            },
    {
        match self {
            Json::Object(members) => {
                let wanted: String = name.to_owned();
                let ghost entries = self@->Object_0;
                let ghost names = member_names(entries);
                proof {
                    reveal_with_fuel(<Json as View>::view, 2);
                }
                let mut i: usize = 0;
                while i < members.len()
                    invariant
                        i <= members.len(),
                        wanted@ == name@,
                        self@ == JsonView::Object(entries),
                        names == member_names(entries),
                        entries.len() == members.len(),
                        forall|j: int|
                            0 <= j < members.len() ==> entries[j] == (
                                members@[j].0@,
                                members@[j].1@,
                            ),
                        forall|j: int| 0 <= j < i ==> names[j] != name@,
                    decreases members.len() - i,
                {
                    if members[i].0 == wanted {
                        proof {
                            lemma_first_position_is(names, name@, i as int);
                        }
                        return Some(&members[i].1);
                    }
                    i += 1;
                }
                None
            },
            _ => None,
        }
    }
}

} // verus!

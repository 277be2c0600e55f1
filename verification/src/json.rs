//! JSON documents: the tree that the registry code reads, and the calls
//! into `serde_json` that parse and print one.

use vstd::prelude::*;
use crate::text::{same_text, texts};

verus! {

/// A JSON document as a tree of values: the model of a `Json`.
pub enum JsonTree {
    Null,
    Bool(bool),
    /// A number. Its value is not part of the model.
    Number,
    Text(Seq<char>),
    Array(Seq<JsonTree>),
    /// The members of an object, each with its key, in their order.
    Object(Seq<(Seq<char>, JsonTree)>),
}

/// A JSON document.
#[derive(Debug, PartialEq, Eq)]
pub enum Json {
    Null,
    Bool(bool),
    /// A number. Its value is not kept: no rule of the registry reads one.
    Number,
    Text(String),
    Array(Vec<Json>),
    /// The members of an object, each with its key, in their order.
    Object(Vec<(String, Json)>),
}

impl View for Json {
    type V = JsonTree;

    open spec fn view(&self) -> JsonTree {
        self.tree()
    }
}

impl Json {
    /// The tree of the document.
    pub open spec fn tree(&self) -> JsonTree
        decreases self,
    {
        match self {
            Json::Null => JsonTree::Null,
            Json::Bool(b) => JsonTree::Bool(*b),
            Json::Number => JsonTree::Number,
            Json::Text(text) => JsonTree::Text(text@),
            Json::Array(items) => JsonTree::Array(
                Seq::new(
                    items@.len(),
                    |i: int|
                        if 0 <= i < items@.len() {
                            items@[i].tree()
                        } else {
                            JsonTree::Null
                        },
                ),
            ),
            Json::Object(members) => JsonTree::Object(
                Seq::new(
                    members@.len(),
                    |i: int|
                        if 0 <= i < members@.len() {
                            (members@[i].0@, members@[i].1.tree())
                        } else {
                            (Seq::empty(), JsonTree::Null)
                        },
                ),
            ),
        }
    }
}

/// A parsed JSON value of `serde_json`.
#[verifier::external_type_specification]
#[verifier::external_body]
pub struct ExValue(serde_json::Value);

/// The tree that `serde_json` reads from `text`, or nothing where it
/// refuses the text: the text is not one JSON document, or one that it does
/// not take, such as one nested too deeply.
pub uninterp spec fn json_parse(text: Seq<char>) -> Option<JsonTree>;

/// The tree that a value of `serde_json` holds.
pub uninterp spec fn value_tree(value: serde_json::Value) -> JsonTree;

/// The text that `serde_json` prints for an object whose members are lists
/// of strings, in its indented form.
pub uninterp spec fn json_pretty(members: Seq<(Seq<char>, Seq<Seq<char>>)>) -> Seq<char>;

/// `serde_json::from_str` for a `Value`: the value that the text denotes, or
/// nothing where `serde_json` refuses the text. What comes back depends on
/// the text alone.
#[verifier::external_body]
fn parse_value(text: &str) -> (value: Option<serde_json::Value>)
    ensures
        match value {
            Some(found) => json_parse(text@) == Some(value_tree(found)),
            None => json_parse(text@) is None,
        },
{
    serde_json::from_str::<serde_json::Value>(text).ok()
}

/// Takes a `serde_json::Value` apart, variant by variant, into a `Json`
/// that holds the same tree. A number keeps no value.
#[verifier::external_body]
fn json_of_value(value: serde_json::Value) -> (doc: Json)
    ensures
        doc@ == value_tree(value),
{
    match value {
        serde_json::Value::Null => Json::Null,
        serde_json::Value::Bool(b) => Json::Bool(b),
        serde_json::Value::Number(_) => Json::Number,
        serde_json::Value::String(text) => Json::Text(text),
        serde_json::Value::Array(items) => Json::Array(
            items.into_iter().map(json_of_value).collect(),
        ),
        serde_json::Value::Object(members) => Json::Object(
            members.into_iter().map(|(key, member)| (key, json_of_value(member))).collect(),
        ),
    }
}

/// `serde_json::to_string_pretty` for an object whose members are arrays of
/// strings, given as keys with their lists, in that order. The keys are
/// distinct. What comes back depends on the members alone.
#[verifier::external_body]
pub(crate) fn print_members(members: &Vec<(String, Vec<String>)>) -> (text: String)
    requires
        member_keys(members_view(members@)).no_duplicates(),
    ensures
        text@ == json_pretty(members_view(members@)),
{
    let mut object = serde_json::Map::new();
    for (key, items) in members.iter() {
        let array = items.iter().map(|item| serde_json::Value::String(item.clone())).collect();
        object.insert(key.clone(), serde_json::Value::Array(array));
    }
    serde_json::to_string_pretty(&serde_json::Value::Object(object)).unwrap_or_default()
}

/// The views of the members of an object of string lists.
pub open spec fn members_view(members: Seq<(String, Vec<String>)>) -> Seq<
    (Seq<char>, Seq<Seq<char>>),
> {
    members.map_values(|member: (String, Vec<String>)| (member.0@, texts(member.1@)))
}

/// The keys of the members.
pub open spec fn member_keys(members: Seq<(Seq<char>, Seq<Seq<char>>)>) -> Seq<Seq<char>> {
    members.map_values(|member: (Seq<char>, Seq<Seq<char>>)| member.0)
}

/// The document that `text` denotes, or nothing where `serde_json` refuses
/// the text.
pub fn parse_json(text: &str) -> (doc: Option<Json>)
    ensures
        match doc {
            Some(found) => json_parse(text@) == Some(found@),
            None => json_parse(text@) is None,
        },
{
    match parse_value(text) {
        Some(value) => Some(json_of_value(value)),
        None => None,
    }
}

/// The member of an object that stands under `key`: the first one, where
/// several do.
pub open spec fn member(members: Seq<(Seq<char>, JsonTree)>, key: Seq<char>) -> Option<JsonTree>
    decreases members.len(),
{
    if members.len() == 0 {
        None
    } else if members[0].0 == key {
        Some(members[0].1)
    } else {
        member(members.skip(1), key)
    }
}

/// The strings of an array of strings; nothing for any other tree.
pub open spec fn strings_of(tree: JsonTree) -> Option<Seq<Seq<char>>> {
    match tree {
        JsonTree::Array(items) => if forall|i: int|
            0 <= i < items.len() ==> #[trigger] items[i] is Text {
            Some(Seq::new(items.len(), |i: int| items[i]->Text_0))
        } else {
            None
        },
        _ => None,
    }
}

/// The member of an object that stands under `key`; nothing where the tree
/// is no object.
pub open spec fn member_under(doc: JsonTree, key: Seq<char>) -> Option<JsonTree> {
    match doc {
        JsonTree::Object(members) => member(members, key),
        _ => None,
    }
}

/// The list of strings that an object holds under `key`: nothing where the
/// tree is no object, where it has no such member, or where the member is
/// not an array of strings.
pub open spec fn list_under(doc: JsonTree, key: Seq<char>) -> Option<Seq<Seq<char>>> {
    match member_under(doc, key) {
        Some(tree) => strings_of(tree),
        None => None,
    }
}

/// The list of strings that an object holds under `key`, or the empty list
/// where it has no such member: nothing where the tree is no object, or
/// where the member is not an array of strings.
pub open spec fn list_or_empty_under(doc: JsonTree, key: Seq<char>) -> Option<Seq<Seq<char>>> {
    match doc {
        JsonTree::Object(members) => match member_under(doc, key) {
            Some(tree) => strings_of(tree),
            None => Some(Seq::empty()),
        },
        _ => None,
    }
}

/// The tree of an object whose members are lists of strings.
pub open spec fn members_tree(members: Seq<(Seq<char>, Seq<Seq<char>>)>) -> JsonTree {
    JsonTree::Object(
        members.map_values(
            |entry: (Seq<char>, Seq<Seq<char>>)|
                (
                    entry.0,
                    JsonTree::Array(entry.1.map_values(|text: Seq<char>| JsonTree::Text(text))),
                ),
        ),
    )
}

/// The member of `doc` that stands under `key`, where `doc` is an object
/// that has one.
pub fn member_of<'a>(doc: &'a Json, key: &str) -> (found: Option<&'a Json>)
    ensures
        match found {
            Some(tree) => member_under(doc@, key@) == Some(tree@),
            None => member_under(doc@, key@) is None,
        },
{
    match doc {
        Json::Object(members) => {
            let ghost all = doc@->Object_0;
            let mut i: usize = 0;
            proof {
                assert(all.skip(0) =~= all);
            }
            while i < members.len()
                invariant
                    i <= members.len(),
                    doc@ is Object,
                    all == doc@->Object_0,
                    all.len() == members.len(),
                    forall|j: int|
                        0 <= j < members.len() ==> all[j] == (members@[j].0@, members@[j].1@),
                    member(all, key@) == member(all.skip(i as int), key@),
                decreases members.len() - i,
            {
                proof {
                    assert(all.skip(i as int)[0] == all[i as int]);
                    assert(all.skip(i as int).skip(1) =~= all.skip(i + 1));
                }
                if same_text(members[i].0.as_str(), key) {
                    proof {
                        assert(all.skip(i as int).len() > 0);
                        assert(member(all.skip(i as int), key@) == Some(all[i as int].1));
                    }
                    return Some(&members[i].1);
                }
                i += 1;
            }
            None
        },
        _ => None,
    }
}

/// The strings of `doc`, where it is an array of strings.
pub fn strings_of_json(doc: &Json) -> (list: Option<Vec<String>>)
    ensures
        match list {
            Some(found) => strings_of(doc@) == Some(texts(found@)),
            None => strings_of(doc@) is None,
        },
{
    match doc {
        Json::Array(items) => {
            let ghost trees = doc@->Array_0;
            let mut list: Vec<String> = Vec::new();
            let mut i: usize = 0;
            while i < items.len()
                invariant
                    i <= items.len(),
                    trees == doc@->Array_0,
                    trees.len() == items.len(),
                    forall|j: int| 0 <= j < items.len() ==> trees[j] == items@[j]@,
                    list.len() == i,
                    forall|j: int| 0 <= j < i ==> #[trigger] trees[j] is Text,
                    forall|j: int| 0 <= j < i ==> list@[j]@ == #[trigger] trees[j]->Text_0,
                decreases items.len() - i,
            {
                match &items[i] {
                    Json::Text(text) => {
                        let copy = crate::text::copy_text(text.as_str());
                        list.push(copy);
                    },
                    _ => {
                        assert(!(trees[i as int] is Text));
                        return None;
                    },
                }
                i += 1;
            }
            proof {
                assert(texts(list@) =~= Seq::new(trees.len(), |i: int| trees[i]->Text_0));
            }
            Some(list)
        },
        _ => None,
    }
}

/// The list of strings that `doc` holds under `key`, where it is an object
/// with such a member and the member is an array of strings.
pub fn list_under_key(doc: &Json, key: &str) -> (list: Option<Vec<String>>)
    ensures
        match list {
            Some(found) => list_under(doc@, key@) == Some(texts(found@)),
            None => list_under(doc@, key@) is None,
        },
{
    match member_of(doc, key) {
        Some(tree) => strings_of_json(tree),
        None => None,
    }
}

/// The list of strings that `doc` holds under `key`, empty where it is an
/// object without such a member; nothing where it is no object or the
/// member is not an array of strings.
pub fn list_or_empty_under_key(doc: &Json, key: &str) -> (list: Option<Vec<String>>)
    ensures
        match list {
            Some(found) => list_or_empty_under(doc@, key@) == Some(texts(found@)),
            None => list_or_empty_under(doc@, key@) is None,
        },
{
    match doc {
        Json::Object(_) => match member_of(doc, key) {
            Some(tree) => strings_of_json(tree),
            None => {
                let list: Vec<String> = Vec::new();
                assert(texts(list@) =~= Seq::<Seq<char>>::empty());
                Some(list)
            },
        },
        _ => None,
    }
}


} // verus!

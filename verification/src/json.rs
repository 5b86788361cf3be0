//! JSON documents as trees.

use vstd::prelude::*;

verus! {

/// A JSON value, as the mathematical tree that contracts speak of.
pub enum JsonView {
    Null,
    Bool(bool),
    Number(Option<i64>),
    Text(Seq<char>),
    Array(Seq<JsonView>),
    Object(Seq<(Seq<char>, JsonView)>),
}

/// A JSON value.
#[derive(Debug, PartialEq)]
pub enum Json {
    Null,
    Bool(bool),
    /// A number, with its value where it is an integer of 64 signed bits.
    Number(Option<i64>),
    Text(String),
    Array(Vec<Json>),
    /// An object: its members in order, each under its key.
    Object(Vec<(String, Json)>),
}

impl View for Json {
    type V = JsonView;

    open spec fn view(&self) -> JsonView {
        self.tree()
    }
}

impl Json {
    /// The tree of the value.
    pub open spec fn tree(self) -> JsonView
        decreases self,
    {
        match self {
            Json::Null => JsonView::Null,
            Json::Bool(b) => JsonView::Bool(b),
            Json::Number(n) => JsonView::Number(n),
            Json::Text(s) => JsonView::Text(s@),
            Json::Array(items) => JsonView::Array(
                Seq::new(
                    items@.len(),
                    |i: int|
                        if 0 <= i < items@.len() {
                            items@[i].tree()
                        } else {
                            JsonView::Null
                        },
                ),
            ),
            Json::Object(members) => JsonView::Object(
                Seq::new(
                    members@.len(),
                    |i: int|
                        if 0 <= i < members@.len() {
                            (members@[i].0@, members@[i].1.tree())
                        } else {
                            (Seq::empty(), JsonView::Null)
                        },
                ),
            ),
        }
    }
}

/// The value under `key` among `members`: that of the first member with this
/// key, and `Null` where there is none.
pub open spec fn lookup(members: Seq<(Seq<char>, JsonView)>, key: Seq<char>) -> JsonView
    decreases members.len(),
{
    if members.len() == 0 {
        JsonView::Null
    } else if members[0].0 == key {
        members[0].1
    } else {
        lookup(members.skip(1), key)
    }
}

impl JsonView {
    /// The member of an object under `key`; `Null` where the object has none,
    /// and where the value is no object.
    pub open spec fn member(self, key: Seq<char>) -> JsonView {
        match self {
            JsonView::Object(members) => lookup(members, key),
            _ => JsonView::Null,
        }
    }

    /// The text of a string.
    pub open spec fn text(self) -> Option<Seq<char>> {
        match self {
            JsonView::Text(text) => Some(text),
            _ => None,
        }
    }

    /// The value of a number that is an integer of 64 signed bits.
    pub open spec fn integer(self) -> Option<i64> {
        match self {
            JsonView::Number(value) => value,
            _ => None,
        }
    }

    /// The items of an array.
    pub open spec fn items(self) -> Option<Seq<JsonView>> {
        match self {
            JsonView::Array(items) => Some(items),
            _ => None,
        }
    }
}

/// The trees of `items`.
pub open spec fn trees(items: Seq<Json>) -> Seq<JsonView> {
    items.map_values(|item: Json| item@)
}

/// The keys and trees of `members`.
pub open spec fn member_trees(members: Seq<(String, Json)>) -> Seq<(Seq<char>, JsonView)> {
    members.map_values(|member: (String, Json)| (member.0@, member.1@))
}

/// The tree of an array holds the trees of its items.
pub proof fn lemma_array_view(items: Vec<Json>)
    ensures
        Json::Array(items)@ == JsonView::Array(trees(items@)),
{
    reveal_with_fuel(Json::tree, 2);
    assert(Json::Array(items)@->Array_0 =~= trees(items@));
}

/// The tree of an object holds the keys and trees of its members.
pub proof fn lemma_object_view(members: Vec<(String, Json)>)
    ensures
        Json::Object(members)@ == JsonView::Object(member_trees(members@)),
{
    reveal_with_fuel(Json::tree, 2);
    assert(Json::Object(members)@->Object_0 =~= member_trees(members@));
}

impl Json {
    /// The member of an object under `key`, where it has one.
    pub fn get(&self, key: &str) -> (found: Option<&Json>)
        ensures
            match found {
                Some(value) => value@ == self@.member(key@),
                None => self@.member(key@) == JsonView::Null,
            },
    {
        match self {
            Json::Object(members) => {
                let wanted = key.to_owned();
                let ghost all = member_trees(members@);
                proof {
                    lemma_object_view(*members);
                    assert(all.skip(0) == all);
                }
                let mut i: usize = 0;
                while i < members.len()
                    invariant
                        i <= members.len(),
                        wanted@ == key@,
                        self@.member(key@) == lookup(all, key@),
                        all.len() == members@.len(),
                        forall|k: int|
                            0 <= k < members@.len() ==> all[k] == (
                                members@[k].0@,
                                members@[k].1@,
                            ),
                        lookup(all, key@) == lookup(all.skip(i as int), key@),
                    decreases members.len() - i,
                {
                    proof {
                        let rest = all.skip(i as int);
                        assert(rest[0] == all[i as int]);
                        assert(rest.skip(1) == all.skip(i + 1));
                    }
                    if members[i].0 == wanted {
                        return Some(&members[i].1);
                    }
                    i += 1;
                }
                None
            },
            _ => None,
        }
    }

    /// The text of a string.
    pub fn as_str(&self) -> (text: Option<&str>)
        ensures
            match text {
                Some(text) => self@.text() == Some(text@),
                None => self@.text().is_none(),
            },
    {
        match self {
            Json::Text(text) => Some(text.as_str()),
            _ => None,
        }
    }

    /// The value of a number that is an integer of 64 signed bits.
    pub fn as_i64(&self) -> (value: Option<i64>)
        ensures
            value == self@.integer(),
    {
        match self {
            Json::Number(value) => *value,
            _ => None,
        }
    }

    /// The items of an array.
    pub fn as_array(&self) -> (items: Option<&Vec<Json>>)
        ensures
            match items {
                Some(items) => self@.items() == Some(trees(items@)),
                None => self@.items().is_none(),
            },
    {
        match self {
            Json::Array(items) => {
                proof {
                    lemma_array_view(*items);
                }
                Some(items)
            },
            _ => None,
        }
    }

    /// Whether the value is a number.
    pub fn is_number(&self) -> (b: bool)
        ensures
            b == (self@ is Number),
    {
        match self {
            Json::Number(_) => true,
            _ => false,
        }
    }

    /// Whether the value is an object.
    pub fn is_object(&self) -> (b: bool)
        ensures
            b == (self@ is Object),
    {
        match self {
            Json::Object(_) => true,
            _ => false,
        }
    }
}

/// `serde_json::Value`, a JSON value of the outside crate; nothing of it is
/// seen but through `copy_value`.
#[verifier::external_type_specification]
#[verifier::external_body]
pub struct ExValue(serde_json::Value);

/// `serde_json::Error`, which says why a text is no JSON; it is carried, not
/// read.
#[verifier::external_type_specification]
#[verifier::external_body]
pub struct ExError(serde_json::Error);

/// The tree that a JSON text spells, and nothing for a text that
/// `serde_json::from_str` refuses.
pub uninterp spec fn tree_of_text(text: Seq<char>) -> Option<JsonView>;

/// The tree that a `serde_json::Value` holds.
pub uninterp spec fn tree_of_value(value: serde_json::Value) -> JsonView;

/// `serde_json::from_str` at the type `serde_json::Value`. It succeeds on the
/// texts that spell a tree, and the value it gives holds that tree.
#[verifier::external_body]
fn read_value(text: &str) -> (read: Result<serde_json::Value, serde_json::Error>)
    ensures
        match read {
            Ok(value) => tree_of_text(text@) == Some(tree_of_value(value)),
            Err(_) => tree_of_text(text@).is_none(),
        },
{
    serde_json::from_str::<serde_json::Value>(text)
}

/// Copies a `serde_json::Value` into a `Json`, variant by variant; of a
/// number it keeps what `serde_json::Number::as_i64` gives.
#[verifier::external_body]
fn copy_value(value: &serde_json::Value) -> (tree: Json)
    ensures
        tree@ == tree_of_value(*value),
{
    match value {
        serde_json::Value::Null => Json::Null,
        serde_json::Value::Bool(flag) => Json::Bool(*flag),
        serde_json::Value::Number(number) => Json::Number(number.as_i64()),
        serde_json::Value::String(text) => Json::Text(text.clone()),
        serde_json::Value::Array(items) => Json::Array(items.iter().map(copy_value).collect()),
        serde_json::Value::Object(members) => Json::Object(
            members.iter().map(|(key, member)| (key.clone(), copy_value(member))).collect(),
        ),
    }
}

/// Reads a JSON text.
pub fn parse(text: &str) -> (parsed: Result<Json, serde_json::Error>)
    ensures
        match parsed {
            Ok(tree) => tree_of_text(text@) == Some(tree@),
            Err(_) => tree_of_text(text@).is_none(),
        },
{
    match read_value(text) {
        Ok(value) => Ok(copy_value(&value)),
        Err(error) => Err(error),
    }
}

} // verus!

//! JSON values.
use vstd::prelude::*;

use crate::text;

verus! {

/// A JSON value, as a mathematical tree. The members of an object stand in the
/// order in which the object hands them out.
pub enum JsonTree {
    Null,
    Bool(bool),
    Number,
    Text(Seq<char>),
    Array(Seq<JsonTree>),
    Object(Seq<(Seq<char>, JsonTree)>),
}

/// The value of the first member with the given key.
pub open spec fn first_member(members: Seq<(Seq<char>, JsonTree)>, key: Seq<char>) -> Option<
    JsonTree,
>
    decreases members.len(),
{
    if members.len() == 0 {
        None
    } else if members[0].0 == key {
        Some(members[0].1)
    } else {
        first_member(members.drop_first(), key)
    }
}

impl JsonTree {
    /// The member of an object with the given key. Values of other kinds have
    /// no members.
    pub open spec fn member(self, key: Seq<char>) -> Option<JsonTree> {
        match self {
            JsonTree::Object(members) => first_member(members, key),
            _ => None,
        }
    }

    /// The text of a text value.
    pub open spec fn text(self) -> Option<Seq<char>> {
        match self {
            JsonTree::Text(text) => Some(text),
            _ => None,
        }
    }

    /// The text of the member with the given key, where that member is a text.
    pub open spec fn member_text(self, key: Seq<char>) -> Option<Seq<char>> {
        match self.member(key) {
            Some(value) => value.text(),
            None => None,
        }
    }
}

/// A JSON value. No number is read, so numbers keep no digits.
#[derive(Debug)]
pub enum Json {
    Null,
    Bool(bool),
    Number,
    Text(String),
    Array(Vec<Json>),
    Object(Vec<Member>),
}

/// One member of a JSON object.
#[derive(Debug)]
pub struct Member {
    pub key: String,
    pub value: Json,
}

impl Json {
    /// The tree that this value stands for.
    pub open spec fn tree(self) -> JsonTree
        decreases self,
    {
        match self {
            Json::Null => JsonTree::Null,
            Json::Bool(value) => JsonTree::Bool(value),
            Json::Number => JsonTree::Number,
            Json::Text(text) => JsonTree::Text(text@),
            Json::Array(items) => JsonTree::Array(
                Seq::new(
                    items@.len(),
                    |i: int|
                        if 0 <= i < items@.len() {
                            items@[i].tree()
                        } else {
                            JsonTree::Null
                        },
                ),
            ),
            Json::Object(members) => JsonTree::Object(
                Seq::new(
                    members@.len(),
                    |i: int|
                        if 0 <= i < members@.len() {
                            (members@[i].key@, members@[i].value.tree())
                        } else {
                            (Seq::empty(), JsonTree::Null)
                        },
                ),
            ),
        }
    }
}

impl View for Json {
    type V = JsonTree;

    open spec fn view(&self) -> JsonTree {
        self.tree()
    }
}

/// `serde_json::Value`, the outside crate's JSON value.
#[verifier::external_type_specification]
#[verifier::external_body]
pub struct ExternalValue(serde_json::Value);

/// `serde_json::Error`, which says why a text is not JSON.
#[verifier::external_type_specification]
#[verifier::external_body]
pub struct ExternalJsonError(serde_json::Error);

/// What a `serde_json::Value` holds.
pub uninterp spec fn contents(value: serde_json::Value) -> JsonTree;

/// What `serde_json::from_str` reads from a text, or the error that says why the
/// text is not JSON.
pub uninterp spec fn read_text(text: Seq<char>) -> Result<JsonTree, serde_json::Error>;

/// `serde_json::from_str` into a `serde_json::Value`: what the value holds, or what
/// the error says, depends on the text alone.
#[verifier::external_body]
fn value_from_str(text: &str) -> (result: Result<serde_json::Value, serde_json::Error>)
    ensures
        match result {
            Ok(value) => read_text(text@) == Ok::<_, serde_json::Error>(contents(value)),
            Err(error) => read_text(text@) == Err::<JsonTree, _>(error),
        },
{
    serde_json::from_str(text)
}

/// The outermost layer of a `serde_json::Value`.
enum Layer<'a> {
    Null,
    Bool(bool),
    Number,
    Text(&'a String),
    Array(&'a Vec<serde_json::Value>),
    Object(Vec<(&'a String, &'a serde_json::Value)>),
}

/// The variant of a `serde_json::Value` with what it carries. The members of
/// an object are those of `serde_json::Map::iter`, in its order.
#[verifier::external_body]
fn layer(value: &serde_json::Value) -> (result: Layer<'_>)
    ensures
        match result {
            Layer::Null => contents(*value) == JsonTree::Null,
            Layer::Bool(truth) => contents(*value) == JsonTree::Bool(truth),
            Layer::Number => contents(*value) == JsonTree::Number,
            Layer::Text(text) => contents(*value) == JsonTree::Text(text@),
            Layer::Array(items) => contents(*value) == JsonTree::Array(
                Seq::new(items@.len(), |i: int| contents(items@[i])),
            ),
            Layer::Object(members) => contents(*value) == JsonTree::Object(
                Seq::new(members@.len(), |i: int| (members@[i].0@, contents(*members@[i].1))),
            ),
        },
{
    match value {
        serde_json::Value::Null => Layer::Null,
        serde_json::Value::Bool(truth) => Layer::Bool(*truth),
        serde_json::Value::Number(_) => Layer::Number,
        serde_json::Value::String(text) => Layer::Text(text),
        serde_json::Value::Array(items) => Layer::Array(items),
        serde_json::Value::Object(members) => Layer::Object(members.iter().collect()),
    }
}

impl Json {
    /// The value that a `serde_json::Value` holds.
    pub fn from_value(value: &serde_json::Value) -> (result: Json)
        ensures
            result@ == contents(*value),
        decreases contents(*value),
    {
        match layer(value) {
            Layer::Null => Json::Null,
            Layer::Bool(truth) => Json::Bool(truth),
            Layer::Number => Json::Number,
            Layer::Text(text) => Json::Text(text.clone()),
            Layer::Array(items) => {
                let ghost trees = Seq::new(items@.len(), |i: int| contents(items@[i]));
                let mut copies: Vec<Json> = Vec::new();
                for i in 0..items.len()
                    invariant
                        trees == Seq::new(items@.len(), |i: int| contents(items@[i])),
                        contents(*value) == JsonTree::Array(trees),
                        copies@.len() == i,
                        forall|k: int| 0 <= k < i ==> (#[trigger] copies@[k])@ == trees[k],
                {
                    assert(decreases_to!(contents(*value) => contents(*value)->Array_0[i as int]));
                    copies.push(Json::from_value(&items[i]));
                }
                let result = Json::Array(copies);
                assert(result@->Array_0 == trees);
                result
            },
            Layer::Object(members) => {
                let ghost trees = Seq::new(
                    members@.len(),
                    |i: int| (members@[i].0@, contents(*members@[i].1)),
                );
                let mut copies: Vec<Member> = Vec::new();
                for i in 0..members.len()
                    invariant
                        trees == Seq::new(
                            members@.len(),
                            |i: int| (members@[i].0@, contents(*members@[i].1)),
                        ),
                        contents(*value) == JsonTree::Object(trees),
                        copies@.len() == i,
                        forall|k: int|
                            0 <= k < i ==> (#[trigger] copies@[k]).key@ == trees[k].0
                                && copies@[k].value@ == trees[k].1,
                {
                    assert(decreases_to!(contents(*value) => contents(*value)->Object_0[i as int].1));
                    let key = members[i].0.clone();
                    let value = Json::from_value(members[i].1);
                    copies.push(Member { key, value });
                }
                let result = Json::Object(copies);
                assert(result@->Object_0 == trees);
                result
            },
        }
    }

    /// The value that a JSON text writes down, or why the text is not JSON.
    pub fn parse(text: &str) -> (result: Result<Json, serde_json::Error>)
        ensures
            match result {
                Ok(json) => read_text(text@) == Ok::<_, serde_json::Error>(json@),
                Err(error) => read_text(text@) == Err::<JsonTree, _>(error),
            },
    {
        match value_from_str(text) {
            Ok(value) => Ok(Json::from_value(&value)),
            Err(error) => Err(error),
        }
    }

    /// The member of an object with the given key.
    pub fn get(&self, key: &str) -> (result: Option<&Json>)
        ensures
            match result {
                Some(value) => self@.member(key@) == Some(value@),
                None => self@.member(key@) is None,
            },
    {
        match self {
            Json::Object(members) => find_member(members, key),
            _ => None,
        }
    }

    /// The text of a text value.
    pub fn as_str(&self) -> (result: Option<&String>)
        ensures
            match result {
                Some(text) => self@.text() == Some(text@),
                None => self@.text() is None,
            },
    {
        match self {
            Json::Text(text) => Some(text),
            _ => None,
        }
    }

    /// The text of the member with the given key, where that member is a text.
    pub fn member_str(&self, key: &str) -> (result: Option<&String>)
        ensures
            match result {
                Some(text) => self@.member_text(key@) == Some(text@),
                None => self@.member_text(key@) is None,
            },
    {
        match self.get(key) {
            Some(value) => value.as_str(),
            None => None,
        }
    }
}

fn find_member<'a>(members: &'a Vec<Member>, key: &str) -> (result: Option<&'a Json>)
    ensures
        match result {
            Some(value) => Json::Object(*members)@.member(key@) == Some(value@),
            None => Json::Object(*members)@.member(key@) is None,
        },
{
    let ghost all = Json::Object(*members)@->Object_0;
    assert(all.skip(0) == all);
    for i in 0..members.len()
        invariant
            all == Json::Object(*members)@->Object_0,
            first_member(all, key@) == first_member(all.skip(i as int), key@),
    {
        let ghost rest = all.skip(i as int);
        assert(rest.drop_first() == all.skip(i + 1));
        if text::equal(members[i].key.as_str(), key) {
            return Some(&members[i].value);
        }
    }
    None
}

/// Whether a tree is an object in which the first member with the given key has the
/// given value.
pub open spec fn has_member(tree: JsonTree, key: Seq<char>, value: JsonTree) -> bool {
    &&& tree is Object
    &&& exists|i: int|
        0 <= i < tree->Object_0.len() && #[trigger] tree->Object_0[i] == (key, value) && forall|
            k: int,
        |
            0 <= k < i ==> (#[trigger] tree->Object_0[k]).0 != key
}

/// Whether a tree is no object or has no member with the given key.
pub open spec fn lacks_member(tree: JsonTree, key: Seq<char>) -> bool {
    tree is Object ==> forall|k: int|
        0 <= k < tree->Object_0.len() ==> (#[trigger] tree->Object_0[k]).0 != key
}

proof fn first_member_is_found(members: Seq<(Seq<char>, JsonTree)>, key: Seq<char>, i: int)
    requires
        0 <= i < members.len(),
        members[i].0 == key,
        forall|k: int| 0 <= k < i ==> (#[trigger] members[k]).0 != key,
    ensures
        first_member(members, key) == Some(members[i].1),
    decreases i,
{
    if i > 0 {
        let rest = members.drop_first();
        assert(members[0].0 != key);
        assert forall|k: int| 0 <= k < i - 1 implies (#[trigger] rest[k]).0 != key by {
            assert(rest[k] == members[k + 1]);
        }
        assert(rest[i - 1] == members[i]);
        first_member_is_found(rest, key, i - 1);
    }
}

proof fn missing_member_is_not_found(members: Seq<(Seq<char>, JsonTree)>, key: Seq<char>)
    requires
        forall|k: int| 0 <= k < members.len() ==> (#[trigger] members[k]).0 != key,
    ensures
        first_member(members, key) is None,
    decreases members.len(),
{
    if members.len() > 0 {
        let rest = members.drop_first();
        assert(members[0].0 != key);
        assert forall|k: int| 0 <= k < rest.len() implies (#[trigger] rest[k]).0 != key by {
            assert(rest[k] == members[k + 1]);
        }
        missing_member_is_not_found(rest, key);
    }
}

proof fn some_member_is_first(members: Seq<(Seq<char>, JsonTree)>, key: Seq<char>, n: int)
    requires
        0 <= n <= members.len(),
    ensures
        (forall|k: int| 0 <= k < n ==> (#[trigger] members[k]).0 != key) || exists|i: int|
            0 <= i < n && (#[trigger] members[i]).0 == key && forall|k: int|
                0 <= k < i ==> (#[trigger] members[k]).0 != key,
    decreases n,
{
    if n > 0 {
        some_member_is_first(members, key, n - 1);
        if forall|k: int| 0 <= k < n - 1 ==> (#[trigger] members[k]).0 != key {
            if members[n - 1].0 == key {
                assert(members[n - 1].0 == key);
            }
        }
    }
}

/// A member is found exactly where an object has it, with the value of the first
/// member of its key.
pub proof fn members_are_found(tree: JsonTree, key: Seq<char>, value: JsonTree)
    ensures
        has_member(tree, key, value) <==> tree.member(key) == Some(value),
        lacks_member(tree, key) <==> tree.member(key) is None,
{
    if tree is Object {
        let members = tree->Object_0;
        some_member_is_first(members, key, members.len() as int);
        if lacks_member(tree, key) {
            missing_member_is_not_found(members, key);
        } else {
            let i = choose|i: int|
                0 <= i < members.len() && (#[trigger] members[i]).0 == key && forall|k: int|
                    0 <= k < i ==> (#[trigger] members[k]).0 != key;
            first_member_is_found(members, key, i);
            if tree.member(key) == Some(value) {
                assert(members[i] == (key, value));
            }
        }
        if has_member(tree, key, value) {
            let i = choose|i: int|
                0 <= i < members.len() && #[trigger] members[i] == (key, value) && forall|k: int|
                    0 <= k < i ==> (#[trigger] members[k]).0 != key;
            first_member_is_found(members, key, i);
        }
    }
}

/// The text of a member is found exactly where an object has that member and it is a
/// text.
pub proof fn member_texts_are_found(tree: JsonTree, key: Seq<char>, text: Seq<char>)
    ensures
        has_member(tree, key, JsonTree::Text(text)) <==> tree.member_text(key) == Some(text),
        lacks_member(tree, key) ==> tree.member_text(key) is None,
        JsonTree::Text(text).text() == Some(text),
        !(tree is Text) ==> tree.text() is None,
{
    members_are_found(tree, key, JsonTree::Text(text));
}

/// A value stands for the tree of the same shape, with the same texts, elements and
/// members in the same order.
pub proof fn value_stands_for_its_tree(json: Json)
    ensures
        match json {
            Json::Null => json@ == JsonTree::Null,
            Json::Bool(truth) => json@ == JsonTree::Bool(truth),
            Json::Number => json@ == JsonTree::Number,
            Json::Text(text) => json@ == JsonTree::Text(text@),
            Json::Array(items) => json@ is Array && json@->Array_0.len() == items@.len()
                && forall|i: int|
                0 <= i < items@.len() ==> #[trigger] json@->Array_0[i] == items@[i]@,
            Json::Object(members) => json@ is Object && json@->Object_0.len() == members@.len()
                && forall|i: int|
                0 <= i < members@.len() ==> #[trigger] json@->Object_0[i] == (
                    members@[i].key@,
                    members@[i].value@,
                ),
        },
{
}

} // verus!

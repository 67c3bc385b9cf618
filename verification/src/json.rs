use crate::text::{chars_of, decimal_value, is_decimal, parse_decimal};
use serde_json::Value;
use vstd::prelude::*;

verus! {

/// A JSON document as a tree of plain values. A number is kept as the text
/// that writes it; the members of an object are kept in a list, and a key is
/// looked up from its front.
#[derive(Debug, PartialEq)]
pub enum Json {
    Null,
    Bool(bool),
    Number(String),
    Text(String),
    Array(Vec<Json>),
    Object(Vec<(String, Json)>),
}

/// What a [`Json`] holds.
pub enum JsonView {
    Null,
    Bool(bool),
    Number(Seq<char>),
    Text(Seq<char>),
    Array(Seq<JsonView>),
    Object(Seq<MemberView>),
}

/// A member of an object: a key and the value under it.
pub struct MemberView {
    pub key: Seq<char>,
    pub value: JsonView,
}

impl View for Json {
    type V = JsonView;

    open spec fn view(&self) -> JsonView
        decreases self,
    {
        match self {
            Json::Null => JsonView::Null,
            Json::Bool(b) => JsonView::Bool(*b),
            Json::Number(n) => JsonView::Number(n@),
            Json::Text(s) => JsonView::Text(s@),
            Json::Array(items) => JsonView::Array(
                Seq::new(
                    items@.len(),
                    |i: int|
                        if 0 <= i < items@.len() {
                            items@[i].view()
                        } else {
                            JsonView::Null
                        },
                ),
            ),
            Json::Object(members) => JsonView::Object(
                Seq::new(
                    members@.len(),
                    |i: int|
                        if 0 <= i < members@.len() {
                            MemberView { key: members@[i].0@, value: members@[i].1.view() }
                        } else {
                            MemberView { key: Seq::empty(), value: JsonView::Null }
                        },
                ),
            ),
        }
    }
}

/// The value of the first member from index `from` on whose key is `key`.
pub open spec fn find_member(
    members: Seq<MemberView>,
    key: Seq<char>,
    from: int,
) -> Option<JsonView>
    decreases members.len() - from,
{
    if from < 0 || from >= members.len() {
        None
    } else if members[from].key == key {
        Some(members[from].value)
    } else {
        find_member(members, key, from + 1)
    }
}

impl JsonView {
    /// The value under a key of an object. `None` for a key that the object
    /// lacks and for a value that is no object.
    pub open spec fn member(self, key: Seq<char>) -> Option<JsonView> {
        match self {
            JsonView::Object(members) => find_member(members, key, 0),
            _ => None,
        }
    }

    /// The item at an index of an array. `None` past the end and for a value
    /// that is no array.
    pub open spec fn item(self, index: int) -> Option<JsonView> {
        match self {
            JsonView::Array(items) => if 0 <= index < items.len() {
                Some(items[index])
            } else {
                None
            },
            _ => None,
        }
    }

    /// The items of an array.
    pub open spec fn items(self) -> Option<Seq<JsonView>> {
        match self {
            JsonView::Array(items) => Some(items),
            _ => None,
        }
    }

    /// The text of a string value.
    pub open spec fn text(self) -> Option<Seq<char>> {
        match self {
            JsonView::Text(s) => Some(s),
            _ => None,
        }
    }

    /// One step down from a value: into an object by a key, into an array by
    /// an index written in digits.
    pub open spec fn child(self, segment: Seq<char>) -> Option<JsonView> {
        match self {
            JsonView::Object(_) => self.member(segment),
            JsonView::Array(_) => if is_decimal(segment) {
                self.item(decimal_value(segment) as int)
            } else {
                None
            },
            _ => None,
        }
    }
}

/// Where a walk down a path ends.
pub enum Walk {
    /// Every segment led one step down, to this value.
    Found(JsonView),
    /// The segment at this index of the path led nowhere.
    Missing(int),
}

/// Follows `path` down from `value`, starting with the segment at `from`.
pub open spec fn walk(value: JsonView, path: Seq<Seq<char>>, from: int) -> Walk
    decreases path.len() - from,
{
    if from < 0 || from >= path.len() {
        Walk::Found(value)
    } else {
        match value.child(path[from]) {
            Some(next) => walk(next, path, from + 1),
            None => Walk::Missing(from),
        }
    }
}

/// The views of a list of texts.
pub open spec fn texts(path: Seq<&'static str>) -> Seq<Seq<char>> {
    Seq::new(path.len(), |i: int| path[i]@)
}

impl Json {
    /// The value under `key`, if this is an object that has the key.
    pub fn get(&self, key: &str) -> (r: Option<&Json>)
        ensures
            match r {
                Some(v) => self@.member(key@) == Some(v@),
                None => self@.member(key@) is None,
            },
    {
        match self {
            Json::Object(members) => {
                let wanted = String::from_str(key);
                let ghost all = member_views(members@);
                assert(self@ == JsonView::Object(all)) by {
                    lemma_object_view(*members);
                }
                let mut i: usize = 0;
                while i < members.len()
                    invariant
                        i <= members.len(),
                        wanted@ == key@,
                        self@.member(key@) == find_member(all, key@, 0),
                        all.len() == members@.len(),
                        forall|k: int|
                            0 <= k < members@.len() ==> all[k] == (MemberView {
                                key: members@[k].0@,
                                value: members@[k].1@,
                            }),
                        find_member(all, key@, 0) == find_member(all, key@, i as int),
                    decreases members.len() - i,
                {
                    if members[i].0 == wanted {
                        return Some(&members[i].1);
                    }
                    i += 1;
                }
                None
            },
            _ => None,
        }
    }

    /// The item at `index`, if this is an array that is long enough.
    pub fn at(&self, index: usize) -> (r: Option<&Json>)
        ensures
            match r {
                Some(v) => self@.item(index as int) == Some(v@),
                None => self@.item(index as int) is None,
            },
    {
        match self {
            Json::Array(items) => if index < items.len() {
                Some(&items[index])
            } else {
                None
            },
            _ => None,
        }
    }

    /// The text, if this is a string value.
    pub fn as_str(&self) -> (r: Option<&str>)
        ensures
            match r {
                Some(s) => self@.text() == Some(s@),
                None => self@.text() is None,
            },
    {
        match self {
            Json::Text(s) => Some(s.as_str()),
            _ => None,
        }
    }

    /// The items, if this is an array.
    pub fn as_array(&self) -> (r: Option<&Vec<Json>>)
        ensures
            match r {
                Some(items) => self@.items() == Some(json_views(items@)),
                None => self@.items() is None,
            },
    {
        match self {
            Json::Array(items) => {
                proof {
                    lemma_array_view(*items);
                }
                Some(items)
            },
            _ => None,
        }
    }

    /// Whether this is the null value.
    pub fn is_null(&self) -> (r: bool)
        ensures
            r == (self@ is Null),
    {
        match self {
            Json::Null => true,
            _ => false,
        }
    }

    /// Whether this is an object.
    pub fn is_object(&self) -> (r: bool)
        ensures
            r == (self@ is Object),
    {
        match self {
            Json::Object(_) => true,
            _ => false,
        }
    }

    /// One step down: into an object by a key, into an array by an index
    /// written in digits.
    pub fn child(&self, segment: &str) -> (r: Option<&Json>)
        ensures
            match r {
                Some(v) => self@.child(segment@) == Some(v@),
                None => self@.child(segment@) is None,
            },
    {
        match self {
            Json::Object(members) => {
                proof {
                    lemma_object_view(*members);
                }
                self.get(segment)
            },
            Json::Array(items) => {
                proof {
                    lemma_array_view(*items);
                    assert(self@->Array_0.len() == items.len());
                }
                let digits = chars_of(segment);
                match parse_decimal(&digits) {
                    Some(index) => {
                        if index < items.len() as u64 {
                            self.at(index as usize)
                        } else {
                            None
                        }
                    },
                    None => None,
                }
            },
            _ => {
                assert(!(self@ is Object) && !(self@ is Array));
                None
            },
        }
    }

    /// Follows a path down from this value. `Err` holds the index of the
    /// first segment that led nowhere.
    pub fn walk(&self, path: &Vec<&'static str>) -> (r: Result<&Json, usize>)
        ensures
            match r {
                Ok(v) => walk(self@, texts(path@), 0) == Walk::Found(v@),
                Err(at) => at < path.len() && walk(self@, texts(path@), 0) == Walk::Missing(
                    at as int,
                ),
            },
    {
        let mut current: &Json = self;
        let mut i: usize = 0;
        while i < path.len()
            invariant
                i <= path.len(),
                walk(self@, texts(path@), 0) == walk(current@, texts(path@), i as int),
            decreases path.len() - i,
        {
            assert(texts(path@)[i as int] == path@[i as int]@);
            match current.child(path[i]) {
                Some(next) => {
                    current = next;
                },
                None => {
                    return Err(i);
                },
            }
            i += 1;
        }
        Ok(current)
    }
}

/// The views of the members of an object, member by member.
pub open spec fn member_views(members: Seq<(String, Json)>) -> Seq<MemberView> {
    Seq::new(members.len(), |i: int| MemberView { key: members[i].0@, value: members[i].1@ })
}

/// The view of an object is the object of the views of its members.
proof fn lemma_object_view(members: Vec<(String, Json)>)
    ensures
        Json::Object(members)@ == JsonView::Object(member_views(members@)),
{
    let j = Json::Object(members);
    assert(j@->Object_0 =~= member_views(members@));
}

/// The view of an array is the array of the views of its items.
proof fn lemma_array_view(items: Vec<Json>)
    ensures
        Json::Array(items)@ == JsonView::Array(json_views(items@)),
{
    let j = Json::Array(items);
    assert(j@->Array_0 =~= json_views(items@));
}

/// An array is larger than each of its items.
proof fn lemma_item_smaller(tree: JsonView, i: int)
    requires
        tree is Array,
        0 <= i < tree->Array_0.len(),
    ensures
        decreases_to!(tree => tree->Array_0[i]),
{
    match tree {
        JsonView::Array(items) => {
            vstd::seq::axiom_seq_index_decreases(items, i);
        },
        _ => {},
    }
}

/// An object is larger than the value of each of its members.
proof fn lemma_member_smaller(tree: JsonView, i: int)
    requires
        tree is Object,
        0 <= i < tree->Object_0.len(),
    ensures
        decreases_to!(tree => tree->Object_0[i].value),
{
    match tree {
        JsonView::Object(members) => {
            vstd::seq::axiom_seq_index_decreases(members, i);
        },
        _ => {},
    }
}

/// The views of a sequence of values, item by item.
pub open spec fn json_views(items: Seq<Json>) -> Seq<JsonView> {
    Seq::new(items.len(), |i: int| items[i]@)
}

#[verifier::external_type_specification]
#[verifier::external_body]
pub struct ExValue(Value);

/// The document that a JSON text writes, as `serde_json::from_str` reads it
/// into a `serde_json::Value`; `None` for a text that it rejects.
pub uninterp spec fn json_document(text: Seq<char>) -> Option<JsonView>;

/// What a `serde_json::Value` holds: the members of an object in the order in
/// which the value hands them out, a number as `Display` writes it.
pub uninterp spec fn value_tree(value: Value) -> JsonView;

/// `serde_json::from_str` for a `Value`: the result is a function of the text
/// alone, and an error stands for a text that is no JSON document.
#[verifier::external_body]
fn read_value(text: &str) -> (r: Option<Value>)
    ensures
        match r {
            Some(v) => json_document(text@) == Some(value_tree(v)),
            None => json_document(text@) is None,
        },
{
    match serde_json::from_str::<Value>(text) {
        Ok(v) => Some(v),
        Err(_) => None,
    }
}

/// One level of a `serde_json::Value`: which variant it is, with what the
/// variant holds. The items of an array and the values of an object are still
/// values of the outside crate.
enum Node<'a> {
    Null,
    Bool(bool),
    Number(String),
    Text(String),
    Array(&'a Vec<Value>),
    Object(Vec<(String, &'a Value)>),
}

/// What the items of an array hold, item by item.
spec fn item_trees(items: Seq<Value>) -> Seq<JsonView> {
    Seq::new(items.len(), |i: int| value_tree(items[i]))
}

/// What the members of an object hold, member by member.
spec fn member_trees(members: Seq<(String, &Value)>) -> Seq<MemberView> {
    Seq::new(
        members.len(),
        |i: int| MemberView { key: members[i].0@, value: value_tree(*members[i].1) },
    )
}

/// What a node holds.
spec fn node_tree(node: Node) -> JsonView {
    match node {
        Node::Null => JsonView::Null,
        Node::Bool(b) => JsonView::Bool(b),
        Node::Number(n) => JsonView::Number(n@),
        Node::Text(s) => JsonView::Text(s@),
        Node::Array(items) => JsonView::Array(item_trees(items@)),
        Node::Object(members) => JsonView::Object(member_trees(members@)),
    }
}

/// Tells the variants of a `serde_json::Value` apart and hands out what each
/// holds: a number as `Display` writes it, the members of an object as
/// `Map::iter` hands them out. The node holds what the value holds.
#[verifier::external_body]
fn node_of(value: &Value) -> (r: Node<'_>)
    ensures
        node_tree(r) == value_tree(*value),
{
    match value {
        Value::Null => Node::Null,
        Value::Bool(b) => Node::Bool(*b),
        Value::Number(n) => Node::Number(n.to_string()),
        Value::String(s) => Node::Text(s.clone()),
        Value::Array(a) => Node::Array(a),
        Value::Object(o) => Node::Object(o.iter().map(|(k, v)| (k.clone(), v)).collect()),
    }
}

/// Copies a value of the outside crate into a [`Json`], level by level.
fn json_of_value(value: &Value) -> (r: Json)
    ensures
        r@ == value_tree(*value),
    decreases value_tree(*value),
{
    match node_of(value) {
        Node::Null => Json::Null,
        Node::Bool(b) => Json::Bool(b),
        Node::Number(n) => Json::Number(n),
        Node::Text(s) => Json::Text(s),
        Node::Array(items) => {
            let ghost trees = item_trees(items@);
            let mut out: Vec<Json> = Vec::new();
            let mut i: usize = 0;
            while i < items.len()
                invariant
                    i <= items.len(),
                    trees == item_trees(items@),
                    value_tree(*value) == JsonView::Array(trees),
                    json_views(out@) == trees.take(i as int),
                decreases items.len() - i,
            {
                assert(trees[i as int] == value_tree(items@[i as int]));
                proof {
                    lemma_item_smaller(value_tree(*value), i as int);
                }
                let ghost before = json_views(out@);
                let item = json_of_value(&items[i]);
                out.push(item);
                assert(json_views(out@) == before.push(item@));
                assert(trees.take(i + 1) == trees.take(i as int).push(trees[i as int]));
                i += 1;
            }
            assert(trees.take(items.len() as int) == trees);
            proof {
                lemma_array_view(out);
            }
            Json::Array(out)
        },
        Node::Object(members) => {
            let ghost trees = member_trees(members@);
            let mut out: Vec<(String, Json)> = Vec::new();
            let mut i: usize = 0;
            while i < members.len()
                invariant
                    i <= members.len(),
                    trees == member_trees(members@),
                    value_tree(*value) == JsonView::Object(trees),
                    member_views(out@) == trees.take(i as int),
                decreases members.len() - i,
            {
                assert(trees[i as int] == (MemberView {
                    key: members@[i as int].0@,
                    value: value_tree(*members@[i as int].1),
                }));
                proof {
                    lemma_member_smaller(value_tree(*value), i as int);
                }
                let ghost before = member_views(out@);
                let key = members[i].0.clone();
                let item = json_of_value(members[i].1);
                out.push((key, item));
                assert(member_views(out@) == before.push(MemberView { key: key@, value: item@ }));
                assert(trees.take(i + 1) == trees.take(i as int).push(trees[i as int]));
                i += 1;
            }
            assert(trees.take(members.len() as int) == trees);
            proof {
                lemma_object_view(out);
            }
            Json::Object(out)
        },
    }
}

/// Reads a JSON text. `None` for a text that is no JSON document.
pub fn parse_json(text: &str) -> (r: Option<Json>)
    ensures
        match r {
            Some(j) => json_document(text@) == Some(j@),
            None => json_document(text@) is None,
        },
{
    match read_value(text) {
        Some(value) => Some(json_of_value(&value)),
        None => None,
    }
}

} // verus!

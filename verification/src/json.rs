//! JSON values, as `serde_json` builds, reads and writes them.

use serde_json::Value;
#[allow(unused_imports)]
use crate::quantity;
use vstd::prelude::*;

verus! {

/// What a JSON value holds.
pub enum JsonTree {
    /// `null`.
    Null,
    /// `true` or `false`.
    Bool(bool),
    /// A number, as it is written out.
    Number(Seq<char>),
    /// A string.
    Text(Seq<char>),
    /// The elements of an array, in order.
    Array(Seq<JsonTree>),
    /// The members of an object, by name.
    Object(Map<Seq<char>, JsonTree>),
}

impl JsonTree {
    /// The member with this name, where the tree is an object that has one.
    pub open spec fn member(self, name: Seq<char>) -> Option<JsonTree> {
        match self {
            JsonTree::Object(members) => if members.contains_key(name) {
                Some(members[name])
            } else {
                None
            },
            _ => None,
        }
    }

    /// The text, where the tree is a string.
    pub open spec fn text(self) -> Option<Seq<char>> {
        match self {
            JsonTree::Text(s) => Some(s),
            _ => None,
        }
    }

    /// The truth value, where the tree is one.
    pub open spec fn truth(self) -> Option<bool> {
        match self {
            JsonTree::Bool(b) => Some(b),
            _ => None,
        }
    }

    /// The string member with this name.
    pub open spec fn text_member(self, name: Seq<char>) -> Option<Seq<char>> {
        match self.member(name) {
            Some(v) => v.text(),
            None => None,
        }
    }

    /// Nested no deeper than `depth`, and every number is an integer.
    pub open spec fn simple(self, depth: nat) -> bool
        decreases depth,
    {
        match self {
            JsonTree::Number(text) => is_integer(text),
            JsonTree::Array(items) => depth > 0 && forall|i: int|
                0 <= i < items.len() ==> (#[trigger] items[i]).simple((depth - 1) as nat),
            JsonTree::Object(members) => depth > 0 && forall|k: Seq<char>|
                members.contains_key(k) ==> (#[trigger] members[k]).simple((depth - 1) as nat),
            _ => true,
        }
    }
}

/// The text of a `u64`, or of a negative `i64`.
pub open spec fn is_integer(text: Seq<char>) -> bool {
    ||| exists|n: u64| text == #[trigger] quantity::number_text(n as nat, 10)
    ||| exists|n: nat|
        1 <= n <= 0x8000_0000_0000_0000 && text == seq!['-'] + #[trigger] quantity::number_text(
            n,
            10,
        )
}

/// No name occurs twice in a list of pairs.
pub open spec fn distinct_names(pairs: Seq<(Seq<char>, JsonTree)>) -> bool {
    forall|i: int, j: int|
        0 <= i < j < pairs.len() ==> (#[trigger] pairs[i]).0 != (#[trigger] pairs[j]).0
}

/// The members that a list of pairs with distinct names makes.
pub open spec fn members_of(pairs: Seq<(Seq<char>, JsonTree)>) -> Map<Seq<char>, JsonTree>
    decreases pairs.len(),
{
    if pairs.len() == 0 {
        Map::empty()
    } else {
        members_of(pairs.drop_last()).insert(pairs.last().0, pairs.last().1)
    }
}

/// `serde_json::Value`, opaque here; `content` says what one holds.
#[verifier::external_type_specification]
#[verifier::external_body]
pub struct ExValue(serde_json::Value);

/// What a `serde_json::Value` holds. A number stands as `Number`'s `Display`
/// writes it.
pub uninterp spec fn content(v: Value) -> JsonTree;

/// The JSON document that a text is, if it is one that `serde_json` reads.
pub uninterp spec fn document(text: Seq<char>) -> Option<JsonTree>;

/// The compact text that `serde_json` writes for a value.
pub uninterp spec fn compact(tree: JsonTree) -> Seq<char>;

/// `Value::as_str`. Claimed: the text of a string, and nothing for any other
/// value.
pub assume_specification[ serde_json::Value::as_str ](v: &Value) -> (r: Option<&str>)
    ensures
        match r {
            Some(s) => content(*v).text() == Some(s@),
            None => content(*v).text() is None,
        },
;

/// `Value::as_bool`. Claimed: the truth value of a boolean, and nothing for
/// any other value.
pub assume_specification[ serde_json::Value::as_bool ](v: &Value) -> (r: Option<bool>)
    ensures
        r == content(*v).truth(),
;

/// `Value::get` with a string. Claimed: the member of that name, where the
/// value is an object that has one, and nothing otherwise.
#[verifier::external_body]
pub(crate) fn get_member<'a>(v: &'a Value, name: &str) -> (r: Option<&'a Value>)
    ensures
        match r {
            Some(m) => content(*v).member(name@) == Some(content(*m)),
            None => content(*v).member(name@) is None,
        },
{
    v.get(name)
}

/// `serde_json::from_str` into a `Value`. Claimed: whether it succeeds, and
/// what the value then holds, depends on the text alone.
#[verifier::external_body]
pub(crate) fn read_text(text: &str) -> (r: Option<Value>)
    ensures
        match r {
            Some(v) => document(text@) == Some(content(v)),
            None => document(text@) is None,
        },
{
    serde_json::from_str(text).ok()
}

/// `serde_json::to_string` of a `Value`. Claimed: it succeeds, since a
/// `Value` has string keys and finite numbers only; the text depends on what
/// the value holds alone; it is one line; and where the value is nested no
/// deeper than the reader allows and its numbers are integers, reading the
/// text gives the same value back. Not claimed: that a number with a fraction
/// or an exponent reads back.
#[verifier::external_body]
pub(crate) fn write_text(v: &Value) -> (r: Option<String>)
    ensures
        r is Some,
        r->0@ == compact(content(*v)),
        forall|i: int| 0 <= i < r->0@.len() ==> #[trigger] r->0@[i] != '\n',
        content(*v).simple(127) ==> document(r->0@) == Some(content(*v)),
{
    serde_json::to_string(v).ok()
}

/// `Value::from` a string slice. Claimed: a JSON string with that text.
#[verifier::external_body]
pub(crate) fn string_value(s: &str) -> (r: Value)
    ensures
        content(r) == JsonTree::Text(s@),
{
    Value::from(s)
}

/// `Value::from` a `u64`. Claimed: a JSON number, written in decimal.
#[verifier::external_body]
pub(crate) fn number_value(n: u64) -> (r: Value)
    ensures
        content(r) == JsonTree::Number(quantity::number_text(n as nat, 10)),
{
    Value::from(n)
}

/// `Value::Array`. Claimed: an array of these elements, in this order.
#[verifier::external_body]
pub(crate) fn array_value(items: Vec<Value>) -> (r: Value)
    ensures
        content(r) == JsonTree::Array(contents(items@)),
{
    Value::Array(items)
}

/// `Value::from_iter` over name and value pairs. Claimed: where no name occurs
/// twice, an object with these members. Nothing is claimed of a repeated name.
#[verifier::external_body]
pub(crate) fn object_value(pairs: Vec<(String, Value)>) -> (r: Value)
    requires
        distinct_names(pair_trees(pairs@)),
    ensures
        content(r) == JsonTree::Object(members_of(pair_trees(pairs@))),
{
    Value::from_iter(pairs)
}

/// The names and contents of a list of pairs.
pub open spec fn pair_trees(pairs: Seq<(String, Value)>) -> Seq<(Seq<char>, JsonTree)> {
    pairs.map_values(|p: (String, Value)| (p.0@, content(p.1)))
}

/// The contents of a list of values.
pub open spec fn contents(items: Seq<Value>) -> Seq<JsonTree> {
    items.map_values(|v: Value| content(v))
}

/// The strings of a list, as JSON.
pub open spec fn texts(items: Seq<Seq<char>>) -> Seq<JsonTree> {
    items.map_values(|s: Seq<char>| JsonTree::Text(s))
}

/// The views of a list of strings.
pub open spec fn string_views(items: Seq<String>) -> Seq<Seq<char>> {
    items.map_values(|s: String| s@)
}

/// No members yet.
pub(crate) fn no_members() -> (r: Vec<(String, Value)>)
    ensures
        distinct_names(pair_trees(r@)),
        members_of(pair_trees(r@)) == Map::<Seq<char>, JsonTree>::empty(),
{
    let r: Vec<(String, Value)> = Vec::new();
    assert(pair_trees(r@) =~= Seq::<(Seq<char>, JsonTree)>::empty());
    r
}

/// The name of each pair is that of a member.
proof fn lemma_members_of_name(pairs: Seq<(Seq<char>, JsonTree)>, i: int)
    requires
        0 <= i < pairs.len(),
    ensures
        members_of(pairs).contains_key(pairs[i].0),
    decreases pairs.len(),
{
    if i < pairs.len() - 1 {
        lemma_members_of_name(pairs.drop_last(), i);
    }
}

/// One member more, under a new name.
pub(crate) fn add_member(pairs: &mut Vec<(String, Value)>, name: &str, value: Value)
    requires
        distinct_names(pair_trees(old(pairs)@)),
        !members_of(pair_trees(old(pairs)@)).contains_key(name@),
    ensures
        distinct_names(pair_trees(final(pairs)@)),
        members_of(pair_trees(final(pairs)@)) == members_of(pair_trees(old(pairs)@)).insert(
            name@,
            content(value),
        ),
{
    let ghost before = pair_trees(pairs@);
    pairs.push((String::from_str(name), value));
    proof {
        assert(pair_trees(pairs@) =~= before.push((name@, content(value))));
        assert(pair_trees(pairs@).drop_last() =~= before);
        assert forall|i: int| 0 <= i < before.len() implies (#[trigger] before[i]).0 != name@ by {
            lemma_members_of_name(before, i);
        }
    }
}

/// An array with one element.
pub(crate) fn singleton_value(item: Value) -> (r: Value)
    ensures
        content(r) == JsonTree::Array(seq![content(item)]),
{
    let mut items: Vec<Value> = Vec::new();
    items.push(item);
    assert(contents(items@) =~= seq![content(item)]);
    array_value(items)
}

/// An array of strings.
pub(crate) fn text_array(items: &Vec<String>) -> (r: Value)
    ensures
        content(r) == JsonTree::Array(texts(string_views(items@))),
{
    let mut values: Vec<Value> = Vec::new();
    let mut i: usize = 0;
    while i < items.len()
        invariant
            i <= items@.len(),
            contents(values@) == texts(string_views(items@)).take(i as int),
        decreases items@.len() - i,
    {
        let ghost before = contents(values@);
        values.push(string_value(items[i].as_str()));
        i = i + 1;
        assert(contents(values@) =~= before.push(JsonTree::Text(items@[i - 1]@)));
        assert(contents(values@) =~= texts(string_views(items@)).take(i as int));
    }
    assert(contents(values@) =~= texts(string_views(items@)));
    array_value(values)
}

/// One line for the mesh: the compact text of a value, and a line feed. There
/// is no other line feed in it, and a simple value reads back from it.
pub fn encode_line(v: &Value) -> (r: String)
    ensures
        r@ == compact(content(*v)).push('\n'),
        forall|i: int| 0 <= i < r@.len() - 1 ==> #[trigger] r@[i] != '\n',
        content(*v).simple(127) ==> document(r@.drop_last()) == Some(content(*v)),
{
    proof {
        reveal_strlit("\n");
    }
    let text = write_text(v).unwrap();
    let ghost body = text@;
    let line = text.concat("\n");
    assert(line@ =~= body.push('\n'));
    assert(line@.drop_last() =~= body);
    line
}

/// Only an object has members, and a member is found under its own name alone.
pub proof fn law_members_are_those_of_objects(tree: JsonTree, name: Seq<char>)
    ensures
        match tree {
            JsonTree::Object(members) => {
                &&& members.contains_key(name) ==> tree.member(name) == Some(members[name])
                &&& !members.contains_key(name) ==> tree.member(name) is None
            },
            _ => tree.member(name) is None,
        },
        tree.text_member(name) == match tree.member(name) {
            Some(JsonTree::Text(s)) => Some(s),
            _ => None,
        },
        tree.text() == match tree {
            JsonTree::Text(s) => Some(s),
            _ => None,
        },
        tree.truth() == match tree {
            JsonTree::Bool(b) => Some(b),
            _ => None,
        },
{
}

/// Pairs with distinct names make an object that has each of them as a member,
/// and no other.
pub proof fn law_each_pair_is_a_member(pairs: Seq<(Seq<char>, JsonTree)>)
    requires
        forall|i: int, j: int|
            0 <= i < j < pairs.len() ==> (#[trigger] pairs[i]).0 != (#[trigger] pairs[j]).0,
    ensures
        forall|i: int|
            0 <= i < pairs.len() ==> members_of(pairs).contains_key((#[trigger] pairs[i]).0)
                && members_of(pairs)[pairs[i].0] == pairs[i].1,
        forall|name: Seq<char>| #[trigger]
            members_of(pairs).contains_key(name) ==> exists|i: int|
                0 <= i < pairs.len() && (#[trigger] pairs[i]).0 == name,
    decreases pairs.len(),
{
    if pairs.len() > 0 {
        let front = pairs.drop_last();
        assert forall|i: int, j: int| 0 <= i < j < front.len() implies (#[trigger] front[i]).0 != (
        #[trigger] front[j]).0 by {
            assert(pairs[i].0 != pairs[j].0);
        }
        law_each_pair_is_a_member(front);
        assert forall|i: int| 0 <= i < pairs.len() implies members_of(pairs).contains_key(
            (#[trigger] pairs[i]).0,
        ) && members_of(pairs)[pairs[i].0] == pairs[i].1 by {
            if i < front.len() {
                assert(front[i] == pairs[i]);
                assert(pairs[i].0 != pairs[pairs.len() - 1].0);
            }
        }
        assert forall|name: Seq<char>| #[trigger] members_of(pairs).contains_key(name) implies exists|
            i: int,
        |
            0 <= i < pairs.len() && (#[trigger] pairs[i]).0 == name by {
            if name == pairs.last().0 {
                assert(pairs[pairs.len() - 1].0 == name);
            } else {
                assert(members_of(front).contains_key(name));
                let i = choose|i: int| 0 <= i < front.len() && (#[trigger] front[i]).0 == name;
                assert(pairs[i].0 == name);
            }
        }
    }
}

/// Lists are turned into JSON one element for one, in order.
pub proof fn law_lists_keep_their_elements(
    pairs: Seq<(String, Value)>,
    values: Seq<Value>,
    strings: Seq<String>,
    views: Seq<Seq<char>>,
    i: int,
)
    ensures
        pair_trees(pairs).len() == pairs.len(),
        0 <= i < pairs.len() ==> pair_trees(pairs)[i] == (pairs[i].0@, content(pairs[i].1)),
        contents(values).len() == values.len(),
        0 <= i < values.len() ==> contents(values)[i] == content(values[i]),
        string_views(strings).len() == strings.len(),
        0 <= i < strings.len() ==> string_views(strings)[i] == strings[i]@,
        texts(views).len() == views.len(),
        0 <= i < views.len() ==> texts(views)[i] == JsonTree::Text(views[i]),
{
}

/// `null`, truth values, texts and integers are simple at any depth; an array
/// or an object is where there is one level left for it and what it holds is
/// simple below that.
pub proof fn law_simple_by_level(
    depth: nat,
    n: u64,
    negative: i64,
    items: Seq<JsonTree>,
    members: Map<Seq<char>, JsonTree>,
)
    requires
        negative < 0,
    ensures
        JsonTree::Null.simple(depth),
        forall|b: bool| #[trigger] JsonTree::Bool(b).simple(depth),
        forall|s: Seq<char>| #[trigger] JsonTree::Text(s).simple(depth),
        JsonTree::Number(quantity::number_text(n as nat, 10)).simple(depth),
        JsonTree::Number(
            seq!['-'] + quantity::number_text((-negative) as nat, 10),
        ).simple(depth),
        JsonTree::Array(items).simple(depth) <==> depth > 0 && forall|i: int|
            0 <= i < items.len() ==> (#[trigger] items[i]).simple((depth - 1) as nat),
        JsonTree::Object(members).simple(depth) <==> depth > 0 && forall|k: Seq<char>|
            members.contains_key(k) ==> (#[trigger] members[k]).simple((depth - 1) as nat),
{
    if depth > 0 {
        let below = (depth - 1) as nat;
        let (array, object) = (JsonTree::Array(items), JsonTree::Object(members));
        reveal_with_fuel(JsonTree::simple, 2);
        if array.simple(depth) {
            assert forall|i: int| 0 <= i < items.len() implies (#[trigger] items[i]).simple(
                below,
            ) by {
                assert(array->Array_0[i].simple((depth - 1) as nat));
            }
        }
        if forall|i: int| 0 <= i < items.len() ==> (#[trigger] items[i]).simple(below) {
            assert(array.simple(depth));
        }
        if object.simple(depth) {
            assert forall|k: Seq<char>| members.contains_key(k) implies (
            #[trigger] members[k]).simple(below) by {
                assert(object->Object_0[k].simple((depth - 1) as nat));
            }
        }
        if forall|k: Seq<char>|
            members.contains_key(k) ==> (#[trigger] members[k]).simple(below) {
            assert(object.simple(depth));
        }
    }
}

} // verus!

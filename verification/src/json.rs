//! JSON values: reading them from text, looking into them, building them, and writing them out.
//!
//! The reading and the writing are `serde_json`'s. Contracts speak of a value through its tree,
//! [`JsonView`].

use serde_json::Value;
use vstd::prelude::*;

use crate::text::decimal;

verus! {

/// `serde_json::Value`, opaque: what it holds is [`value_tree`].
#[verifier::external_type_specification]
#[verifier::external_body]
pub struct ExValue(serde_json::Value);

/// What a JSON value holds.
pub ghost enum JsonView {
    Null,
    Bool(bool),
    /// A number: what it is as an unsigned 64-bit integer, where it was written as one, and the
    /// text that it is written out as.
    Number { unsigned: Option<u64>, text: Seq<char> },
    Text(Seq<char>),
    Array(Seq<JsonView>),
    Object(Map<Seq<char>, JsonView>),
}

/// What a `serde_json::Value` holds: the variant and its contents, an array's items and an
/// object's members each by what they hold in turn.
pub uninterp spec fn value_tree(value: Value) -> JsonView;

/// The value that `serde_json::from_str` reads from a text, if the text is one JSON value.
pub uninterp spec fn json_document(text: Seq<char>) -> Option<JsonView>;

/// The text that `serde_json` writes for a value, with no white space between its parts.
pub uninterp spec fn json_text(tree: JsonView) -> Seq<char>;

/// What the items of an array hold.
pub open spec fn value_trees(items: Seq<Value>) -> Seq<JsonView> {
    items.map_values(|v: Value| value_tree(v))
}

/// The members of an object that is filled from a list of entries.
pub open spec fn members(entries: Seq<(Seq<char>, JsonView)>) -> Map<Seq<char>, JsonView>
    decreases entries.len(),
{
    if entries.len() == 0 {
        Map::empty()
    } else {
        members(entries.drop_last()).insert(entries.last().0, entries.last().1)
    }
}

/// No two entries have one key.
pub open spec fn keys_differ(entries: Seq<(Seq<char>, JsonView)>) -> bool {
    forall|i: int, j: int|
        0 <= i < j < entries.len() ==> (#[trigger] entries[i]).0 != (#[trigger] entries[j]).0
}

/// What the entries for an object hold.
pub open spec fn entry_trees(entries: Seq<(String, Value)>) -> Seq<(Seq<char>, JsonView)> {
    entries.map_values(|e: (String, Value)| (e.0@, value_tree(e.1)))
}

/// The member of `tree` under `key`, where `tree` is an object that has one.
pub open spec fn member(tree: JsonView, key: Seq<char>) -> Option<JsonView> {
    match tree {
        JsonView::Object(map) => if map.contains_key(key) {
            Some(map[key])
        } else {
            None
        },
        _ => None,
    }
}

/// The characters of a value that is a text.
pub open spec fn as_text(tree: JsonView) -> Option<Seq<char>> {
    match tree {
        JsonView::Text(text) => Some(text),
        _ => None,
    }
}

/// The characters of the member under `key`, where it is a text.
pub open spec fn text_member(tree: JsonView, key: Seq<char>) -> Option<Seq<char>> {
    match member(tree, key) {
        Some(value) => as_text(value),
        None => None,
    }
}

/// The unsigned integer under `key`, where the member was written as one.
pub open spec fn unsigned_member(tree: JsonView, key: Seq<char>) -> Option<u64> {
    match member(tree, key) {
        Some(JsonView::Number { unsigned, text }) => unsigned,
        _ => None,
    }
}

/// An object without members, or null.
pub open spec fn is_blank(tree: JsonView) -> bool {
    match tree {
        JsonView::Object(map) => map =~= Map::empty(),
        JsonView::Null => true,
        _ => false,
    }
}

/// The text starts with a capital letter, as no JSON value does.
pub open spec fn starts_with_capital(text: Seq<char>) -> bool {
    text.len() > 0 && 'A' <= text[0] <= 'Z'
}

/// An unsigned integer as a value.
pub open spec fn unsigned_tree(n: u64) -> JsonView {
    JsonView::Number { unsigned: Some(n), text: decimal(n as nat) }
}

/// `serde_json::from_str::<Value>`: what it reads from the text, under the name
/// [`json_document`]; `None` where it reports an error, as it does where the first character is
/// a capital letter, with which no value starts.
#[verifier::external_body]
fn value_from_str(text: &str) -> (r: Option<Value>)
    ensures
        match r {
            Some(value) => json_document(text@) == Some(value_tree(value)),
            None => json_document(text@) is None,
        },
        starts_with_capital(text@) ==> r is None,
{
    serde_json::from_str(text).ok()
}

/// `Value`'s `to_string`: the text that it writes depends on what the value holds alone and has
/// the name [`json_text`].
#[verifier::external_body]
fn value_to_string(value: &Value) -> (r: String)
    ensures
        r@ == json_text(value_tree(*value)),
{
    value.to_string()
}

/// `Value::get` with a text for index: the object's member under that key, and nothing where
/// there is none or the value is no object.
#[verifier::external_body]
fn value_get<'a>(value: &'a Value, key: &str) -> (r: Option<&'a Value>)
    ensures
        match r {
            Some(found) => member(value_tree(*value), key@) == Some(value_tree(*found)),
            None => member(value_tree(*value), key@) is None,
        },
{
    value.get(key)
}

/// `Value::as_str`: the characters of a text, and nothing for any other value.
#[verifier::external_body]
fn value_as_str(value: &Value) -> (r: Option<&str>)
    ensures
        match r {
            Some(text) => as_text(value_tree(*value)) == Some(text@),
            None => as_text(value_tree(*value)) is None,
        },
{
    value.as_str()
}

/// `Value::as_u64`: a number that is an unsigned 64-bit integer, and nothing for any other value.
#[verifier::external_body]
fn value_as_u64(value: &Value) -> (r: Option<u64>)
    ensures
        r == (match value_tree(*value) {
            JsonView::Number { unsigned, text } => unsigned,
            _ => None,
        }),
{
    value.as_u64()
}

/// `Value::as_array`: the items of an array, in order, and nothing for any other value.
#[verifier::external_body]
fn value_as_array(value: &Value) -> (r: Option<&Vec<Value>>)
    ensures
        match r {
            Some(items) => value_tree(*value) == JsonView::Array(value_trees(items@)),
            None => !(value_tree(*value) is Array),
        },
{
    value.as_array()
}

/// `Value::as_object`, and of the map that it hands out whether `Map::is_empty` holds; nothing
/// for a value that is no object.
#[verifier::external_body]
fn value_object_is_empty(value: &Value) -> (r: Option<bool>)
    ensures
        match r {
            Some(empty) => value_tree(*value) is Object && empty == is_blank(value_tree(*value)),
            None => !(value_tree(*value) is Object),
        },
{
    value.as_object().map(|map| map.is_empty())
}

/// `Value::is_null`: whether the value is null.
#[verifier::external_body]
fn value_is_null(value: &Value) -> (r: bool)
    ensures
        r == (value_tree(*value) is Null),
{
    value.is_null()
}

/// `Value`'s `clone`: a value that holds the same.
#[verifier::external_body]
fn value_clone(value: &Value) -> (r: Value)
    ensures
        value_tree(r) == value_tree(*value),
{
    value.clone()
}

/// `Value::String`: the value that holds the text.
#[verifier::external_body]
fn text_value(text: String) -> (r: Value)
    ensures
        value_tree(r) == JsonView::Text(text@),
{
    Value::String(text)
}

/// `Value::from` an unsigned 64-bit integer: the number, written out in decimal digits.
#[verifier::external_body]
fn unsigned_value(n: u64) -> (r: Value)
    ensures
        value_tree(r) == unsigned_tree(n),
{
    Value::from(n)
}

/// `Value::Array`: the value that holds the items, in order.
#[verifier::external_body]
fn array_value(items: Vec<Value>) -> (r: Value)
    ensures
        value_tree(r) == JsonView::Array(value_trees(items@)),
{
    Value::Array(items)
}

/// `Value::Object` over a `serde_json::Map` collected from the entries: the value that holds
/// them, where no two have one key.
#[verifier::external_body]
fn object_value(entries: Vec<(String, Value)>) -> (r: Value)
    requires
        keys_differ(entry_trees(entries@)),
    ensures
        value_tree(r) == JsonView::Object(members(entry_trees(entries@))),
{
    Value::Object(entries.into_iter().collect())
}

/// A JSON value.
pub struct Json {
    value: Value,
}

impl View for Json {
    type V = JsonView;

    closed spec fn view(&self) -> JsonView {
        value_tree(self.value)
    }
}

/// What the values of a list hold.
pub open spec fn trees(items: Seq<Json>) -> Seq<JsonView> {
    items.map_values(|j: Json| j@)
}

/// What the entries for an object hold.
pub open spec fn named_trees(entries: Seq<(String, Json)>) -> Seq<(Seq<char>, JsonView)> {
    entries.map_values(|e: (String, Json)| (e.0@, e.1@))
}

impl Json {
    /// The value that the text writes out, if it is one JSON value.
    pub fn parse(text: &str) -> (r: Option<Json>)
        ensures
            match r {
                Some(json) => json_document(text@) == Some(json@),
                None => json_document(text@) is None,
            },
            starts_with_capital(text@) ==> r is None,
    {
        match value_from_str(text) {
            Some(value) => Some(Json { value }),
            None => None,
        }
    }

    /// The value written out as text.
    pub fn to_text(&self) -> (r: String)
        ensures
            r@ == json_text(self@),
    {
        value_to_string(&self.value)
    }

    /// The text as a value.
    pub fn text(text: String) -> (r: Json)
        ensures
            r@ == JsonView::Text(text@),
    {
        Json { value: text_value(text) }
    }

    /// The number as a value.
    pub fn unsigned(n: u64) -> (r: Json)
        ensures
            r@ == unsigned_tree(n),
    {
        Json { value: unsigned_value(n) }
    }

    /// The array of the items.
    pub fn array(items: Vec<Json>) -> (r: Json)
        ensures
            r@ == JsonView::Array(trees(items@)),
    {
        let mut values: Vec<Value> = Vec::new();
        let ghost all = items@;
        for item in it: items
            invariant
                it.seq() == all,
                value_trees(values@) == trees(all.take(it.index() as int)),
        {
            let ghost i = it.index() as int;
            let ghost before = values@;
            values.push(item.value);
            proof {
                assert(value_trees(values@) =~= value_trees(before).push(item@));
                assert(all.take(i + 1) =~= all.take(i).push(item));
                assert(trees(all.take(i + 1)) =~= trees(all.take(i)).push(item@));
            }
        }
        assert(all.take(all.len() as int) =~= all);
        Json { value: array_value(values) }
    }

    /// The object with the given members.
    pub fn object(entries: Vec<(String, Json)>) -> (r: Json)
        requires
            keys_differ(named_trees(entries@)),
        ensures
            r@ == JsonView::Object(members(named_trees(entries@))),
    {
        let mut values: Vec<(String, Value)> = Vec::new();
        let ghost all = entries@;
        for entry in it: entries
            invariant
                it.seq() == all,
                entry_trees(values@) == named_trees(all.take(it.index() as int)),
        {
            let ghost i = it.index() as int;
            let ghost before = values@;
            let ghost added = (entry.0@, entry.1@);
            assert(all.take(i + 1) =~= all.take(i).push(entry));
            assert(named_trees(all.take(i + 1)) =~= named_trees(all.take(i)).push(added));
            values.push((entry.0, entry.1.value));
            assert(entry_trees(values@) =~= entry_trees(before).push(added));
        }
        assert(all.take(all.len() as int) =~= all);
        Json { value: object_value(values) }
    }

    /// A copy of the member under `key`, where the value is an object that has one.
    pub fn get(&self, key: &str) -> (r: Option<Json>)
        ensures
            match r {
                Some(json) => member(self@, key@) == Some(json@),
                None => member(self@, key@) is None,
            },
    {
        match value_get(&self.value, key) {
            Some(value) => Some(Json { value: value_clone(value) }),
            None => None,
        }
    }

    /// The characters of a text.
    pub fn as_str(&self) -> (r: Option<&str>)
        ensures
            match r {
                Some(text) => as_text(self@) == Some(text@),
                None => as_text(self@) is None,
            },
    {
        value_as_str(&self.value)
    }

    /// The characters of the member under `key`, where it is a text.
    pub fn get_str(&self, key: &str) -> (r: Option<String>)
        ensures
            match r {
                Some(text) => text_member(self@, key@) == Some(text@),
                None => text_member(self@, key@) is None,
            },
    {
        match value_get(&self.value, key) {
            Some(value) => match value_as_str(value) {
                Some(text) => Some(text.to_string()),
                None => None,
            },
            None => None,
        }
    }

    /// The unsigned integer under `key`, where the member is one.
    pub fn get_u64(&self, key: &str) -> (r: Option<u64>)
        ensures
            r == unsigned_member(self@, key@),
    {
        match value_get(&self.value, key) {
            Some(value) => value_as_u64(value),
            None => None,
        }
    }

    /// A copy of the first item of an array that has one.
    pub fn first(&self) -> (r: Option<Json>)
        ensures
            match r {
                Some(json) => self@ matches JsonView::Array(items) && items.len() > 0 && json@
                    == items[0],
                None => self@ matches JsonView::Array(items) ==> items.len() == 0,
            },
    {
        match value_as_array(&self.value) {
            Some(items) => if items.len() > 0 {
                Some(Json { value: value_clone(&items[0]) })
            } else {
                None
            },
            None => None,
        }
    }
}

/// Whether the value is an object without members, or null.
pub fn is_empty_obj(json: &Json) -> (r: bool)
    ensures
        r == is_blank(json@),
{
    match value_object_is_empty(&json.value) {
        Some(empty) => empty,
        None => value_is_null(&json.value),
    }
}

/// Looking into a value finds the member of an object under the key, as it is, and in anything
/// else nothing: the member itself, its characters where it is a text, and its value where it is a
/// number that is an unsigned integer.
pub proof fn law_members_are_found(
    json: &Json,
    key: &str,
    found: Option<Json>,
    text: Option<String>,
    number: Option<u64>,
)
    requires
        call_ensures(Json::get, (json, key), found),
        call_ensures(Json::get_str, (json, key), text),
        call_ensures(Json::get_u64, (json, key), number),
    ensures
        !(json@ is Object) ==> found is None && text is None && number is None,
        json@ matches JsonView::Object(map) ==> if map.contains_key(key@) {
            &&& found is Some && found->0@ == map[key@]
            &&& match map[key@] {
                JsonView::Text(chars) => text is Some && text->0@ == chars && number is None,
                JsonView::Number { unsigned, text: digits } => text is None && number == unsigned,
                _ => text is None && number is None,
            }
        } else {
            found is None && text is None && number is None
        },
{
}

/// The characters of a value are those of a text, the first item that of an array, and a value is
/// blank exactly if it is null or an object without a member.
pub proof fn law_values_are_told_apart(
    json: &Json,
    text: Option<&str>,
    first: Option<Json>,
    blank: bool,
)
    requires
        call_ensures(Json::as_str, (json,), text),
        call_ensures(Json::first, (json,), first),
        call_ensures(is_empty_obj, (json,), blank),
    ensures
        text is Some <==> json@ is Text,
        json@ matches JsonView::Text(chars) ==> text->0@ == chars,
        first is Some <==> json@ is Array && json@->Array_0.len() > 0,
        first is Some ==> first->0@ == json@->Array_0[0],
        blank <==> json@ is Null || (json@ is Object && forall|key: Seq<char>|
            !#[trigger] json@->Object_0.contains_key(key)),
{
    if json@ is Object {
        let map = json@->Object_0;
        if forall|key: Seq<char>| !#[trigger] map.contains_key(key) {
            assert(map =~= Map::empty());
        }
    }
}

proof fn lemma_members(entries: Seq<(Seq<char>, JsonView)>)
    requires
        keys_differ(entries),
    ensures
        forall|i: int|
            0 <= i < entries.len() ==> members(entries).contains_key((#[trigger] entries[i]).0)
                && members(entries)[entries[i].0] == entries[i].1,
        forall|key: Seq<char>| #[trigger]
            members(entries).contains_key(key) ==> exists|i: int|
                0 <= i < entries.len() && (#[trigger] entries[i]).0 == key,
    decreases entries.len(),
{
    if entries.len() > 0 {
        let front = entries.drop_last();
        let n = entries.len() - 1;
        assert(forall|i: int| 0 <= i < front.len() ==> front[i] == entries[i]);
        lemma_members(front);
        assert forall|i: int| 0 <= i < entries.len() implies members(entries).contains_key(
            (#[trigger] entries[i]).0,
        ) && members(entries)[entries[i].0] == entries[i].1 by {
            if i < n {
                assert(front[i] == entries[i]);
                assert(entries[i].0 != entries[n].0);
            }
        }
        assert forall|key: Seq<char>| #[trigger] members(entries).contains_key(key) implies exists|
            i: int,
        | 0 <= i < entries.len() && (#[trigger] entries[i]).0 == key by {
            if key == entries[n].0 {
            } else {
                assert(members(front).contains_key(key));
                let i = choose|i: int| 0 <= i < front.len() && (#[trigger] front[i]).0 == key;
                assert(entries[i].0 == key);
            }
        }
    }
}

/// What is put into a value is in it: a text, a number, the items of an array each in its place,
/// and the members of an object each under its key, with no others.
pub proof fn law_values_hold_what_they_are_made_of(
    text: String,
    n: u64,
    items: Vec<Json>,
    entries: Vec<(String, Json)>,
    of_text: Json,
    of_number: Json,
    of_items: Json,
    of_entries: Json,
)
    requires
        call_ensures(Json::text, (text,), of_text),
        call_ensures(Json::unsigned, (n,), of_number),
        call_ensures(Json::array, (items,), of_items),
        call_ensures(Json::object, (entries,), of_entries),
        forall|i: int, j: int|
            0 <= i < j < entries@.len() ==> (#[trigger] entries@[i]).0@ != (#[trigger] entries@[j]).0@,
    ensures
        of_text@ == JsonView::Text(text@),
        of_number@ matches JsonView::Number { unsigned, text: _ } && unsigned == Some(n),
        of_items@ is Array && of_items@->Array_0.len() == items@.len(),
        forall|i: int|
            0 <= i < items@.len() ==> of_items@->Array_0[i] == (#[trigger] items@[i])@,
        of_entries@ is Object,
        forall|i: int|
            0 <= i < entries@.len() ==> of_entries@->Object_0.contains_key(
                (#[trigger] entries@[i]).0@,
            ) && of_entries@->Object_0[entries@[i].0@] == entries@[i].1@,
        forall|key: Seq<char>| #[trigger]
            of_entries@->Object_0.contains_key(key) ==> exists|i: int|
                0 <= i < entries@.len() && (#[trigger] entries@[i]).0@ == key,
{
    let named = named_trees(entries@);
    assert(named.len() == entries@.len());
    assert forall|i: int, j: int| 0 <= i < j < named.len() implies (#[trigger] named[i]).0 != (
    #[trigger] named[j]).0 by {
        assert(named[i].0 == entries@[i].0@);
        assert(named[j].0 == entries@[j].0@);
    }
    lemma_members(named);
    let map = of_entries@->Object_0;
    assert forall|i: int| 0 <= i < entries@.len() implies map.contains_key(
        (#[trigger] entries@[i]).0@,
    ) && map[entries@[i].0@] == entries@[i].1@ by {
        assert(named[i] == (entries@[i].0@, entries@[i].1@));
    }
    assert forall|key: Seq<char>| #[trigger] map.contains_key(key) implies exists|i: int|
        0 <= i < entries@.len() && (#[trigger] entries@[i]).0@ == key by {
        let i = choose|i: int| 0 <= i < named.len() && (#[trigger] named[i]).0 == key;
        assert(entries@[i].0@ == key);
    }
    assert forall|i: int| 0 <= i < items@.len() implies of_items@->Array_0[i] == (
    #[trigger] items@[i])@ by {
        assert(trees(items@)[i] == items@[i]@);
    }
}

} // verus!

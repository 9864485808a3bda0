//! JSON values: `serde_json`'s value type with its contents as a tree.

use vstd::prelude::*;

verus! {

/// `serde_json::Value`. What is in one is named by `value_tree`.
#[verifier::external_type_specification]
#[verifier::external_body]
pub struct ExValue(serde_json::Value);

/// What a JSON value holds. Objects list their fields in the order in which
/// `serde_json` walks them; what a number is does not matter here.
pub enum JsonTree {
    Null,
    Bool(bool),
    Number(int),
    Text(Seq<char>),
    List(Seq<JsonTree>),
    Object(Seq<(Seq<char>, JsonTree)>),
}

/// The contents of a `serde_json::Value`.
pub uninterp spec fn value_tree(value: serde_json::Value) -> JsonTree;

/// What `serde_json::from_str` reads as a value: nothing where the text is not
/// JSON.
pub uninterp spec fn parsed_json(text: Seq<char>) -> Option<JsonTree>;

/// What `serde_json::to_string` writes for a value.
pub uninterp spec fn rendered_json(tree: JsonTree) -> Option<Seq<char>>;

/// `serde_json::from_str::<serde_json::Value>`: the value that the text
/// spells, if it is JSON. That depends on the text alone.
#[verifier::external_body]
pub(crate) fn parse_value(text: &str) -> (r: Option<serde_json::Value>)
    ensures
        match r {
            Some(value) => parsed_json(text@) == Some(value_tree(value)),
            None => parsed_json(text@) is None,
        },
{
    serde_json::from_str::<serde_json::Value>(text).ok()
}

/// `serde_json::to_string`: the text of a value, which depends on its contents
/// alone.
#[verifier::external_body]
pub(crate) fn render_value(value: &serde_json::Value) -> (r: Option<String>)
    ensures
        match r {
            Some(text) => rendered_json(value_tree(*value)) == Some(text@),
            None => rendered_json(value_tree(*value)) is None,
        },
{
    serde_json::to_string(value).ok()
}

/// The text that a tree is, if it is one.
pub open spec fn tree_text(tree: JsonTree) -> Option<Seq<char>> {
    match tree {
        JsonTree::Text(text) => Some(text),
        _ => None,
    }
}

/// Whether the field `key` of an object stands at `i`.
pub open spec fn is_field(fields: Seq<(Seq<char>, JsonTree)>, key: Seq<char>, i: int) -> bool {
    0 <= i < fields.len() && fields[i].0 == key
}

/// The field `key` of a tree, if it is an object that has one.
pub open spec fn tree_field(tree: JsonTree, key: Seq<char>) -> Option<JsonTree> {
    match tree {
        JsonTree::Object(fields) => if exists|i: int| is_field(fields, key, i) {
            Some(fields[choose|i: int| is_field(fields, key, i)].1)
        } else {
            None
        },
        _ => None,
    }
}

/// `serde_json::Value::as_str`: the text of a text value.
#[verifier::external_body]
pub(crate) fn value_text(value: &serde_json::Value) -> (r: Option<&str>)
    ensures
        match r {
            Some(text) => tree_text(value_tree(*value)) == Some(text@),
            None => tree_text(value_tree(*value)) is None,
        },
{
    value.as_str()
}

/// `serde_json::Value::get` with a text: the field of an object. Other values
/// have no fields.
#[verifier::external_body]
pub(crate) fn value_field<'a>(value: &'a serde_json::Value, key: &str) -> (r: Option<
    &'a serde_json::Value,
>)
    ensures
        match r {
            Some(field) => tree_field(value_tree(*value), key@) == Some(value_tree(*field)),
            None => tree_field(value_tree(*value), key@) is None,
        },
{
    value.get(key)
}

/// `serde_json::Value::as_array`: the items of an array.
#[verifier::external_body]
pub(crate) fn value_items(value: &serde_json::Value) -> (r: Option<&Vec<serde_json::Value>>)
    ensures
        match r {
            Some(items) => value_tree(*value) == JsonTree::List(
                items@.map_values(|item: serde_json::Value| value_tree(item)),
            ),
            None => !(value_tree(*value) is List),
        },
{
    value.as_array()
}

/// What `serde_json::Value::as_i64` makes of a value: the number where the
/// value is an integer that fits, else nothing.
pub uninterp spec fn integer_of(tree: JsonTree) -> Option<i64>;

/// `serde_json::Value::as_i64`: the result depends on the contents alone.
#[verifier::external_body]
pub(crate) fn value_integer(value: &serde_json::Value) -> (r: Option<i64>)
    ensures
        r == integer_of(value_tree(*value)),
{
    value.as_i64()
}

/// `serde_json::Value::is_object`: whether the value is an object.
#[verifier::external_body]
pub(crate) fn is_object(value: &serde_json::Value) -> (r: bool)
    ensures
        r == (value_tree(*value) is Object),
{
    value.is_object()
}

/// A value taken apart as far as texts can be in it.
pub(crate) enum ValueShape {
    Text(String),
    List(Vec<serde_json::Value>),
    Object(Vec<(String, serde_json::Value)>),
    Plain,
}

/// The tree of a list of values.
pub open spec fn list_tree(items: Seq<serde_json::Value>) -> Seq<JsonTree> {
    items.map_values(|item: serde_json::Value| value_tree(item))
}

/// The tree of a list of fields.
pub open spec fn fields_tree(fields: Seq<(String, serde_json::Value)>) -> Seq<
    (Seq<char>, JsonTree),
> {
    fields.map_values(|field: (String, serde_json::Value)| (field.0@, value_tree(field.1)))
}

/// Tells the variants of `serde_json::Value` apart: a text, the items of an
/// array, the fields of an object in the order of the map's own iterator.
#[verifier::external_body]
pub(crate) fn value_shape(value: &serde_json::Value) -> (r: ValueShape)
    ensures
        match r {
            ValueShape::Text(text) => value_tree(*value) == JsonTree::Text(text@),
            ValueShape::List(items) => value_tree(*value) == JsonTree::List(list_tree(items@)),
            ValueShape::Object(fields) => value_tree(*value) == JsonTree::Object(
                fields_tree(fields@),
            ),
            ValueShape::Plain => !(value_tree(*value) is Text || value_tree(*value) is List
                || value_tree(*value) is Object),
        },
{
    match value {
        serde_json::Value::String(text) => ValueShape::Text(text.clone()),
        serde_json::Value::Array(items) => ValueShape::List(items.clone()),
        serde_json::Value::Object(fields) => ValueShape::Object(
            fields.iter().map(|(key, field)| (key.clone(), field.clone())).collect(),
        ),
        _ => ValueShape::Plain,
    }
}

/// `serde_json::Value::String`: a text as a value.
#[verifier::external_body]
pub(crate) fn text_value(text: String) -> (r: serde_json::Value)
    ensures
        value_tree(r) == JsonTree::Text(text@),
{
    serde_json::Value::String(text)
}

/// `serde_json::Value::Array`: values as an array.
#[verifier::external_body]
pub(crate) fn list_value(items: Vec<serde_json::Value>) -> (r: serde_json::Value)
    ensures
        value_tree(r) == JsonTree::List(list_tree(items@)),
{
    serde_json::Value::Array(items)
}

/// `serde_json::Map` filled anew: an object with the keys of `object` and other
/// values. The keys are those that the map has, so the order in which it walks
/// them stays.
#[verifier::external_body]
pub(crate) fn object_value(
    object: &serde_json::Value,
    fields: Vec<(String, serde_json::Value)>,
) -> (r: serde_json::Value)
    requires
        value_tree(*object) is Object,
        value_tree(*object)->Object_0.len() == fields@.len(),
        forall|i: int|
            0 <= i < fields@.len() ==> (#[trigger] fields@[i]).0@
                == value_tree(*object)->Object_0[i].0,
    ensures
        value_tree(r) == JsonTree::Object(fields_tree(fields@)),
{
    serde_json::Value::Object(fields.into_iter().collect())
}

/// `serde_json::Value::Null`.
#[verifier::external_body]
pub(crate) fn null_value() -> (r: serde_json::Value)
    ensures
        value_tree(r) == JsonTree::Null,
{
    serde_json::Value::Null
}

/// What `Display` writes for a value: its JSON text without white space.
pub uninterp spec fn displayed_json(tree: JsonTree) -> Seq<char>;

/// `Display` of `serde_json::Value`: the text depends on the contents alone.
#[verifier::external_body]
pub(crate) fn display_value(value: &serde_json::Value) -> (r: String)
    ensures
        r@ == displayed_json(value_tree(*value)),
{
    value.to_string()
}

/// A value as a person reads it: a text as it is, anything else as JSON.
pub open spec fn shown_json(tree: JsonTree) -> Seq<char> {
    match tree {
        JsonTree::Text(text) => text,
        tree => displayed_json(tree),
    }
}

/// A value as a person reads it.
pub(crate) fn show_value(value: &serde_json::Value) -> (r: String)
    ensures
        r@ == shown_json(value_tree(*value)),
{
    match value_text(value) {
        Some(text) => text.to_owned(),
        None => display_value(value),
    }
}

/// The contents of a value that may be absent.
pub open spec fn opt_tree(value: Option<serde_json::Value>) -> Option<JsonTree> {
    match value {
        Some(value) => Some(value_tree(value)),
        None => None,
    }
}

/// A copy of a value that may be absent.
pub(crate) fn copy_opt_value(value: &Option<serde_json::Value>) -> (r: Option<serde_json::Value>)
    ensures
        opt_tree(r) == opt_tree(*value),
{
    match value {
        Some(value) => Some(copy_value(value)),
        None => None,
    }
}

/// Whether `after` is `before` with the field `key` added where `before` is an
/// object without it.
pub open spec fn is_with_default(
    before: JsonTree,
    key: Seq<char>,
    default: JsonTree,
    after: JsonTree,
) -> bool {
    if before is Object {
        &&& after is Object
        &&& forall|name: Seq<char>| #[trigger]
            tree_field(after, name) == if name == key && tree_field(before, name) is None {
                Some(default)
            } else {
                tree_field(before, name)
            }
    } else {
        after == before
    }
}

/// `serde_json::map::Entry::or_insert`: an object that has no such field gets
/// it with the value given. Its other fields stay, and other values stay as
/// they are.
#[verifier::external_body]
pub(crate) fn with_default_field(
    value: serde_json::Value,
    key: &str,
    default: serde_json::Value,
) -> (r: serde_json::Value)
    ensures
        is_with_default(value_tree(value), key@, value_tree(default), value_tree(r)),
{
    let mut value = value;
    if let Some(object) = value.as_object_mut() {
        object.entry(key).or_insert(default);
    }
    value
}

/// `serde_json::Value::clone`: an equal value.
#[verifier::external_body]
pub(crate) fn copy_value(value: &serde_json::Value) -> (r: serde_json::Value)
    ensures
        value_tree(r) == value_tree(*value),
{
    value.clone()
}

/// The text of the field `key`.
pub open spec fn text_field(tree: JsonTree, key: Seq<char>) -> Option<Seq<char>> {
    match tree_field(tree, key) {
        Some(field) => tree_text(field),
        None => None,
    }
}

/// Reads the text of the field `key`.
pub(crate) fn field_text(value: &serde_json::Value, key: &str) -> (r: Option<String>)
    ensures
        match r {
            Some(text) => text_field(value_tree(*value), key@) == Some(text@),
            None => text_field(value_tree(*value), key@) is None,
        },
{
    match value_field(value, key) {
        Some(field) => match value_text(field) {
            Some(text) => Some(text.to_owned()),
            None => None,
        },
        None => None,
    }
}

/// The field `first`, or where there is none the field `second`.
pub open spec fn either_field(tree: JsonTree, first: Seq<char>, second: Seq<char>) -> Option<
    JsonTree,
> {
    match tree_field(tree, first) {
        Some(field) => Some(field),
        None => tree_field(tree, second),
    }
}

/// The text of the field `first`, or where there is no such field, of the
/// field `second`.
pub open spec fn either_text(tree: JsonTree, first: Seq<char>, second: Seq<char>) -> Option<
    Seq<char>,
> {
    match either_field(tree, first, second) {
        Some(field) => tree_text(field),
        None => None,
    }
}

/// Reads the text of the field `first`, or where there is no such field, of
/// the field `second`.
pub(crate) fn either_field_text(value: &serde_json::Value, first: &str, second: &str) -> (r: Option<
    String,
>)
    ensures
        match r {
            Some(text) => either_text(value_tree(*value), first@, second@) == Some(text@),
            None => either_text(value_tree(*value), first@, second@) is None,
        },
{
    let field = match value_field(value, first) {
        Some(field) => Some(field),
        None => value_field(value, second),
    };
    match field {
        Some(field) => match value_text(field) {
            Some(text) => Some(text.to_owned()),
            None => None,
        },
        None => None,
    }
}

/// A field of an object is the one under its name; what has no such field, and
/// what is no object, has none.
pub proof fn law_fields_are_found_by_name(
    fields: Seq<(Seq<char>, JsonTree)>,
    key: Seq<char>,
    i: int,
    other: JsonTree,
)
    requires
        forall|a: int, b: int|
            0 <= a < b < fields.len() ==> (#[trigger] fields[a]).0 != (#[trigger] fields[b]).0,
    ensures
        0 <= i < fields.len() && fields[i].0 == key ==> tree_field(JsonTree::Object(fields), key)
            == Some(fields[i].1),
        (forall|a: int| 0 <= a < fields.len() ==> (#[trigger] fields[a]).0 != key) ==> tree_field(
            JsonTree::Object(fields),
            key,
        ) is None,
        !(other is Object) ==> tree_field(other, key) is None,
{
    if 0 <= i < fields.len() && fields[i].0 == key {
        assert(is_field(fields, key, i));
        let k = choose|k: int| is_field(fields, key, k);
        assert(is_field(fields, key, k));
        if k < i {
            assert(fields[k].0 != fields[i].0);
        }
        if i < k {
            assert(fields[i].0 != fields[k].0);
        }
    }
}

/// A text is shown as it is, and any other value as JSON; of two names the first
/// that is there counts.
pub proof fn law_values_are_shown(tree: JsonTree, first: Seq<char>, second: Seq<char>)
    ensures
        tree matches JsonTree::Text(text) ==> shown_json(tree) == text && tree_text(tree) == Some(
            text,
        ),
        !(tree is Text) ==> shown_json(tree) == displayed_json(tree) && tree_text(tree) is None,
        tree_field(tree, first) is Some ==> either_field(tree, first, second) == tree_field(
            tree,
            first,
        ),
        tree_field(tree, first) is None ==> either_field(tree, first, second) == tree_field(
            tree,
            second,
        ),
        either_field(tree, first, second) matches Some(field) ==> either_text(tree, first, second)
            == tree_text(field),
        either_field(tree, first, second) is None ==> either_text(tree, first, second) is None,
        tree_field(tree, first) matches Some(field) ==> text_field(tree, first) == tree_text(field),
        tree_field(tree, first) is None ==> text_field(tree, first) is None,
{
}

} // verus!

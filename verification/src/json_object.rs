//! JSON objects as the library edits them: `(key, value)` entries whose
//! values are text, flags, unsigned numbers, or any other JSON value carried
//! unchanged (of a type `V` the application chooses).

use vstd::prelude::*;
use crate::rclone::{entry_map, lookup, remove_key, upsert};

verus! {

/// A value in a JSON object.
pub enum JsonField<V> {
    Text(String),
    Flag(bool),
    Number(u64),
    Other(V),
}

/// The view of a [`JsonField`].
pub enum FieldView<V> {
    Text(Seq<char>),
    Flag(bool),
    Number(u64),
    Other(V),
}

pub open spec fn field_view<V>(f: JsonField<V>) -> FieldView<V> {
    match f {
        JsonField::Text(s) => FieldView::Text(s@),
        JsonField::Flag(b) => FieldView::Flag(b),
        JsonField::Number(n) => FieldView::Number(n),
        JsonField::Other(v) => FieldView::Other(v),
    }
}

/// A JSON value that may be an object: its entries, or any other value.
pub enum JsonItem<V> {
    Object(Vec<(String, JsonField<V>)>),
    Other(V),
}

/// The object `(key, value)` entries denote (a later entry for a key
/// overrides an earlier one), by the views of its values.
pub open spec fn object_view<V>(e: Seq<(String, JsonField<V>)>) -> Map<Seq<char>, FieldView<V>> {
    entry_map(e).map_values(|f: JsonField<V>| field_view(f))
}

/// The text of `key` in an object, when it holds text.
pub open spec fn text_of<V>(m: Map<Seq<char>, FieldView<V>>, key: Seq<char>) -> Option<Seq<char>> {
    if m.dom().contains(key) {
        match m[key] {
            FieldView::Text(s) => Some(s),
            _ => None,
        }
    } else {
        None
    }
}

/// An object with `key` set to `f`, every other key kept.
pub fn set_field<V>(e: Vec<(String, JsonField<V>)>, key: &str, f: JsonField<V>) -> (r: Vec<(String, JsonField<V>)>)
    ensures
        object_view(r@) == object_view(e@).insert(key@, field_view(f)),
{
    let ghost g = f;
    let ghost e0 = e@;
    let r = upsert(e, key, f);
    assert(entry_map(r@).map_values(|f: JsonField<V>| field_view(f)) =~= object_view(e0).insert(key@, field_view(g)));
    r
}

/// An object without `key`, every other key kept.
pub fn remove_field<V>(e: Vec<(String, JsonField<V>)>, key: &str) -> (r: Vec<(String, JsonField<V>)>)
    ensures
        object_view(r@) == object_view(e@).remove(key@),
{
    let ghost e0 = e@;
    let r = remove_key(e, key);
    assert(entry_map(r@).map_values(|f: JsonField<V>| field_view(f)) =~= object_view(e0).remove(key@));
    r
}

/// The value of `key` in an object.
pub fn get_field<'a, V>(e: &'a Vec<(String, JsonField<V>)>, key: &str) -> (r: Option<&'a JsonField<V>>)
    ensures
        r is Some <==> object_view(e@).dom().contains(key@),
        r matches Some(f) ==> field_view(*f) == object_view(e@)[key@],
{
    lookup(e, key)
}

} // verus!

//! An untyped JSON value, modeled as plain data the decoders can be
//! verified against. Parsing text into this shape is the one trusted step;
//! everything downstream works on [`JsonValue`] and is proved.

use vstd::prelude::*;
use crate::text::str_eq;

verus! {

broadcast use vstd::std_specs::vec::group_vec_axioms;

/// The mathematical model of a JSON value.
#[verifier::ext_equal]
pub enum JsonSpec {
    Null,
    Bool(bool),
    /// A number, held as its literal text.
    Num(Seq<char>),
    Str(Seq<char>),
    Arr(Seq<JsonSpec>),
    Obj(Seq<(Seq<char>, JsonSpec)>),
}

/// An untyped JSON value. Numbers are held as their rendered literal text,
/// so no floating point runs through the verified logic.
#[derive(Debug)]
pub enum JsonValue {
    Null,
    Bool(bool),
    /// A number, held as its literal text.
    Num(String),
    Str(String),
    Arr(Vec<JsonValue>),
    Obj(Vec<(String, JsonValue)>),
}

/// The model of a value, defined mutually with the models of the item and
/// field sequences under it.
pub open spec fn jspec_of(v: JsonValue) -> JsonSpec
    decreases v, 0int,
        via jspec_of_decreases
{
    match v {
        JsonValue::Null => JsonSpec::Null,
        JsonValue::Bool(b) => JsonSpec::Bool(b),
        JsonValue::Num(s) => JsonSpec::Num(s@),
        JsonValue::Str(s) => JsonSpec::Str(s@),
        JsonValue::Arr(items) => JsonSpec::Arr(jspec_items(items@, 0)),
        JsonValue::Obj(fields) => JsonSpec::Obj(jspec_fields(fields@, 0)),
    }
}

#[via_fn]
proof fn jspec_of_decreases(v: JsonValue) {
    match v {
        JsonValue::Arr(items) => {
            assert(decreases_to!(v => v->Arr_0));
            assert(decreases_to!(v->Arr_0 => v->Arr_0@));
        },
        JsonValue::Obj(fields) => {
            assert(decreases_to!(v => v->Obj_0));
            assert(decreases_to!(v->Obj_0 => v->Obj_0@));
        },
        _ => {},
    }
}

/// The models of the items of an array, from `i` on.
pub open spec fn jspec_items(items: Seq<JsonValue>, i: int) -> Seq<JsonSpec>
    decreases items, items.len() - i,
        when 0 <= i <= items.len()
        via jspec_items_decreases
{
    if i >= items.len() {
        Seq::empty()
    } else {
        seq![jspec_of(items[i])] + jspec_items(items, i + 1)
    }
}

#[via_fn]
proof fn jspec_items_decreases(items: Seq<JsonValue>, i: int) {
    if 0 <= i < items.len() {
        assert(decreases_to!(items => items[i]));
    }
}

/// The models of the fields of an object, from `i` on.
pub open spec fn jspec_fields(fields: Seq<(String, JsonValue)>, i: int) -> Seq<
    (Seq<char>, JsonSpec),
>
    decreases fields, fields.len() - i,
        when 0 <= i <= fields.len()
        via jspec_fields_decreases
{
    if i >= fields.len() {
        Seq::empty()
    } else {
        seq![(fields[i].0@, jspec_of(fields[i].1))] + jspec_fields(fields, i + 1)
    }
}

#[via_fn]
proof fn jspec_fields_decreases(fields: Seq<(String, JsonValue)>, i: int) {
    if 0 <= i < fields.len() {
        assert(decreases_to!(fields => fields[i]));
        assert(decreases_to!(fields[i] => fields[i].1));
    }
}

impl View for JsonValue {
    type V = JsonSpec;

    open spec fn view(&self) -> JsonSpec {
        jspec_of(*self)
    }
}

/// The view of an object's field vector.
pub open spec fn fields_view(fields: Seq<(String, JsonValue)>) -> Seq<(Seq<char>, JsonSpec)> {
    Seq::new(fields.len(), |i: int| (fields[i].0@, fields[i].1@))
}

/// The view of a value vector.
pub open spec fn items_view(items: Seq<JsonValue>) -> Seq<JsonSpec> {
    Seq::new(items.len(), |i: int| items[i]@)
}

proof fn lemma_jspec_items_index(items: Seq<JsonValue>, i: int)
    requires
        0 <= i <= items.len(),
    ensures
        jspec_items(items, i).len() == items.len() - i,
        forall|j: int|
            0 <= j < items.len() - i ==> jspec_items(items, i)[j] == jspec_of(items[i + j]),
    decreases items.len() - i,
{
    if i < items.len() {
        lemma_jspec_items_index(items, i + 1);
        assert forall|j: int| 0 <= j < items.len() - i implies jspec_items(items, i)[j]
            == jspec_of(items[i + j]) by {
            if j > 0 {
                assert(jspec_items(items, i)[j] == jspec_items(items, i + 1)[j - 1]);
            }
        }
    }
}

proof fn lemma_jspec_fields_index(fields: Seq<(String, JsonValue)>, i: int)
    requires
        0 <= i <= fields.len(),
    ensures
        jspec_fields(fields, i).len() == fields.len() - i,
        forall|j: int|
            0 <= j < fields.len() - i ==> jspec_fields(fields, i)[j] == (
                fields[i + j].0@,
                jspec_of(fields[i + j].1),
            ),
    decreases fields.len() - i,
{
    if i < fields.len() {
        lemma_jspec_fields_index(fields, i + 1);
        assert forall|j: int| 0 <= j < fields.len() - i implies jspec_fields(fields, i)[j] == (
            fields[i + j].0@,
            jspec_of(fields[i + j].1),
        ) by {
            if j > 0 {
                assert(jspec_fields(fields, i)[j] == jspec_fields(fields, i + 1)[j - 1]);
            }
        }
    }
}

/// An object's view is the view of its field vector.
pub proof fn lemma_view_obj(fields: Vec<(String, JsonValue)>)
    ensures
        (JsonValue::Obj(fields))@ == JsonSpec::Obj(fields_view(fields@)),
{
    lemma_jspec_fields_index(fields@, 0);
    assert(jspec_fields(fields@, 0) =~= fields_view(fields@));
}

/// An array's view is the view of its item vector.
pub proof fn lemma_view_arr(items: Vec<JsonValue>)
    ensures
        (JsonValue::Arr(items))@ == JsonSpec::Arr(items_view(items@)),
{
    lemma_jspec_items_index(items@, 0);
    assert(jspec_items(items@, 0) =~= items_view(items@));
}

impl Clone for JsonValue {
    /// A deep copy whose model is the same.
    fn clone(&self) -> (r: JsonValue)
        ensures
            r@ == self@,
        decreases self,
    {
        match self {
            JsonValue::Null => JsonValue::Null,
            JsonValue::Bool(b) => JsonValue::Bool(*b),
            JsonValue::Num(s) => JsonValue::Num(s.clone()),
            JsonValue::Str(s) => JsonValue::Str(s.clone()),
            JsonValue::Arr(items) => {
                let n = items.len();
                let mut out: Vec<JsonValue> = Vec::new();
                let mut i: usize = 0;
                while i < n
                    invariant
                        *self == JsonValue::Arr(*items),
                        n == items@.len(),
                        i <= n,
                        out@.len() == i,
                        forall|j: int| 0 <= j < i ==> out@[j]@ == items@[j]@,
                    decreases n - i,
                {
                    proof {
                        assert(decreases_to!(*self => (*self)->Arr_0));
                        assert((*self)->Arr_0 == *items);
                        assert(decreases_to!(*items => items@[i as int]));
                    }
                    out.push(items[i].clone());
                    i = i + 1;
                }
                proof {
                    lemma_view_arr(out);
                    lemma_view_arr(*items);
                    assert(items_view(out@) =~= items_view(items@));
                }
                JsonValue::Arr(out)
            },
            JsonValue::Obj(fields) => {
                let n = fields.len();
                let mut out: Vec<(String, JsonValue)> = Vec::new();
                let mut i: usize = 0;
                while i < n
                    invariant
                        *self == JsonValue::Obj(*fields),
                        n == fields@.len(),
                        i <= n,
                        out@.len() == i,
                        forall|j: int|
                            0 <= j < i ==> out@[j].0@ == fields@[j].0@ && out@[j].1@
                                == fields@[j].1@,
                    decreases n - i,
                {
                    proof {
                        assert(decreases_to!(*self => (*self)->Obj_0));
                        assert((*self)->Obj_0 == *fields);
                        assert(decreases_to!(*fields => fields@[i as int]));
                        assert(decreases_to!(fields@[i as int] => fields@[i as int].1));
                    }
                    let key = fields[i].0.clone();
                    let val = fields[i].1.clone();
                    out.push((key, val));
                    i = i + 1;
                }
                proof {
                    lemma_view_obj(out);
                    lemma_view_obj(*fields);
                    assert(fields_view(out@) =~= fields_view(fields@));
                }
                JsonValue::Obj(out)
            },
        }
    }
}

/// The first field of `fields` named `key`, searching from `i`.
pub open spec fn obj_get_from(
    fields: Seq<(Seq<char>, JsonSpec)>,
    key: Seq<char>,
    i: int,
) -> Option<JsonSpec>
    decreases fields.len() - i,
        when 0 <= i <= fields.len()
{
    if i >= fields.len() {
        None
    } else if fields[i].0 == key {
        Some(fields[i].1)
    } else {
        obj_get_from(fields, key, i + 1)
    }
}

/// The first field of `fields` named `key`.
pub open spec fn obj_get(fields: Seq<(Seq<char>, JsonSpec)>, key: Seq<char>) -> Option<JsonSpec> {
    obj_get_from(fields, key, 0)
}

fn obj_lookup_from<'a>(fields: &'a Vec<(String, JsonValue)>, key: &str, i: usize) -> (r: Option<
    &'a JsonValue,
>)
    requires
        i <= fields@.len(),
    ensures
        match r {
            Some(v) => obj_get_from(fields_view(fields@), key@, i as int) == Some(v@),
            None => obj_get_from(fields_view(fields@), key@, i as int) is None,
        },
    decreases fields@.len() - i,
{
    if i >= fields.len() {
        return None;
    }
    if str_eq(fields[i].0.as_str(), key) {
        return Some(&fields[i].1);
    }
    obj_lookup_from(fields, key, i + 1)
}

/// Look a key up in an object's field vector: the first match, if any.
pub fn obj_lookup<'a>(fields: &'a Vec<(String, JsonValue)>, key: &str) -> (r: Option<
    &'a JsonValue,
>)
    ensures
        match r {
            Some(v) => obj_get(fields_view(fields@), key@) == Some(v@),
            None => obj_get(fields_view(fields@), key@) is None,
        },
{
    obj_lookup_from(fields, key, 0)
}

/// The result of parsing a text as JSON: `None` where the text is not
/// valid JSON, otherwise the parsed value. Parsing is a function of the
/// text alone.
pub uninterp spec fn json_of(s: Seq<char>) -> Option<JsonSpec>;

/// The declaration of `serde_json::Value`, opaque to the verifier; values
/// of it only pass from the parse call into the conversion below.
#[verifier::external_type_specification]
#[verifier::external_body]
pub struct ExSerdeValue(serde_json::Value);

/// Relies on `serde_json::Value`'s variants: each maps one-for-one onto
/// [`JsonValue`], numbers through their `Display` rendering.
#[verifier::external_body]
fn from_serde_value(v: serde_json::Value) -> (r: JsonValue) {
    match v {
        serde_json::Value::Null => JsonValue::Null,
        serde_json::Value::Bool(b) => JsonValue::Bool(b),
        serde_json::Value::Number(n) => JsonValue::Num(n.to_string()),
        serde_json::Value::String(s) => JsonValue::Str(s),
        serde_json::Value::Array(a) => JsonValue::Arr(
            a.into_iter().map(from_serde_value).collect(),
        ),
        serde_json::Value::Object(o) => JsonValue::Obj(
            o.into_iter().map(|p| (p.0, from_serde_value(p.1))).collect(),
        ),
    }
}

/// Relies on `serde_json::from_str::<serde_json::Value>`: parses JSON text,
/// deterministically in the text alone, or fails on invalid JSON.
#[verifier::external_body]
pub(crate) fn parse_json(s: &str) -> (r: Option<JsonValue>)
    ensures
        match r {
            Some(v) => json_of(s@) == Some(v@),
            None => json_of(s@) is None,
        },
{
    match serde_json::from_str::<serde_json::Value>(s) {
        Ok(v) => Some(from_serde_value(v)),
        Err(_) => None,
    }
}

} // verus!

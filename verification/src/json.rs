//! The JSON model the adapters build and read.  Numbers are held as signed
//! integers, the only numeric fields the adapters consume (token counts);
//! objects keep their entries in insertion order.
use vstd::prelude::*;
use crate::strings::str_eq;

verus! {

broadcast use vstd::std_specs::vec::axiom_vec_index_decreases;

/// A JSON value.
#[derive(Debug, PartialEq)]
pub enum JsonValue {
    Null,
    Bool(bool),
    Int(i64),
    Str(String),
    Arr(Vec<JsonValue>),
    Obj(Vec<(String, JsonValue)>),
}

/// The mathematical shadow of `JsonValue`.
#[verifier::ext_equal]
pub enum JsonV {
    Null,
    Bool(bool),
    Int(int),
    Str(Seq<char>),
    Arr(Seq<JsonV>),
    Obj(Seq<(Seq<char>, JsonV)>),
}

pub open spec fn json_view(v: &JsonValue) -> JsonV
    decreases v, 0int,
{
    match v {
        JsonValue::Null => JsonV::Null,
        JsonValue::Bool(b) => JsonV::Bool(*b),
        JsonValue::Int(i) => JsonV::Int(*i as int),
        JsonValue::Str(s) => JsonV::Str(s@),
        JsonValue::Arr(items) => JsonV::Arr(json_arr_view(items, 0)),
        JsonValue::Obj(entries) => JsonV::Obj(json_obj_view(entries, 0)),
    }
}

pub open spec fn json_arr_view(items: &Vec<JsonValue>, i: int) -> Seq<JsonV>
    decreases items, items@.len() - i,
{
    if 0 <= i < items@.len() {
        seq![json_view(&items[i])] + json_arr_view(items, i + 1)
    } else {
        Seq::empty()
    }
}

pub open spec fn json_obj_view(entries: &Vec<(String, JsonValue)>, i: int) -> Seq<
    (Seq<char>, JsonV),
>
    decreases entries, entries@.len() - i,
{
    if 0 <= i < entries@.len() {
        seq![(entries[i].0@, json_view(&entries[i].1))] + json_obj_view(entries, i + 1)
    } else {
        Seq::empty()
    }
}

impl View for JsonValue {
    type V = JsonV;

    open spec fn view(&self) -> JsonV {
        json_view(self)
    }
}

/// The views of a sequence of values, element by element.
pub open spec fn views_of_arr(s: Seq<JsonValue>) -> Seq<JsonV> {
    Seq::new(s.len(), |i: int| json_view(&s[i]))
}

/// The views of a sequence of object entries, element by element.
pub open spec fn views_of_obj(s: Seq<(String, JsonValue)>) -> Seq<(Seq<char>, JsonV)> {
    Seq::new(s.len(), |i: int| (s[i].0@, json_view(&s[i].1)))
}

proof fn lemma_json_arr_view_from(items: &Vec<JsonValue>, i: int)
    requires
        0 <= i <= items@.len(),
    ensures
        json_arr_view(items, i) =~= views_of_arr(items@).skip(i),
    decreases items@.len() - i,
{
    if i < items@.len() {
        lemma_json_arr_view_from(items, i + 1);
    }
}

/// The indexed form of the array view agrees with the element-wise one.
pub proof fn lemma_json_arr_view(items: &Vec<JsonValue>)
    ensures
        json_arr_view(items, 0) == views_of_arr(items@),
{
    lemma_json_arr_view_from(items, 0);
    assert(views_of_arr(items@).skip(0) =~= views_of_arr(items@));
}

proof fn lemma_json_obj_view_from(entries: &Vec<(String, JsonValue)>, i: int)
    requires
        0 <= i <= entries@.len(),
    ensures
        json_obj_view(entries, i) =~= views_of_obj(entries@).skip(i),
    decreases entries@.len() - i,
{
    if i < entries@.len() {
        lemma_json_obj_view_from(entries, i + 1);
    }
}

/// The indexed form of the object view agrees with the element-wise one.
pub proof fn lemma_json_obj_view(entries: &Vec<(String, JsonValue)>)
    ensures
        json_obj_view(entries, 0) == views_of_obj(entries@),
{
    lemma_json_obj_view_from(entries, 0);
    assert(views_of_obj(entries@).skip(0) =~= views_of_obj(entries@));
}

/// The value under the first entry with the given key, if any.
pub open spec fn obj_lookup(entries: Seq<(Seq<char>, JsonV)>, key: Seq<char>) -> Option<JsonV>
    decreases entries.len(),
{
    if entries.len() == 0 {
        None
    } else if entries[0].0 == key {
        Some(entries[0].1)
    } else {
        obj_lookup(entries.drop_first(), key)
    }
}

/// The value under `key` in `v`, when `v` is an object holding it.
pub open spec fn spec_get(v: JsonV, key: Seq<char>) -> Option<JsonV> {
    match v {
        JsonV::Obj(entries) => obj_lookup(entries, key),
        _ => None,
    }
}

proof fn lemma_obj_lookup_skip(entries: Seq<(Seq<char>, JsonV)>, key: Seq<char>, i: int)
    requires
        0 <= i <= entries.len(),
        forall|j: int| 0 <= j < i ==> entries[j].0 != key,
    ensures
        obj_lookup(entries, key) == obj_lookup(entries.skip(i), key),
    decreases i,
{
    if i > 0 {
        assert(entries.skip(0) =~= entries);
        lemma_obj_lookup_skip(entries, key, i - 1);
        let s = entries.skip(i - 1);
        assert(s[0] == entries[i - 1]);
        assert(s.drop_first() =~= entries.skip(i));
    } else {
        assert(entries.skip(0) =~= entries);
    }
}

/// The first entry under `key`, searched in order.
pub fn obj_get<'a>(entries: &'a Vec<(String, JsonValue)>, key: &str) -> (r: Option<
    &'a JsonValue,
>)
    ensures
        match r {
            Some(v) => obj_lookup(views_of_obj(entries@), key@) == Some(json_view(v)),
            None => obj_lookup(views_of_obj(entries@), key@) is None,
        },
{
    let mut i: usize = 0;
    while i < entries.len()
        invariant
            i <= entries@.len(),
            forall|j: int| 0 <= j < i ==> views_of_obj(entries@)[j].0 != key@,
        decreases entries.len() - i,
    {
        if str_eq(entries[i].0.as_str(), key) {
            proof {
                lemma_obj_lookup_skip(views_of_obj(entries@), key@, i as int);
                let s = views_of_obj(entries@).skip(i as int);
                assert(s[0] == views_of_obj(entries@)[i as int]);
                assert(obj_lookup(s, key@) == Some(s[0].1));
            }
            return Some(&entries[i].1);
        }
        i = i + 1;
    }
    proof {
        lemma_obj_lookup_skip(views_of_obj(entries@), key@, i as int);
        assert(views_of_obj(entries@).skip(i as int).len() == 0);
    }
    None
}

impl JsonValue {
    /// The value under `key`, when this value is an object holding it.
    pub fn get<'a>(&'a self, key: &str) -> (r: Option<&'a JsonValue>)
        ensures
            match r {
                Some(v) => spec_get(self@, key@) == Some(json_view(v)),
                None => spec_get(self@, key@) is None,
            },
    {
        match self {
            JsonValue::Obj(entries) => {
                proof {
                    lemma_json_obj_view(entries);
                }
                obj_get(entries, key)
            },
            _ => None,
        }
    }

    /// The held string, for a string value.
    pub fn as_str<'a>(&'a self) -> (r: Option<&'a String>)
        ensures
            match r {
                Some(s) => self@ == JsonV::Str(s@),
                None => !(self@ is Str),
            },
    {
        match self {
            JsonValue::Str(s) => Some(s),
            _ => None,
        }
    }

    /// The held integer, for an integer value.
    pub fn as_i64(&self) -> (r: Option<i64>)
        ensures
            match r {
                Some(n) => self@ == JsonV::Int(n as int),
                None => !(self@ is Int),
            },
    {
        match self {
            JsonValue::Int(n) => Some(*n),
            _ => None,
        }
    }

    /// The held items, for an array value.
    pub fn as_array<'a>(&'a self) -> (r: Option<&'a Vec<JsonValue>>)
        ensures
            match r {
                Some(items) => self@ == JsonV::Arr(views_of_arr(items@)),
                None => !(self@ is Arr),
            },
    {
        match self {
            JsonValue::Arr(items) => {
                proof {
                    lemma_json_arr_view(items);
                }
                Some(items)
            },
            _ => None,
        }
    }

    /// The held entries, for an object value.
    pub fn as_object<'a>(&'a self) -> (r: Option<&'a Vec<(String, JsonValue)>>)
        ensures
            match r {
                Some(entries) => self@ == JsonV::Obj(views_of_obj(entries@)),
                None => !(self@ is Obj),
            },
    {
        match self {
            JsonValue::Obj(entries) => {
                proof {
                    lemma_json_obj_view(entries);
                }
                Some(entries)
            },
            _ => None,
        }
    }

    /// Whether this value is an object.
    pub fn is_object(&self) -> (r: bool)
        ensures
            r == (self@ is Obj),
    {
        match self {
            JsonValue::Obj(_) => true,
            _ => false,
        }
    }
}

/// A copy of a value, leaf by leaf.
#[verifier::loop_isolation(false)]
pub fn json_clone(v: &JsonValue) -> (r: JsonValue)
    ensures
        json_view(&r) == json_view(v),
    decreases v,
{
    match v {
        JsonValue::Null => JsonValue::Null,
        JsonValue::Bool(b) => JsonValue::Bool(*b),
        JsonValue::Int(i) => JsonValue::Int(*i),
        JsonValue::Str(s) => JsonValue::Str(s.clone()),
        JsonValue::Arr(items) => {
            let mut out: Vec<JsonValue> = Vec::new();
            let n = items.len();
            let mut i: usize = 0;
            while i < n
                invariant
                    n == items@.len(),
                    i <= n,
                    out@.len() == i,
                    forall|j: int| 0 <= j < i ==> json_view(&out@[j]) == json_view(&items@[j]),
                decreases n - i,
            {
                proof {
                    assert(decreases_to!(*v => *items));
                    assert(decreases_to!(*items => items@[i as int]));
                }
                let u = json_clone(&items[i]);
                out.push(u);
                i = i + 1;
            }
            proof {
                lemma_json_arr_view(items);
                lemma_json_arr_view(&out);
                assert(views_of_arr(out@) =~= views_of_arr(items@));
            }
            JsonValue::Arr(out)
        },
        JsonValue::Obj(entries) => {
            let mut out: Vec<(String, JsonValue)> = Vec::new();
            let n = entries.len();
            let mut i: usize = 0;
            while i < n
                invariant
                    n == entries@.len(),
                    i <= n,
                    out@.len() == i,
                    forall|j: int| 0 <= j < i ==> out@[j].0@ == entries@[j].0@
                        && json_view(&out@[j].1) == json_view(&entries@[j].1),
                decreases n - i,
            {
                proof {
                    assert(decreases_to!(*v => *entries));
                    assert(decreases_to!(*entries => entries@[i as int]));
                }
                let k = entries[i].0.clone();
                let u = json_clone(&entries[i].1);
                out.push((k, u));
                i = i + 1;
            }
            proof {
                lemma_json_obj_view(entries);
                lemma_json_obj_view(&out);
                assert(views_of_obj(out@) =~= views_of_obj(entries@));
            }
            JsonValue::Obj(out)
        },
    }
}

/// A string value built from a string slice.
pub fn json_str(s: &str) -> (r: JsonValue)
    ensures
        r@ == JsonV::Str(s@),
{
    JsonValue::Str(s.to_owned())
}

/// An object value built from its entries.
pub fn json_obj(entries: Vec<(String, JsonValue)>) -> (r: JsonValue)
    ensures
        r@ == JsonV::Obj(views_of_obj(entries@)),
{
    proof {
        lemma_json_obj_view(&entries);
    }
    JsonValue::Obj(entries)
}

/// An array value built from its items.
pub fn json_arr(items: Vec<JsonValue>) -> (r: JsonValue)
    ensures
        r@ == JsonV::Arr(views_of_arr(items@)),
{
    proof {
        lemma_json_arr_view(&items);
    }
    JsonValue::Arr(items)
}

} // verus!

//! The JSON value model that schemas, arguments and results are made of.
//!
//! The executable [`JsonValue`] mirrors the shapes a JSON document can take;
//! numbers are held as signed 64-bit integers, which covers every value the
//! schema builder and the dispatcher produce.  Objects keep their fields as a
//! sequence of key/value pairs in insertion order; where a key occurs twice,
//! the first occurrence wins on lookup.  The ghost [`Json`] is the
//! mathematical image of a value, and every contract of the crate speaks in
//! terms of it.

use vstd::prelude::*;

verus! {

broadcast use vstd::std_specs::vec::group_vec_axioms;

/// The mathematical model of a JSON value: what [`view_of`] returns and what
/// contracts quantify over.
pub enum Json {
    Null,
    Bool(bool),
    Int(int),
    Str(Seq<char>),
    Arr(Seq<Json>),
    Obj(Seq<(Seq<char>, Json)>),
}

/// Whether an object's field list holds `key` (at any position).
pub open spec fn fields_has_key(fields: Seq<(Seq<char>, Json)>, key: Seq<char>) -> bool
    decreases fields.len(),
{
    fields.len() > 0 && (fields[0].0 == key || fields_has_key(fields.drop_first(), key))
}

/// The value stored under `key`, first occurrence first.
pub open spec fn fields_get(fields: Seq<(Seq<char>, Json)>, key: Seq<char>) -> Json
    recommends
        fields_has_key(fields, key),
    decreases fields.len(),
{
    if fields.len() == 0 {
        Json::Null
    } else if fields[0].0 == key {
        fields[0].1
    } else {
        fields_get(fields.drop_first(), key)
    }
}

impl Json {
    /// Whether this value is an object that holds `key`.
    pub open spec fn has_key(self, key: Seq<char>) -> bool {
        match self {
            Json::Obj(fields) => fields_has_key(fields, key),
            _ => false,
        }
    }

    /// The value an object holds under `key`.
    pub open spec fn get(self, key: Seq<char>) -> Json
        recommends
            self.has_key(key),
    {
        match self {
            Json::Obj(fields) => fields_get(fields, key),
            _ => Json::Null,
        }
    }
}

/// A JSON value: the argument and result currency of every tool, and the
/// representation of every schema fragment.
#[derive(Debug, PartialEq, Eq)]
pub enum JsonValue {
    Null,
    Bool(bool),
    Int(i64),
    Str(String),
    Arr(Vec<JsonValue>),
    Obj(Vec<(String, JsonValue)>),
}

/// The mathematical values an array's elements stand for, position by
/// position.
pub open spec fn arr_view(items: Seq<JsonValue>) -> Seq<Json>
    decreases items,
{
    Seq::new(
        items.len(),
        |i: int|
            if 0 <= i < items.len() {
                view_of(items[i])
            } else {
                Json::Null
            },
    )
}

/// The mathematical key/value pairs an object's fields stand for, in order.
pub open spec fn obj_view(fields: Seq<(String, JsonValue)>) -> Seq<(Seq<char>, Json)>
    decreases fields,
{
    Seq::new(
        fields.len(),
        |i: int|
            if 0 <= i < fields.len() {
                (fields[i].0@, view_of(fields[i].1))
            } else {
                (Seq::empty(), Json::Null)
            },
    )
}

/// The mathematical value a [`JsonValue`] stands for.
pub open spec fn view_of(v: JsonValue) -> Json
    decreases v,
{
    match v {
        JsonValue::Null => Json::Null,
        JsonValue::Bool(b) => Json::Bool(b),
        JsonValue::Int(n) => Json::Int(n as int),
        JsonValue::Str(s) => Json::Str(s@),
        JsonValue::Arr(items) => {
            proof {
                vstd::std_specs::vec::axiom_vec_decreases_to_view(items);
            }
            Json::Arr(arr_view(items@))
        },
        JsonValue::Obj(fields) => {
            proof {
                vstd::std_specs::vec::axiom_vec_decreases_to_view(fields);
            }
            Json::Obj(obj_view(fields@))
        },
    }
}

impl DeepView for JsonValue {
    type V = Json;

    open spec fn deep_view(&self) -> Json {
        view_of(*self)
    }
}

/// Compares a `String` against a string slice.
///
/// vstd specifies equality of two `String`s, so the slice is first owned.
pub fn string_eq_str(a: &String, b: &str) -> (r: bool)
    ensures
        r == (a@ == b@),
{
    let owned: String = b.to_owned();
    *a == owned
}

/// Compares two string slices.
pub fn str_eq(a: &str, b: &str) -> (r: bool)
    ensures
        r == (a@ == b@),
{
    let owned: String = a.to_owned();
    string_eq_str(&owned, b)
}

impl JsonValue {
    /// Looks `key` up in an object, first occurrence first.
    ///
    /// Returns `None` when this value is not an object or no field carries
    /// `key`.
    #[verifier::loop_isolation(false)]
    pub fn get_field<'a>(&'a self, key: &str) -> (r: Option<&'a JsonValue>)
        ensures
            match r {
                Some(v) => self.deep_view().has_key(key@) && v.deep_view()
                    == self.deep_view().get(key@),
                None => !self.deep_view().has_key(key@),
            },
    {
        match self {
            JsonValue::Obj(fields) => {
                let ghost all = obj_view(fields@);
                proof {
                    assert(all.skip(0) =~= all);
                }
                let mut i: usize = 0;
                while i < fields.len()
                    invariant
                        i <= fields.len(),
                        all.len() == fields.len(),
                        forall|j: int|
                            0 <= j < fields.len() ==> all[j] == (fields[j].0@, view_of(fields[j].1)),
                        fields_has_key(all, key@) == fields_has_key(all.skip(i as int), key@),
                        fields_has_key(all, key@) ==> fields_get(all, key@) == fields_get(
                            all.skip(i as int),
                            key@,
                        ),
                    decreases fields.len() - i,
                {
                    let ghost rest = all.skip(i as int);
                    assert(rest.len() > 0 && rest[0] == all[i as int]);
                    if string_eq_str(&fields[i].0, key) {
                        proof {
                            assert(fields_has_key(rest, key@));
                            assert(fields_get(rest, key@) == rest[0].1);
                        }
                        return Some(&fields[i].1);
                    }
                    assert(rest.drop_first() =~= all.skip(i as int + 1));
                    i += 1;
                }
                assert(all.skip(fields.len() as int) =~= Seq::empty());
                None
            },
            _ => None,
        }
    }

    /// A structurally identical copy of this value.
    #[verifier::loop_isolation(false)]
    pub fn duplicate(&self) -> (r: JsonValue)
        ensures
            r.deep_view() == self.deep_view(),
        decreases self,
    {
        match self {
            JsonValue::Null => JsonValue::Null,
            JsonValue::Bool(b) => JsonValue::Bool(*b),
            JsonValue::Int(n) => JsonValue::Int(*n),
            JsonValue::Str(s) => JsonValue::Str(s.clone()),
            JsonValue::Arr(items) => {
                let mut out: Vec<JsonValue> = Vec::new();
                let mut i: usize = 0;
                while i < items.len()
                    invariant
                        i <= items.len(),
                        out@.len() == i,
                        forall|j: int| 0 <= j < i ==> view_of(out@[j]) == view_of(items[j]),
                    decreases items.len() - i,
                {
                    proof {
                        vstd::std_specs::vec::axiom_vec_index_decreases(*items, i as int);
                    }
                    let d = items[i].duplicate();
                    out.push(d);
                    i += 1;
                }
                let r = JsonValue::Arr(out);
                assert(r.deep_view()->Arr_0 =~= self.deep_view()->Arr_0);
                r
            },
            JsonValue::Obj(fields) => {
                let mut out: Vec<(String, JsonValue)> = Vec::new();
                let mut i: usize = 0;
                while i < fields.len()
                    invariant
                        i <= fields.len(),
                        out@.len() == i,
                        forall|j: int|
                            0 <= j < i ==> out@[j].0@ == fields[j].0@ && view_of(out@[j].1)
                                == view_of(fields[j].1),
                    decreases fields.len() - i,
                {
                    proof {
                        vstd::std_specs::vec::axiom_vec_index_decreases(*fields, i as int);
                    }
                    let k = fields[i].0.clone();
                    let d = fields[i].1.duplicate();
                    out.push((k, d));
                    i += 1;
                }
                let r = JsonValue::Obj(out);
                assert(r.deep_view()->Obj_0 =~= self.deep_view()->Obj_0);
                r
            },
        }
    }
}

} // verus!

//! The JSON values that travel through the protocol.
//!
//! Request bodies, response bodies and resource data are modelled by
//! [`JsonValue`]; its mathematical counterpart is [`JsonModel`], reached
//! through `deep_view()`. Objects are ordered lists of key/value entries in
//! which a key may occur at most once; [`obj_lookup`] and [`obj_set`] are the
//! specification-level reading and writing of one key.

use vstd::prelude::*;

verus! {

broadcast use vstd::std_specs::vec::group_vec_axioms;

/// The mathematical form of a JSON value.
pub enum JsonModel {
    Null,
    Bool(bool),
    Num(u64),
    Str(Seq<char>),
    Array(Seq<JsonModel>),
    Object(Seq<(Seq<char>, JsonModel)>),
}

/// First entry of `entries` whose key is `key`, if any.
pub open spec fn obj_lookup(entries: Seq<(Seq<char>, JsonModel)>, key: Seq<char>) -> Option<
    JsonModel,
>
    decreases entries.len(),
{
    if entries.len() == 0 {
        None
    } else if entries[0].0 == key {
        Some(entries[0].1)
    } else {
        obj_lookup(entries.drop_first(), key)
    }
}

/// `entries` with the first entry for `key` replaced by `value`, or with
/// `(key, value)` appended when no entry for `key` exists.
pub open spec fn obj_set(
    entries: Seq<(Seq<char>, JsonModel)>,
    key: Seq<char>,
    value: JsonModel,
) -> Seq<(Seq<char>, JsonModel)>
    decreases entries.len(),
{
    if entries.len() == 0 {
        seq![(key, value)]
    } else if entries[0].0 == key {
        seq![(key, value)] + entries.drop_first()
    } else {
        seq![entries[0]] + obj_set(entries.drop_first(), key, value)
    }
}

/// Reading `key` from a JSON value: defined only on objects.
pub open spec fn jv_get(m: JsonModel, key: Seq<char>) -> Option<JsonModel> {
    match m {
        JsonModel::Object(es) => obj_lookup(es, key),
        _ => None,
    }
}

/// Writing `key` into a JSON value: any non-object is first replaced by the
/// empty object, as the request builder does when it starts a body.
pub open spec fn jv_set(m: JsonModel, key: Seq<char>, value: JsonModel) -> JsonModel {
    match m {
        JsonModel::Object(es) => JsonModel::Object(obj_set(es, key, value)),
        _ => JsonModel::Object(obj_set(Seq::empty(), key, value)),
    }
}

/// Writing one key changes that key to the written value and leaves every
/// other key as it was.
pub broadcast proof fn lemma_obj_set_lookup(
    entries: Seq<(Seq<char>, JsonModel)>,
    key: Seq<char>,
    value: JsonModel,
    probe: Seq<char>,
)
    ensures
        #[trigger] obj_lookup(obj_set(entries, key, value), probe) == (if probe == key {
            Some(value)
        } else {
            obj_lookup(entries, probe)
        }),
    decreases entries.len(),
{
    reveal_with_fuel(obj_lookup, 3);
    if entries.len() == 0 {
    } else if entries[0].0 == key {
        assert(obj_set(entries, key, value)[0] == (key, value));
        assert(obj_set(entries, key, value).drop_first() =~= entries.drop_first());
    } else {
        lemma_obj_set_lookup(entries.drop_first(), key, value, probe);
        assert(obj_set(entries, key, value)[0] == entries[0]);
        assert(obj_set(entries, key, value).drop_first() =~= obj_set(
            entries.drop_first(),
            key,
            value,
        ));
    }
}

/// A JSON value: null, a boolean, an unsigned number, a string, an array, or
/// an object given as a list of key/value entries.
#[derive(Debug, PartialEq, Eq)]
pub enum JsonValue {
    Null,
    Bool(bool),
    Num(u64),
    Str(String),
    Array(Vec<JsonValue>),
    Object(Vec<(String, JsonValue)>),
}

/// The mathematical value that a `JsonValue` denotes.
pub open spec fn jv_model(v: JsonValue) -> JsonModel
    decreases v, 1int,
{
    match v {
        JsonValue::Null => JsonModel::Null,
        JsonValue::Bool(b) => JsonModel::Bool(b),
        JsonValue::Num(n) => JsonModel::Num(n),
        JsonValue::Str(s) => JsonModel::Str(s@),
        JsonValue::Array(vs) => JsonModel::Array(arr_model(vs@)),
        JsonValue::Object(es) => JsonModel::Object(entries_model(es@)),
    }
}

/// The models of a sequence of values, in order.
pub open spec fn arr_model(s: Seq<JsonValue>) -> Seq<JsonModel>
    decreases s, 0int,
{
    if s.len() == 0 {
        Seq::empty()
    } else {
        seq![jv_model(s[0])] + arr_model(s.drop_first())
    }
}

/// The models of an object's entries, in order.
pub open spec fn entries_model(s: Seq<(String, JsonValue)>) -> Seq<(Seq<char>, JsonModel)>
    decreases s, 0int,
{
    if s.len() == 0 {
        Seq::empty()
    } else {
        seq![(s[0].0@, jv_model(s[0].1))] + entries_model(s.drop_first())
    }
}

/// `arr_model` element by element.
pub broadcast proof fn lemma_arr_model(s: Seq<JsonValue>)
    ensures
        (#[trigger] arr_model(s)).len() == s.len(),
        forall|i: int| 0 <= i < s.len() ==> arr_model(s)[i] == jv_model(s[i]),
    decreases s.len(),
{
    if s.len() > 0 {
        lemma_arr_model(s.drop_first());
    }
}

/// `entries_model` element by element.
pub broadcast proof fn lemma_entries_model(s: Seq<(String, JsonValue)>)
    ensures
        (#[trigger] entries_model(s)).len() == s.len(),
        forall|i: int|
            0 <= i < s.len() ==> entries_model(s)[i] == (s[i].0@, jv_model(s[i].1)),
    decreases s.len(),
{
    if s.len() > 0 {
        lemma_entries_model(s.drop_first());
    }
}

impl DeepView for JsonValue {
    type V = JsonModel;

    open spec fn deep_view(&self) -> JsonModel {
        jv_model(*self)
    }
}

/// Relies on str's `PartialEq`: two string slices are equal exactly when
/// their character sequences are.
#[verifier::external_body]
pub(crate) fn str_eq(a: &str, b: &str) -> (r: bool)
    ensures
        r == (a@ == b@),
{
    a == b
}

impl Clone for JsonValue {
    fn clone(&self) -> (res: Self)
        ensures
            res.deep_view() == self.deep_view(),
        decreases *self,
    {
        broadcast use lemma_arr_model, lemma_entries_model;

        match self {
            JsonValue::Null => JsonValue::Null,
            JsonValue::Bool(b) => JsonValue::Bool(*b),
            JsonValue::Num(n) => JsonValue::Num(*n),
            JsonValue::Str(s) => JsonValue::Str(s.clone()),
            JsonValue::Array(vs) => {
                let cs = clone_values(vs);
                proof {
                    assert(arr_model(cs@) =~= arr_model(vs@));
                }
                JsonValue::Array(cs)
            },
            JsonValue::Object(es) => {
                let cs = clone_entries(es);
                proof {
                    assert(entries_model(cs@) =~= entries_model(es@));
                }
                JsonValue::Object(cs)
            },
        }
    }
}

fn clone_values(vs: &Vec<JsonValue>) -> (res: Vec<JsonValue>)
    ensures
        res@.len() == vs@.len(),
        forall|j: int| 0 <= j < vs@.len() ==> res@[j].deep_view() == vs@[j].deep_view(),
    decreases *vs,
{
    let mut res: Vec<JsonValue> = Vec::new();
    let mut i: usize = 0;
    while i < vs.len()
        invariant
            i <= vs@.len(),
            res@.len() == i as int,
            forall|j: int| 0 <= j < i ==> res@[j].deep_view() == vs@[j].deep_view(),
        decreases vs@.len() - i,
    {
        let c = vs[i].clone();
        res.push(c);
        i += 1;
    }
    res
}

fn clone_entries(es: &Vec<(String, JsonValue)>) -> (res: Vec<(String, JsonValue)>)
    ensures
        res@.len() == es@.len(),
        forall|j: int|
            0 <= j < es@.len() ==> res@[j].0@ == es@[j].0@ && res@[j].1.deep_view()
                == es@[j].1.deep_view(),
    decreases *es,
{
    let mut res: Vec<(String, JsonValue)> = Vec::new();
    let mut i: usize = 0;
    while i < es.len()
        invariant
            i <= es@.len(),
            res@.len() == i as int,
            forall|j: int|
                0 <= j < i ==> res@[j].0@ == es@[j].0@ && res@[j].1.deep_view()
                    == es@[j].1.deep_view(),
        decreases es@.len() - i,
    {
        let k = es[i].0.clone();
        let v = es[i].1.clone();
        res.push((k, v));
        i += 1;
    }
    res
}

/// Index of the first entry whose key is `key`, scanning left to right.
fn find_key(es: &Vec<(String, JsonValue)>, key: &str) -> (r: Option<usize>)
    ensures
        (match r {
            Some(i) => (i as int) < es@.len() && es@[i as int].0@ == key@ && (forall|j: int|
                0 <= j < i ==> es@[j].0@ != key@),
            None => forall|j: int| 0 <= j < es@.len() ==> es@[j].0@ != key@,
        }),
{
    let mut i: usize = 0;
    while i < es.len()
        invariant
            i <= es@.len(),
            forall|j: int| 0 <= j < i ==> es@[j].0@ != key@,
        decreases es@.len() - i,
    {
        if str_eq(es[i].0.as_str(), key) {
            return Some(i);
        }
        i += 1;
    }
    None
}

impl JsonValue {
    /// The empty JSON object.
    pub fn new_object() -> (r: JsonValue)
        ensures
            r.deep_view() == JsonModel::Object(Seq::<(Seq<char>, JsonModel)>::empty()),
    {
        let v: Vec<(String, JsonValue)> = Vec::new();
        proof {
            assert(entries_model(v@) =~= Seq::<(Seq<char>, JsonModel)>::empty());
        }
        JsonValue::Object(v)
    }

    /// The value stored under `key`, when this value is an object that has
    /// that key.
    pub fn get<'a>(&'a self, key: &str) -> (r: Option<&'a JsonValue>)
        ensures
            (match r {
                Some(v) => jv_get(self.deep_view(), key@) == Some(v.deep_view()),
                None => jv_get(self.deep_view(), key@) is None,
            }),
    {
        match self {
            JsonValue::Object(es) => {
                let ghost m = entries_model(es@);
                match find_key(es, key) {
                    Some(i) => {
                        proof {
                            lemma_entries_model(es@);
                            lemma_obj_lookup_found(m, key@, i as int);
                        }
                        Some(&es[i].1)
                    },
                    None => {
                        proof {
                            lemma_entries_model(es@);
                            lemma_obj_lookup_none(m, key@);
                        }
                        None
                    },
                }
            },
            _ => None,
        }
    }

    /// Stores `value` under `key`: an existing entry for `key` is replaced,
    /// any other entry is kept; a non-object first becomes the empty object.
    pub fn set(&mut self, key: &str, value: JsonValue)
        ensures
            final(self).deep_view() == jv_set(old(self).deep_view(), key@, value.deep_view()),
    {
        if !self.is_object() {
            *self = JsonValue::new_object();
        }
        let ghost target = jv_set(old(self).deep_view(), key@, value.deep_view());
        match self {
            JsonValue::Object(es) => {
                let ghost m0 = entries_model(es@);
                let ghost vm = value.deep_view();
                proof {
                    assert(target == JsonModel::Object(obj_set(m0, key@, vm)));
                }
                match find_key(es, key) {
                    Some(i) => {
                        let ghost iw = i as int;
                        proof {
                            lemma_entries_model(es@);
                            lemma_obj_set_found(m0, key@, vm, iw);
                        }
                        let k = key.to_owned();
                        es[i] = (k, value);
                        proof {
                            lemma_entries_model(es@);
                            assert(entries_model(es@) =~= m0.update(iw, (key@, vm)));
                        }
                    },
                    None => {
                        proof {
                            lemma_entries_model(es@);
                            lemma_obj_set_append(m0, key@, vm);
                        }
                        let k = key.to_owned();
                        es.push((k, value));
                        proof {
                            lemma_entries_model(es@);
                            assert(entries_model(es@) =~= m0.push((key@, vm)));
                        }
                    },
                }
            },
            _ => {
                proof {
                    assert(false);
                }
            },
        }
    }

    /// Whether this value is an object.
    pub fn is_object(&self) -> (r: bool)
        ensures
            r == (self.deep_view() is Object),
    {
        match self {
            JsonValue::Object(_) => true,
            _ => false,
        }
    }

    /// The number this value holds, when it is a number.
    pub fn as_u64(&self) -> (r: Option<u64>)
        ensures
            (match r {
                Some(n) => self.deep_view() == JsonModel::Num(n),
                None => !(self.deep_view() is Num),
            }),
    {
        match self {
            JsonValue::Num(n) => Some(*n),
            _ => None,
        }
    }

    /// The text this value holds, when it is a string.
    pub fn as_string(&self) -> (r: Option<String>)
        ensures
            (match r {
                Some(s) => self.deep_view() == JsonModel::Str(s@),
                None => !(self.deep_view() is Str),
            }),
    {
        match self {
            JsonValue::Str(s) => Some(s.clone()),
            _ => None,
        }
    }
}

proof fn lemma_obj_lookup_found(entries: Seq<(Seq<char>, JsonModel)>, key: Seq<char>, i: int)
    requires
        0 <= i < entries.len(),
        forall|j: int| 0 <= j < i ==> entries[j].0 != key,
        entries[i].0 == key,
    ensures
        obj_lookup(entries, key) == Some(entries[i].1),
    decreases i,
{
    if i > 0 {
        lemma_obj_lookup_found(entries.drop_first(), key, i - 1);
    }
}

proof fn lemma_obj_lookup_none(entries: Seq<(Seq<char>, JsonModel)>, key: Seq<char>)
    requires
        forall|j: int| 0 <= j < entries.len() ==> entries[j].0 != key,
    ensures
        obj_lookup(entries, key) is None,
    decreases entries.len(),
{
    if entries.len() > 0 {
        lemma_obj_lookup_none(entries.drop_first(), key);
    }
}

proof fn lemma_obj_set_found(
    entries: Seq<(Seq<char>, JsonModel)>,
    key: Seq<char>,
    value: JsonModel,
    i: int,
)
    requires
        0 <= i < entries.len(),
        forall|j: int| 0 <= j < i ==> entries[j].0 != key,
        entries[i].0 == key,
    ensures
        obj_set(entries, key, value) =~= entries.update(i, (key, value)),
    decreases i,
{
    if i == 0 {
        assert(obj_set(entries, key, value) =~= entries.update(0, (key, value)));
    } else {
        lemma_obj_set_found(entries.drop_first(), key, value, i - 1);
        assert(obj_set(entries, key, value) =~= entries.update(i, (key, value)));
    }
}

proof fn lemma_obj_set_append(
    entries: Seq<(Seq<char>, JsonModel)>,
    key: Seq<char>,
    value: JsonModel,
)
    requires
        forall|j: int| 0 <= j < entries.len() ==> entries[j].0 != key,
    ensures
        obj_set(entries, key, value) =~= entries.push((key, value)),
    decreases entries.len(),
{
    if entries.len() == 0 {
        assert(obj_set(entries, key, value) =~= entries.push((key, value)));
    } else {
        lemma_obj_set_append(entries.drop_first(), key, value);
        assert(obj_set(entries, key, value) =~= entries.push((key, value)));
    }
}

} // verus!

//! Response hydration: reading a response envelope back into resource
//! fields, and the helpers shared by every resource kind.

use vstd::prelude::*;
use vstd::string::*;

use crate::error::KintoError;
use crate::json::{jv_get, JsonModel, JsonValue};
use crate::response::ResponseWrapper;

verus! {

broadcast use vstd::std_specs::vec::group_vec_axioms;

/// The `data` field of an envelope body.
pub open spec fn env_data(j: JsonModel) -> Option<JsonModel> {
    jv_get(j, "data"@)
}

/// The `permissions` field of an envelope body.
pub open spec fn env_perms(j: JsonModel) -> Option<JsonModel> {
    jv_get(j, "permissions"@)
}

/// The revision timestamp a document carries.
pub open spec fn data_ts(d: JsonModel) -> Option<u64> {
    match jv_get(d, "last_modified"@) {
        Some(JsonModel::Num(n)) => Some(n),
        _ => None,
    }
}

/// The identifier a document carries.
pub open spec fn data_id(d: JsonModel) -> Option<Seq<char>> {
    match jv_get(d, "id"@) {
        Some(JsonModel::Str(s)) => Some(s),
        _ => None,
    }
}

/// The parts hydration reads from a successful envelope.
pub struct EnvelopeParts {
    pub data: JsonValue,
    pub permissions: Option<JsonValue>,
    pub timestamp: u64,
    pub id: Option<String>,
}

/// Reads the envelope parts every resource kind hydrates from: the document,
/// its mandatory revision timestamp, the identifier it names, and the
/// permissions. A persisted resource must carry `data.last_modified`; an
/// envelope without it, or without `data`, is a malformed response.
pub fn read_envelope(w: &ResponseWrapper) -> (r: Result<EnvelopeParts, KintoError>)
    ensures
        (match r {
            Ok(parts) => env_data(w@.json) == Some(parts.data.deep_view()) && data_ts(
                parts.data.deep_view(),
            ) == Some(parts.timestamp) && (match parts.id {
                Some(s) => data_id(parts.data.deep_view()) == Some(s@),
                None => data_id(parts.data.deep_view()) is None,
            }) && (match parts.permissions {
                Some(p) => env_perms(w@.json) == Some(p.deep_view()),
                None => env_perms(w@.json) is None,
            }),
            Err(e) => e == KintoError::MalformedResponse && (env_data(w@.json) is None || (
            env_data(w@.json) matches Some(d) && data_ts(d) is None)),
        }),
{
    let data = match w.json.get("data") {
        Some(d) => d.clone(),
        None => {
            return Err(KintoError::MalformedResponse);
        },
    };
    let timestamp = match data.get("last_modified") {
        Some(v) => match v.as_u64() {
            Some(n) => n,
            None => {
                return Err(KintoError::MalformedResponse);
            },
        },
        None => {
            return Err(KintoError::MalformedResponse);
        },
    };
    let id = match data.get("id") {
        Some(v) => v.as_string(),
        None => None,
    };
    let permissions = match w.json.get("permissions") {
        Some(p) => Some(p.clone()),
        None => None,
    };
    Ok(EnvelopeParts { data, permissions, timestamp, id })
}

/// The strings among the elements of a JSON array, in order.
pub open spec fn strs_of_arr(vs: Seq<JsonModel>) -> Seq<Seq<char>>
    decreases vs.len(),
{
    if vs.len() == 0 {
        Seq::empty()
    } else {
        (match vs[0] {
            JsonModel::Str(s) => seq![s],
            _ => Seq::empty(),
        }) + strs_of_arr(vs.drop_first())
    }
}

/// The strings a permission entry lists: the elements of its array.
pub open spec fn strs_of(o: Option<JsonModel>) -> Seq<Seq<char>> {
    match o {
        Some(JsonModel::Array(vs)) => strs_of_arr(vs),
        _ => Seq::empty(),
    }
}

proof fn lemma_strs_of_arr_push(vs: Seq<JsonModel>, x: JsonModel)
    ensures
        strs_of_arr(vs.push(x)) == strs_of_arr(vs) + (match x {
            JsonModel::Str(s) => seq![s],
            _ => Seq::<Seq<char>>::empty(),
        }),
    decreases vs.len(),
{
    reveal_with_fuel(strs_of_arr, 3);
    if vs.len() == 0 {
        assert(strs_of_arr(vs.push(x)) =~= strs_of_arr(vs) + (match x {
            JsonModel::Str(s) => seq![s],
            _ => Seq::<Seq<char>>::empty(),
        }));
    } else {
        lemma_strs_of_arr_push(vs.drop_first(), x);
        assert(vs.push(x)[0] == vs[0]);
        assert(vs.push(x).drop_first() =~= vs.drop_first().push(x));
        assert(strs_of_arr(vs.push(x)) =~= strs_of_arr(vs) + (match x {
            JsonModel::Str(s) => seq![s],
            _ => Seq::<Seq<char>>::empty(),
        }));
    }
}

/// Reads a permission entry: the strings of its array, anything else giving
/// no principals.
pub fn format_permissions(v: Option<&JsonValue>) -> (r: Vec<String>)
    ensures
        r.deep_view() == strs_of(
            (match v {
                Some(j) => Some(j.deep_view()),
                None => None,
            }),
        ),
{
    let mut out: Vec<String> = Vec::new();
    match v {
        Some(j) => {
            match j {
                JsonValue::Array(vs) => {
                    let ghost target = j.deep_view()->Array_0;
                    proof {
                        crate::json::lemma_arr_model(vs@);
                    }
                    let mut i: usize = 0;
                    while i < vs.len()
                        invariant
                            i <= vs@.len(),
                            target == crate::json::arr_model(vs@),
                            out.deep_view() =~= strs_of_arr(target.take(i as int)),
                        decreases vs@.len() - i,
                    {
                        proof {
                            crate::json::lemma_arr_model(vs@);
                            assert(target.take(i + 1) =~= target.take(i as int).push(
                                target[i as int],
                            ));
                            lemma_strs_of_arr_push(target.take(i as int), target[i as int]);
                        }
                        match &vs[i] {
                            JsonValue::Str(s) => {
                                out.push(s.clone());
                            },
                            _ => {},
                        }
                        i += 1;
                    }
                    proof {
                        assert(target.take(target.len() as int) =~= target);
                    }
                    out
                },
                _ => out,
            }
        },
        None => out,
    }
}

/// The models of a list of principal strings.
pub open spec fn str_models(ids: Seq<Seq<char>>) -> Seq<JsonModel> {
    Seq::new(ids.len(), |i: int| JsonModel::Str(ids[i]))
}

/// Builds the JSON array of a list of principal strings.
pub fn strings_to_json_array(v: &Vec<String>) -> (r: JsonValue)
    ensures
        r.deep_view() == JsonModel::Array(str_models(v.deep_view())),
{
    let mut items: Vec<JsonValue> = Vec::new();
    let mut i: usize = 0;
    while i < v.len()
        invariant
            i <= v@.len(),
            items@.len() == i as int,
            forall|j: int| 0 <= j < i ==> items@[j].deep_view() == JsonModel::Str(v@[j]@),
        decreases v@.len() - i,
    {
        items.push(JsonValue::Str(v[i].clone()));
        i += 1;
    }
    let r = JsonValue::Array(items);
    proof {
        crate::json::lemma_arr_model(r->Array_0@);
        assert(crate::json::arr_model(r->Array_0@) =~= str_models(v.deep_view()));
    }
    r
}

/// The identifiers inside a list answer: the `id` strings of the objects
/// under `data`.
pub open spec fn ids_of_list(j: JsonModel) -> Seq<Seq<char>> {
    match jv_get(j, "data"@) {
        Some(JsonModel::Array(vs)) => ids_of_arr(vs),
        _ => Seq::empty(),
    }
}

/// The `id` strings of a sequence of member stubs.
pub open spec fn ids_of_arr(vs: Seq<JsonModel>) -> Seq<Seq<char>>
    decreases vs.len(),
{
    if vs.len() == 0 {
        Seq::empty()
    } else {
        (match jv_get(vs[0], "id"@) {
            Some(JsonModel::Str(s)) => seq![s],
            _ => Seq::empty(),
        }) + ids_of_arr(vs.drop_first())
    }
}

proof fn lemma_ids_of_arr_push(vs: Seq<JsonModel>, x: JsonModel)
    ensures
        ids_of_arr(vs.push(x)) == ids_of_arr(vs) + (match jv_get(x, "id"@) {
            Some(JsonModel::Str(s)) => seq![s],
            _ => Seq::<Seq<char>>::empty(),
        }),
    decreases vs.len(),
{
    reveal_with_fuel(ids_of_arr, 3);
    if vs.len() == 0 {
        assert(ids_of_arr(vs.push(x)) =~= ids_of_arr(vs) + (match jv_get(x, "id"@) {
            Some(JsonModel::Str(s)) => seq![s],
            _ => Seq::<Seq<char>>::empty(),
        }));
    } else {
        lemma_ids_of_arr_push(vs.drop_first(), x);
        assert(vs.push(x)[0] == vs[0]);
        assert(vs.push(x).drop_first() =~= vs.drop_first().push(x));
        assert(ids_of_arr(vs.push(x)) =~= ids_of_arr(vs) + (match jv_get(x, "id"@) {
            Some(JsonModel::Str(s)) => seq![s],
            _ => Seq::<Seq<char>>::empty(),
        }));
    }
}

/// A list answer built from identifiers reads back as exactly those
/// identifiers.
pub proof fn lemma_ids_of_list_body(ids: Seq<Seq<char>>)
    ensures
        ids_of_list(crate::server::list_body(ids)) == ids,
    decreases ids.len(),
{
    broadcast use crate::json::lemma_obj_set_lookup;

    let objs = crate::server::id_objs(ids);
    lemma_ids_of_arr_is(objs, ids);
}

proof fn lemma_ids_of_arr_is(vs: Seq<JsonModel>, ids: Seq<Seq<char>>)
    requires
        vs.len() == ids.len(),
        forall|i: int|
            0 <= i < vs.len() ==> #[trigger] vs[i] == JsonModel::Object(
                seq![("id"@, JsonModel::Str(ids[i]))],
            ),
    ensures
        ids_of_arr(vs) == ids,
    decreases vs.len(),
{
    if vs.len() == 0 {
        assert(ids_of_arr(vs) =~= ids);
    } else {
        assert(forall|i: int|
            0 <= i < vs.drop_first().len() ==> #[trigger] vs.drop_first()[i] == vs[i + 1]);
        assert(forall|i: int|
            0 <= i < ids.drop_first().len() ==> #[trigger] ids.drop_first()[i] == ids[i + 1]);
        lemma_ids_of_arr_is(vs.drop_first(), ids.drop_first());
        assert(jv_get(vs[0], "id"@) == Some(JsonModel::Str(ids[0])));
        assert(ids_of_arr(vs) =~= ids);
    }
}

/// Reads the member identifiers out of a list answer.
pub fn unwrap_collection_ids(w: &ResponseWrapper) -> (ids: Vec<String>)
    ensures
        ids.deep_view() == ids_of_list(w@.json),
{
    let mut out: Vec<String> = Vec::new();
    let arr = match w.json.get("data") {
        Some(d) => match d {
            JsonValue::Array(vs) => vs,
            _ => {
                return out;
            },
        },
        None => {
            return out;
        },
    };
    let ghost target = crate::json::arr_model(arr@);
    proof {
        crate::json::lemma_arr_model(arr@);
    }
    let mut i: usize = 0;
    while i < arr.len()
        invariant
            i <= arr@.len(),
            target == crate::json::arr_model(arr@),
            out.deep_view() =~= ids_of_arr(target.take(i as int)),
        decreases arr@.len() - i,
    {
        proof {
            crate::json::lemma_arr_model(arr@);
            assert(target.take(i + 1) =~= target.take(i as int).push(target[i as int]));
            lemma_ids_of_arr_push(target.take(i as int), target[i as int]);
        }
        match arr[i].get("id") {
            Some(v) => {
                match v.as_string() {
                    Some(s) => {
                        out.push(s);
                    },
                    None => {},
                }
            },
            None => {},
        }
        i += 1;
    }
    proof {
        assert(target.take(target.len() as int) =~= target);
    }
    out
}

} // verus!

//! The cross-cutting guarantees of the protocol, stated over the same
//! specification functions the operation contracts use.

use vstd::prelude::*;

use crate::error::KintoError;
use crate::json::{jv_get, JsonModel};
use crate::request::{body_after_set, classify_spec, ETagMatch, Method, RequestModel};
use crate::resource::{env_data, env_perms};
use crate::server::{
    cur_ts, envelope_of, srv_lookup, srv_upsert, step, ServerModel, StoredModel,
};

verus! {

/// Creating then loading round-trips the document: once a creation has
/// stored a resource at a fresh key, a load at that key finds exactly the
/// stored resource, and its answer envelope carries exactly the stored
/// document and permissions.
pub proof fn lemma_create_then_load(
    e: Seq<(Seq<char>, StoredModel)>,
    key: Seq<char>,
    st: StoredModel,
)
    ensures
        srv_lookup(srv_upsert(e, key, st), key) == Some(st),
        env_data(envelope_of(st)) == Some(st.data),
        env_perms(envelope_of(st)) == Some(st.permissions),
{
    broadcast use crate::server::lemma_srv_upsert_lookup;
    broadcast use crate::json::lemma_obj_set_lookup;

    reveal_strlit("data");
    reveal_strlit("permissions");
    assert("data"@.len() == 4);
    assert("permissions"@.len() == 11);
    assert("data"@ != "permissions"@);
}

/// A conditional replacement carrying a stale revision token fails with a
/// lost race and leaves the server unchanged.
pub proof fn lemma_stale_update_rejected(req: RequestModel, m: ServerModel, t: u64)
    requires
        !req.plural,
        req.method == Method::Put,
        req.if_match == Some(ETagMatch::Token(t)),
        (match cur_ts(srv_lookup(m.entries, req.path)) {
            Some(ts) => ts != t,
            None => false,
        }),
    ensures
        step(req, m).0 == m,
        step(req, m).1 == 412,
        classify_spec(step(req, m).1) == Some(KintoError::PreconditionFailed),
{
}

/// A dispatch that sees status 304 is classified as not modified before any
/// body comes into play.
pub proof fn lemma_not_modified_classified(status: u16)
    requires
        status == 304,
    ensures
        classify_spec(status) == Some(KintoError::NotModified),
{
}

/// The two payload setters are independent: after attaching a document and
/// then permissions, in either order, the shared body carries both, each
/// under its own key.
pub proof fn lemma_payload_setters_independent(
    body: Option<JsonModel>,
    d: JsonModel,
    p: JsonModel,
)
    ensures
        (match body_after_set(body_after_set(body, "data"@, d), "permissions"@, p) {
            Some(b) => jv_get(b, "data"@) == Some(d) && jv_get(b, "permissions"@) == Some(p),
            None => false,
        }),
        (match body_after_set(body_after_set(body, "permissions"@, p), "data"@, d) {
            Some(b) => jv_get(b, "data"@) == Some(d) && jv_get(b, "permissions"@) == Some(p),
            None => false,
        }),
{
    broadcast use crate::json::lemma_obj_set_lookup;

    reveal_strlit("data");
    reveal_strlit("permissions");
    assert("data"@.len() == 4);
    assert("permissions"@.len() == 11);
    assert("data"@ != "permissions"@);
}

/// Listing an empty store names no members.
pub proof fn lemma_list_empty_store(parent: Seq<char>)
    ensures
        crate::server::srv_children(Seq::<(Seq<char>, StoredModel)>::empty(), parent) == Seq::<
            Seq<char>,
        >::empty(),
{
}

} // verus!

//! Buckets: the top-level namespaces grouping collections.

use vstd::prelude::*;
use vstd::string::*;

use crate::client::{ClientModel, KintoClient};
use crate::error::KintoError;
use crate::json::{jv_get, jv_set, JsonModel, JsonValue};
use crate::paths::{bucket_path, collections_path, spec_extract, Paths};
use crate::request::{
    CreateRecord, DeleteCollection, DeleteRecord, ETagMatch, GetCollection, GetRecord,
    KintoRequest, PayloadedEndpoint, UpdateRecord,
};
use crate::resource::{
    data_id, data_ts, env_data, env_perms, read_envelope, strs_of, str_models,
    format_permissions, strings_to_json_array, unwrap_collection_ids,
};
use crate::response::ResponseWrapper;
use crate::server::{
    empty_obj, envelope_of, srv_children, srv_lookup, srv_remove, srv_remove_descendants,
    srv_upsert, srv_wf, with_ts, ServerModel, ServerState, StoredModel,
};

verus! {

broadcast use crate::json::lemma_obj_set_lookup;

/// The mathematical form of bucket permissions.
pub struct BucketPermsModel {
    pub read: Seq<Seq<char>>,
    pub write: Seq<Seq<char>>,
    pub create_collection: Seq<Seq<char>>,
    pub create_group: Seq<Seq<char>>,
}

/// Who may read or write a bucket, create collections in it, or create
/// groups in it.
#[derive(Debug)]
pub struct BucketPermissions {
    pub read: Vec<String>,
    pub write: Vec<String>,
    pub create_collection: Vec<String>,
    pub create_group: Vec<String>,
}

impl View for BucketPermissions {
    type V = BucketPermsModel;

    open spec fn view(&self) -> BucketPermsModel {
        BucketPermsModel {
            read: self.read.deep_view(),
            write: self.write.deep_view(),
            create_collection: self.create_collection.deep_view(),
            create_group: self.create_group.deep_view(),
        }
    }
}

/// Bucket permissions read out of their JSON form.
pub open spec fn bperm_of(j: JsonModel) -> BucketPermsModel {
    BucketPermsModel {
        read: strs_of(jv_get(j, "read"@)),
        write: strs_of(jv_get(j, "write"@)),
        create_collection: strs_of(jv_get(j, "collection:create"@)),
        create_group: strs_of(jv_get(j, "group:create"@)),
    }
}

/// The JSON form of bucket permissions.
pub open spec fn bperm_json(m: BucketPermsModel) -> JsonModel {
    jv_set(
        jv_set(
            jv_set(
                jv_set(empty_obj(), "read"@, JsonModel::Array(str_models(m.read))),
                "write"@,
                JsonModel::Array(str_models(m.write)),
            ),
            "collection:create"@,
            JsonModel::Array(str_models(m.create_collection)),
        ),
        "group:create"@,
        JsonModel::Array(str_models(m.create_group)),
    )
}

impl BucketPermissions {
    /// Reads the kind-specific permission entries out of a JSON object.
    pub fn from_json(j: &JsonValue) -> (p: BucketPermissions)
        ensures
            p@ == bperm_of(j.deep_view()),
    {
        BucketPermissions {
            read: format_permissions(j.get("read")),
            write: format_permissions(j.get("write")),
            create_collection: format_permissions(j.get("collection:create")),
            create_group: format_permissions(j.get("group:create")),
        }
    }

    /// The JSON object these permissions travel as.
    pub fn to_json(&self) -> (j: JsonValue)
        ensures
            j.deep_view() == bperm_json(self@),
    {
        let mut o = JsonValue::new_object();
        o.set("read", strings_to_json_array(&self.read));
        o.set("write", strings_to_json_array(&self.write));
        o.set("collection:create", strings_to_json_array(&self.create_collection));
        o.set("group:create", strings_to_json_array(&self.create_group));
        o
    }
}

/// The mathematical form of a bucket resource.
pub struct BucketModel {
    pub client: ClientModel,
    pub id: Seq<char>,
    pub timestamp: Option<u64>,
    pub data: Option<JsonModel>,
    pub permissions: Option<BucketPermsModel>,
}

/// A bucket resource. The timestamp is present exactly when the fields
/// reflect a server-observed state.
pub struct Bucket {
    pub client: KintoClient,
    pub id: String,
    pub timestamp: Option<u64>,
    pub data: Option<JsonValue>,
    pub permissions: Option<BucketPermissions>,
}

impl View for Bucket {
    type V = BucketModel;

    open spec fn view(&self) -> BucketModel {
        BucketModel {
            client: self.client@,
            id: self.id@,
            timestamp: self.timestamp,
            data: (match self.data {
                Some(ref d) => Some(d.deep_view()),
                None => None,
            }),
            permissions: (match self.permissions {
                Some(ref p) => Some(p@),
                None => None,
            }),
        }
    }
}

/// A JSON body, or the empty object where none was given.
pub open spec fn or_empty_obj(o: Option<JsonModel>) -> JsonModel {
    match o {
        Some(m) => m,
        None => empty_obj(),
    }
}

/// The document a successful creation leaves on the server: the sent
/// document with its identifier written in by both sides, stamped with the
/// server-assigned revision.
pub open spec fn created_doc(d0: Option<JsonModel>, id: Seq<char>, ts: u64) -> JsonModel {
    with_ts(
        jv_set(jv_set(or_empty_obj(d0), "id"@, JsonModel::Str(id)), "id"@, JsonModel::Str(id)),
        ts,
    )
}

/// The document a successful replacement leaves on the server: the sent
/// document, carrying its identifier, stamped with the server-assigned
/// revision.
pub open spec fn replaced_doc(d0: Option<JsonModel>, id: Seq<char>, ts: u64) -> JsonModel {
    with_ts(jv_set(or_empty_obj(d0), "id"@, JsonModel::Str(id)), ts)
}

/// The permissions a write sends: the resource's own, or none.
pub open spec fn sent_perms(p: Option<BucketPermsModel>) -> JsonModel {
    match p {
        Some(pm) => bperm_json(pm),
        None => empty_obj(),
    }
}

/// The bucket identifier an envelope yields: the one in the document, or
/// the one read back from the request path.
pub open spec fn bucket_env_id(j: JsonModel, path: Seq<char>) -> Option<Seq<char>> {
    match env_data(j) {
        Some(d) => match data_id(d) {
            Some(s) => Some(s),
            None => spec_extract(path).bucket,
        },
        None => None,
    }
}

/// Whether an envelope carries everything bucket hydration needs.
pub open spec fn bucket_env_ok(j: JsonModel, path: Seq<char>) -> bool {
    match env_data(j) {
        Some(d) => data_ts(d) is Some && bucket_env_id(j, path) is Some,
        None => false,
    }
}

/// The bucket a successful hydration leaves behind.
pub open spec fn bucket_hydrated(w: crate::response::ResponseModel) -> BucketModel {
    BucketModel {
        client: w.client,
        id: (match bucket_env_id(w.json, w.path) {
            Some(s) => s,
            None => Seq::empty(),
        }),
        timestamp: (match env_data(w.json) {
            Some(d) => data_ts(d),
            None => None,
        }),
        data: env_data(w.json),
        permissions: Some(bperm_of(or_empty_obj(env_perms(w.json)))),
    }
}

impl Bucket {
    /// An in-memory bucket with the given identifier; nothing is sent until
    /// one of its operations runs.
    pub fn new(client: KintoClient, id: &str) -> (b: Bucket)
        ensures
            b@ == (BucketModel {
                client: client@,
                id: id@,
                timestamp: None,
                data: None,
                permissions: None,
            }),
    {
        Bucket { client, id: id.to_owned(), timestamp: None, data: None, permissions: None }
    }

    /// Replaces this resource's fields from a response envelope. Fails with
    /// a malformed response when the envelope lacks the document, its
    /// revision timestamp, or any usable identifier.
    pub fn unwrap_response(&mut self, wrapper: ResponseWrapper) -> (r: Result<(), KintoError>)
        ensures
            r is Ok <==> bucket_env_ok(wrapper@.json, wrapper@.path),
            r is Ok ==> final(self)@ == bucket_hydrated(wrapper@),
            r is Err ==> r == Err::<(), KintoError>(KintoError::MalformedResponse) && final(self)@
                == old(self)@,
    {
        let parts = match read_envelope(&wrapper) {
            Ok(parts) => parts,
            Err(e) => {
                return Err(KintoError::MalformedResponse);
            },
        };
        let id = match parts.id {
            Some(s) => s,
            None => {
                let ids = crate::paths::extract_ids_from_path(wrapper.path.as_str());
                match ids.bucket {
                    Some(b) => b,
                    None => {
                        return Err(KintoError::MalformedResponse);
                    },
                }
            },
        };
        let perms_json = match parts.permissions {
            Some(p) => p,
            None => JsonValue::new_object(),
        };
        self.client = wrapper.client;
        self.id = id;
        self.timestamp = Some(parts.timestamp);
        self.data = Some(parts.data);
        self.permissions = Some(BucketPermissions::from_json(&perms_json));
        Ok(())
    }

    /// Steps down to the collection with the given identifier inside this
    /// bucket; nothing is sent.
    pub fn collection(self, id: &str) -> (c: crate::collection::Collection)
        ensures
            c@ == (crate::collection::CollectionModel {
                client: self@.client,
                bucket: self@,
                id: id@,
                timestamp: None,
                data: None,
                permissions: None,
            }),
    {
        let client = self.client.clone();
        crate::collection::Collection::new(client, self, id)
    }

    /// Creates a new, empty collection with a server-generated identifier.
    pub fn new_collection(&mut self, server: &mut ServerState) -> (r: Result<
        crate::collection::Collection,
        KintoError,
    >)
        requires
            srv_wf(old(server)@),
            old(server)@.clock < u64::MAX,
        ensures
            srv_wf(final(server)@),
            final(self)@ == old(self)@,
            (srv_lookup(
                old(server)@.entries,
                crate::paths::child_path(
                    collections_path(old(self)@.id),
                    crate::server::gen_id(old(server)@.clock),
                ),
            ) is Some ==> r == Err::<crate::collection::Collection, KintoError>(
                KintoError::RequestError(403),
            ) && final(server)@ == old(server)@),
            (srv_lookup(
                old(server)@.entries,
                crate::paths::child_path(
                    collections_path(old(self)@.id),
                    crate::server::gen_id(old(server)@.clock),
                ),
            ) is None ==> (match r {
                Ok(c) => final(server)@ == (ServerModel {
                    entries: srv_upsert(
                        old(server)@.entries,
                        crate::paths::child_path(
                            collections_path(old(self)@.id),
                            crate::server::gen_id(old(server)@.clock),
                        ),
                        (StoredModel {
                            data: replaced_doc(
                                None,
                                crate::server::gen_id(old(server)@.clock),
                                old(server)@.clock,
                            ),
                            permissions: empty_obj(),
                            timestamp: old(server)@.clock,
                        }),
                    ),
                    clock: (old(server)@.clock + 1) as u64,
                }) && c@.id == crate::server::gen_id(old(server)@.clock) && c@.timestamp == Some(
                    old(server)@.clock,
                ) && c@.data == Some(
                    replaced_doc(
                        None,
                        crate::server::gen_id(old(server)@.clock),
                        old(server)@.clock,
                    ),
                ),
                Err(_) => false,
            })),
    {
        proof {
            reveal_strlit("data");
            reveal_strlit("permissions");
            reveal_strlit("id");
            reveal_strlit("last_modified");
            assert("data"@.len() == 4);
            assert("permissions"@.len() == 11);
            assert("id"@.len() == 2);
            assert("last_modified"@.len() == 13);
            assert("id"@ != "last_modified"@);
        }
        let req = CreateRecord::new(
            self.client.clone(),
            Paths::Collections(self.id.as_str()).build(),
        );
        match req.send(server) {
            Ok(w) => {
                proof {
                    let m = old(server)@;
                    let gid = crate::server::gen_id(m.clock);
                    assert(crate::server::data_of_body(req.prep().body) == empty_obj());
                    assert(crate::server::created_id(req.prep().body, m.clock) == gid);
                    let st = crate::server::stored_post(req.prep().body, gid, m.clock);
                    assert(st.data == replaced_doc(None, gid, m.clock));
                    assert(w@.json == envelope_of(st));
                    assert(env_data(w@.json) == Some(st.data));
                    assert(env_perms(w@.json) == Some(st.permissions));
                    assert(data_ts(st.data) == Some(m.clock));
                    assert(data_id(st.data) == Some(gid));
                }
                let placeholder = Bucket::new(self.client.clone(), self.id.as_str());
                let mut c = crate::collection::Collection::new(
                    self.client.clone(),
                    placeholder,
                    "",
                );
                match c.unwrap_response(w) {
                    Ok(()) => Ok(c),
                    Err(e) => {
                        proof {
                            assert(false);
                        }
                        Err(e)
                    },
                }
            },
            Err(e) => Err(e),
        }
    }

    /// A custom list request for this bucket's collections.
    pub fn list_collections_request(&mut self) -> (r: GetCollection)
        ensures
            final(self)@ == old(self)@,
            r.preparer@.client == old(self)@.client,
            r.preparer@.method == crate::request::Method::Get,
            r.preparer@.plural,
            r.preparer@.path == collections_path(old(self)@.id),
            r.preparer@.body is None,
            r.preparer@.if_match is None,
            r.preparer@.if_none_match is None,
    {
        GetCollection::new(self.client.clone(), Paths::Collections(self.id.as_str()).build())
    }

    /// A custom delete request for this bucket's collections.
    pub fn delete_collections_request(&mut self) -> (r: DeleteCollection)
        ensures
            final(self)@ == old(self)@,
            r.preparer@.client == old(self)@.client,
            r.preparer@.method == crate::request::Method::Delete,
            r.preparer@.plural,
            r.preparer@.path == collections_path(old(self)@.id),
            r.preparer@.body is None,
            r.preparer@.if_match is None,
            r.preparer@.if_none_match is None,
    {
        DeleteCollection::new(self.client.clone(), Paths::Collections(self.id.as_str()).build())
    }

    /// A custom create request below this bucket's collection list.
    pub fn create_collection_request(&mut self) -> (r: CreateRecord)
        ensures
            final(self)@ == old(self)@,
            r.preparer@.client == old(self)@.client,
            r.preparer@.method == crate::request::Method::Post,
            r.preparer@.plural,
            r.preparer@.path == collections_path(old(self)@.id),
            r.preparer@.body is None,
            r.preparer@.if_match is None,
            r.preparer@.if_none_match is None,
    {
        CreateRecord::new(self.client.clone(), Paths::Collections(self.id.as_str()).build())
    }

    /// Lists the identifiers of this bucket's collections. The answer is one
    /// page; a very large bucket may hold more members than one page shows.
    pub fn list_collections(&mut self, server: &mut ServerState) -> (r: Result<
        Vec<String>,
        KintoError,
    >)
        requires
            srv_wf(old(server)@),
            old(server)@.clock < u64::MAX,
        ensures
            final(server)@ == old(server)@,
            final(self)@ == old(self)@,
            srv_wf(final(server)@),
            (match r {
                Ok(ids) => ids.deep_view() == srv_children(
                    old(server)@.entries,
                    collections_path(old(self)@.id),
                ),
                Err(_) => false,
            }),
    {
        let req = GetCollection::new(
            self.client.clone(),
            Paths::Collections(self.id.as_str()).build(),
        );
        match req.send(server) {
            Ok(w) => {
                let ids = unwrap_collection_ids(&w);
                proof {
                    crate::resource::lemma_ids_of_list_body(
                        srv_children(old(server)@.entries, collections_path(old(self)@.id)),
                    );
                }
                Ok(ids)
            },
            Err(e) => Err(e),
        }
    }

    /// Deletes every collection of this bucket.
    pub fn delete_collections(&mut self, server: &mut ServerState) -> (r: Result<(), KintoError>)
        requires
            srv_wf(old(server)@),
            old(server)@.clock < u64::MAX,
        ensures
            srv_wf(final(server)@),
            final(self)@ == old(self)@,
            final(server)@.entries == srv_remove_descendants(
                old(server)@.entries,
                collections_path(old(self)@.id),
            ),
            final(server)@.clock == old(server)@.clock,
            r is Ok,
    {
        let req = DeleteCollection::new(
            self.client.clone(),
            Paths::Collections(self.id.as_str()).build(),
        );
        match req.send(server) {
            Ok(_) => Ok(()),
            Err(e) => Err(e),
        }
    }

    /// Creates this bucket on the server: a creation below the root list
    /// path, carrying this resource's document and permissions. Fails with a
    /// request error when the identifier is already taken, leaving the
    /// server unchanged; on success the fields are replaced from the answer
    /// and the resource is persisted.
    pub fn create(&mut self, server: &mut ServerState) -> (r: Result<(), KintoError>)
        requires
            srv_wf(old(server)@),
            old(server)@.clock < u64::MAX,
        ensures
            srv_wf(final(server)@),
            (srv_lookup(old(server)@.entries, bucket_path(old(self)@.id)) is Some ==> r == Err::<
                (),
                KintoError,
            >(KintoError::RequestError(403)) && final(server)@ == old(server)@ && final(self)@
                == old(self)@),
            (srv_lookup(old(server)@.entries, bucket_path(old(self)@.id)) is None ==> r is Ok
                && final(server)@ == (ServerModel {
                entries: srv_upsert(
                    old(server)@.entries,
                    bucket_path(old(self)@.id),
                    (StoredModel {
                        data: created_doc(old(self)@.data, old(self)@.id, old(server)@.clock),
                        permissions: sent_perms(old(self)@.permissions),
                        timestamp: old(server)@.clock,
                    }),
                ),
                clock: (old(server)@.clock + 1) as u64,
            }) && final(self)@ == (BucketModel {
                client: old(self)@.client,
                id: old(self)@.id,
                timestamp: Some(old(server)@.clock),
                data: Some(created_doc(old(self)@.data, old(self)@.id, old(server)@.clock)),
                permissions: Some(bperm_of(sent_perms(old(self)@.permissions))),
            })),
    {
        proof {
            reveal_strlit("data");
            reveal_strlit("permissions");
            reveal_strlit("id");
            reveal_strlit("last_modified");
            assert("data"@.len() == 4);
            assert("permissions"@.len() == 11);
            assert("id"@.len() == 2);
            assert("last_modified"@.len() == 13);
            assert("data"@ != "permissions"@);
            assert("id"@ != "last_modified"@);
            assert("id"@ != "data"@);
            assert("id"@ != "permissions"@);
            crate::paths::lemma_child_of_buckets(old(self)@.id);
        }
        let mut data = match &self.data {
            Some(d) => d.clone(),
            None => JsonValue::new_object(),
        };
        data.set("id", JsonValue::Str(self.id.clone()));
        let perms = match &self.permissions {
            Some(p) => Some(p.to_json()),
            None => None,
        };
        proof {
            assert(data.deep_view() == jv_set(
                or_empty_obj(old(self)@.data),
                "id"@,
                JsonModel::Str(old(self)@.id),
            ));
        }
        let mut req = CreateRecord::new(self.client.clone(), Paths::Buckets.build());
        req.data(Some(data));
        proof {
            assert(req.prep().body == Some(
                jv_set(
                    empty_obj(),
                    "data"@,
                    jv_set(or_empty_obj(old(self)@.data), "id"@, JsonModel::Str(old(self)@.id)),
                ),
            ));
        }
        req.permissions(perms);
        proof {
            assert(crate::server::data_of_body(req.prep().body) == jv_set(
                or_empty_obj(old(self)@.data),
                "id"@,
                JsonModel::Str(old(self)@.id),
            ));
        }
        match req.send(server) {
            Ok(w) => {
                proof {
                    let m = old(server)@;
                    let d1 = jv_set(
                        or_empty_obj(old(self)@.data),
                        "id"@,
                        JsonModel::Str(old(self)@.id),
                    );
                    let bodym = req.prep().body;
                    assert(crate::server::data_of_body(bodym) == d1);
                    assert(jv_get(d1, "id"@) == Some(JsonModel::Str(old(self)@.id)));
                    assert(crate::server::created_id(bodym, m.clock) == old(self)@.id);
                    let st = crate::server::stored_post(bodym, old(self)@.id, m.clock);
                    assert(st.data == created_doc(old(self)@.data, old(self)@.id, m.clock));
                    assert(st.permissions == sent_perms(old(self)@.permissions));
                    assert(w@.json == envelope_of(st));
                    assert(env_data(w@.json) == Some(st.data));
                    assert(env_perms(w@.json) == Some(st.permissions));
                    assert(data_ts(st.data) == Some(m.clock));
                    assert(data_id(st.data) == Some(old(self)@.id));
                    assert(bucket_env_ok(w@.json, w@.path));
                }
                match self.unwrap_response(w) {
                    Ok(()) => Ok(()),
                    Err(e) => {
                        proof {
                            assert(false);
                        }
                        Err(e)
                    },
                }
            },
            Err(e) => Err(e),
        }
    }

    /// Loads this bucket from the server by its identifier. A missing bucket
    /// is a request error; a stored document without its revision timestamp
    /// is a malformed response; otherwise every field is refreshed and the
    /// resource is persisted.
    pub fn load(&mut self, server: &mut ServerState) -> (r: Result<(), KintoError>)
        requires
            srv_wf(old(server)@),
            old(server)@.clock < u64::MAX,
        ensures
            srv_wf(final(server)@),
            final(server)@ == old(server)@,
            (match srv_lookup(old(server)@.entries, bucket_path(old(self)@.id)) {
                None => r == Err::<(), KintoError>(KintoError::RequestError(404)) && final(self)@
                    == old(self)@,
                Some(st) => {
                    if bucket_env_ok(envelope_of(st), bucket_path(old(self)@.id)) {
                        r is Ok && final(self)@ == (BucketModel {
                            client: old(self)@.client,
                            id: (match bucket_env_id(
                                envelope_of(st),
                                bucket_path(old(self)@.id),
                            ) {
                                Some(s) => s,
                                None => Seq::empty(),
                            }),
                            timestamp: data_ts(st.data),
                            data: Some(st.data),
                            permissions: Some(bperm_of(st.permissions)),
                        })
                    } else {
                        r == Err::<(), KintoError>(KintoError::MalformedResponse) && final(self)@
                            == old(self)@
                    }
                },
            }),
    {
        proof {
            reveal_strlit("data");
            reveal_strlit("permissions");
            assert("data"@.len() == 4);
            assert("permissions"@.len() == 11);
            assert("data"@ != "permissions"@);
        }
        let req = GetRecord::new(self.client.clone(), Paths::Bucket(self.id.as_str()).build());
        match req.send(server) {
            Ok(w) => self.unwrap_response(w),
            Err(e) => Err(e),
        }
    }

    /// Replaces this bucket on the server, conditioned on the last known
    /// revision: a resource never observed must at least exist, an observed
    /// one must still carry the known revision token. A missing bucket is a
    /// request error; a lost race is a failed precondition; on success the
    /// revision strictly increases.
    pub fn update(&mut self, server: &mut ServerState) -> (r: Result<(), KintoError>)
        requires
            srv_wf(old(server)@),
            old(server)@.clock < u64::MAX,
        ensures
            srv_wf(final(server)@),
            (srv_lookup(old(server)@.entries, bucket_path(old(self)@.id)) is None ==> r == Err::<
                (),
                KintoError,
            >(KintoError::RequestError(404)) && final(server)@ == old(server)@ && final(self)@
                == old(self)@),
            (match (srv_lookup(old(server)@.entries, bucket_path(old(self)@.id)), old(
                self,
            )@.timestamp) {
                (Some(st), Some(t)) => st.timestamp != t ==> r == Err::<(), KintoError>(
                    KintoError::PreconditionFailed,
                ) && final(server)@ == old(server)@ && final(self)@ == old(self)@,
                _ => true,
            }),
            (match srv_lookup(old(server)@.entries, bucket_path(old(self)@.id)) {
                Some(st) => (match old(self)@.timestamp {
                    Some(t) => st.timestamp == t,
                    None => true,
                }) ==> r is Ok && final(server)@ == (ServerModel {
                    entries: srv_upsert(
                        old(server)@.entries,
                        bucket_path(old(self)@.id),
                        (StoredModel {
                            data: replaced_doc(
                                old(self)@.data,
                                old(self)@.id,
                                old(server)@.clock,
                            ),
                            permissions: sent_perms(old(self)@.permissions),
                            timestamp: old(server)@.clock,
                        }),
                    ),
                    clock: (old(server)@.clock + 1) as u64,
                }) && final(self)@.timestamp == Some(old(server)@.clock),
                None => true,
            }),
            (r is Ok ==> (match (old(self)@.timestamp, final(self)@.timestamp) {
                (Some(t), Some(t2)) => t2 > t,
                (Some(_), None) => false,
                _ => true,
            })),
    {
        proof {
            reveal_strlit("data");
            reveal_strlit("permissions");
            reveal_strlit("id");
            reveal_strlit("last_modified");
            assert("data"@.len() == 4);
            assert("permissions"@.len() == 11);
            assert("id"@.len() == 2);
            assert("last_modified"@.len() == 13);
            assert("data"@ != "permissions"@);
            assert("id"@ != "last_modified"@);
            assert("id"@ != "data"@);
            assert("id"@ != "permissions"@);
            crate::server::lemma_srv_lookup_ts_bound(old(server)@, bucket_path(old(self)@.id));
        }
        let mut data = match &self.data {
            Some(d) => d.clone(),
            None => JsonValue::new_object(),
        };
        data.set("id", JsonValue::Str(self.id.clone()));
        let perms = match &self.permissions {
            Some(p) => Some(p.to_json()),
            None => None,
        };
        let mut req = UpdateRecord::new(self.client.clone(), Paths::Bucket(self.id.as_str()).build());
        req.data(Some(data));
        req.permissions(perms);
        match self.timestamp {
            Some(t) => req.if_match(ETagMatch::Token(t)),
            None => req.if_match(ETagMatch::Any),
        }
        match req.send(server) {
            Ok(w) => {
                proof {
                    let m = old(server)@;
                    let d1 = jv_set(
                        or_empty_obj(old(self)@.data),
                        "id"@,
                        JsonModel::Str(old(self)@.id),
                    );
                    let bodym = req.prep().body;
                    assert(crate::server::data_of_body(bodym) == d1);
                    let st = crate::server::stored_put(bodym, m.clock);
                    assert(st.data == replaced_doc(old(self)@.data, old(self)@.id, m.clock));
                    assert(st.permissions == sent_perms(old(self)@.permissions));
                    assert(w@.json == envelope_of(st));
                    assert(env_data(w@.json) == Some(st.data));
                    assert(env_perms(w@.json) == Some(st.permissions));
                    assert(data_ts(st.data) == Some(m.clock));
                    assert(data_id(st.data) == Some(old(self)@.id));
                    assert(bucket_env_ok(w@.json, w@.path));
                }
                match self.unwrap_response(w) {
                    Ok(()) => Ok(()),
                    Err(e) => {
                        proof {
                            assert(false);
                        }
                        Err(e)
                    },
                }
            },
            Err(e) => Err(e),
        }
    }

    /// Creates or replaces this bucket unconditionally: one replacement that
    /// succeeds whether or not the bucket existed.
    pub fn set(&mut self, server: &mut ServerState) -> (r: Result<(), KintoError>)
        requires
            srv_wf(old(server)@),
            old(server)@.clock < u64::MAX,
        ensures
            srv_wf(final(server)@),
            r is Ok,
            final(server)@ == (ServerModel {
                entries: srv_upsert(
                    old(server)@.entries,
                    bucket_path(old(self)@.id),
                    (StoredModel {
                        data: replaced_doc(old(self)@.data, old(self)@.id, old(server)@.clock),
                        permissions: sent_perms(old(self)@.permissions),
                        timestamp: old(server)@.clock,
                    }),
                ),
                clock: (old(server)@.clock + 1) as u64,
            }),
            final(self)@.timestamp == Some(old(server)@.clock),
            final(self)@.data == Some(
                replaced_doc(old(self)@.data, old(self)@.id, old(server)@.clock),
            ),
            final(self)@.id == old(self)@.id,
            final(self)@.client == old(self)@.client,
    {
        proof {
            reveal_strlit("data");
            reveal_strlit("permissions");
            reveal_strlit("id");
            reveal_strlit("last_modified");
            assert("data"@.len() == 4);
            assert("permissions"@.len() == 11);
            assert("id"@.len() == 2);
            assert("last_modified"@.len() == 13);
            assert("data"@ != "permissions"@);
            assert("id"@ != "last_modified"@);
            assert("id"@ != "data"@);
            assert("id"@ != "permissions"@);
        }
        let mut data = match &self.data {
            Some(d) => d.clone(),
            None => JsonValue::new_object(),
        };
        data.set("id", JsonValue::Str(self.id.clone()));
        let perms = match &self.permissions {
            Some(p) => Some(p.to_json()),
            None => None,
        };
        let mut req = UpdateRecord::new(self.client.clone(), Paths::Bucket(self.id.as_str()).build());
        req.data(Some(data));
        req.permissions(perms);
        match req.send(server) {
            Ok(w) => {
                proof {
                    let m = old(server)@;
                    let d1 = jv_set(
                        or_empty_obj(old(self)@.data),
                        "id"@,
                        JsonModel::Str(old(self)@.id),
                    );
                    let bodym = req.prep().body;
                    assert(crate::server::data_of_body(bodym) == d1);
                    let st = crate::server::stored_put(bodym, m.clock);
                    assert(st.data == replaced_doc(old(self)@.data, old(self)@.id, m.clock));
                    assert(st.permissions == sent_perms(old(self)@.permissions));
                    assert(w@.json == envelope_of(st));
                    assert(env_data(w@.json) == Some(st.data));
                    assert(env_perms(w@.json) == Some(st.permissions));
                    assert(data_ts(st.data) == Some(m.clock));
                    assert(data_id(st.data) == Some(old(self)@.id));
                    assert(bucket_env_ok(w@.json, w@.path));
                }
                match self.unwrap_response(w) {
                    Ok(()) => Ok(()),
                    Err(e) => {
                        proof {
                            assert(false);
                        }
                        Err(e)
                    },
                }
            },
            Err(e) => Err(e),
        }
    }

    /// Deletes this bucket by its identifier. A missing bucket is a request
    /// error; on success the local value is stale and keeps its old fields,
    /// the server no longer holding the resource.
    pub fn delete(&mut self, server: &mut ServerState) -> (r: Result<(), KintoError>)
        requires
            srv_wf(old(server)@),
            old(server)@.clock < u64::MAX,
        ensures
            srv_wf(final(server)@),
            final(self)@ == old(self)@,
            final(server)@.clock == old(server)@.clock,
            (srv_lookup(old(server)@.entries, bucket_path(old(self)@.id)) is None ==> r == Err::<
                (),
                KintoError,
            >(KintoError::RequestError(404)) && final(server)@ == old(server)@),
            (srv_lookup(old(server)@.entries, bucket_path(old(self)@.id)) is Some ==> r is Ok
                && final(server)@.entries == srv_remove(
                old(server)@.entries,
                bucket_path(old(self)@.id),
            )),
    {
        let req = DeleteRecord::new(self.client.clone(), Paths::Bucket(self.id.as_str()).build());
        match req.send(server) {
            Ok(_) => Ok(()),
            Err(e) => Err(e),
        }
    }
}

} // verus!

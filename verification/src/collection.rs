//! Collections: named groups of records within a bucket.

use vstd::prelude::*;
use vstd::string::*;

use crate::bucket::{or_empty_obj, Bucket, BucketModel};
use crate::client::KintoClient;
use crate::error::KintoError;
use crate::json::{jv_get, jv_set, JsonModel, JsonValue};
use crate::paths::{collection_path, collections_path, records_path, spec_extract, Paths};
use crate::request::{
    CreateRecord, DeleteCollection, DeleteRecord, ETagMatch, GetCollection, GetRecord,
    KintoRequest, PayloadedEndpoint, UpdateRecord,
};
use crate::resource::{
    data_id, data_ts, env_data, env_perms, format_permissions, read_envelope, str_models,
    strings_to_json_array, strs_of, unwrap_collection_ids,
};
use crate::response::ResponseWrapper;
use crate::server::{
    empty_obj, envelope_of, srv_children, srv_lookup, srv_remove, srv_remove_descendants,
    srv_upsert, srv_wf, ServerModel, ServerState, StoredModel,
};

verus! {

broadcast use crate::json::lemma_obj_set_lookup;

/// The mathematical form of collection permissions.
pub struct CollectionPermsModel {
    pub read: Seq<Seq<char>>,
    pub write: Seq<Seq<char>>,
    pub create_record: Seq<Seq<char>>,
}

/// Who may read or write a collection, or create records in it.
#[derive(Debug)]
pub struct CollectionPermissions {
    pub read: Vec<String>,
    pub write: Vec<String>,
    pub create_record: Vec<String>,
}

impl View for CollectionPermissions {
    type V = CollectionPermsModel;

    open spec fn view(&self) -> CollectionPermsModel {
        CollectionPermsModel {
            read: self.read.deep_view(),
            write: self.write.deep_view(),
            create_record: self.create_record.deep_view(),
        }
    }
}

/// Collection permissions read out of their JSON form.
pub open spec fn cperm_of(j: JsonModel) -> CollectionPermsModel {
    CollectionPermsModel {
        read: strs_of(jv_get(j, "read"@)),
        write: strs_of(jv_get(j, "write"@)),
        create_record: strs_of(jv_get(j, "record:create"@)),
    }
}

/// The JSON form of collection permissions.
pub open spec fn cperm_json(m: CollectionPermsModel) -> JsonModel {
    jv_set(
        jv_set(
            jv_set(empty_obj(), "read"@, JsonModel::Array(str_models(m.read))),
            "write"@,
            JsonModel::Array(str_models(m.write)),
        ),
        "record:create"@,
        JsonModel::Array(str_models(m.create_record)),
    )
}

impl CollectionPermissions {
    /// Reads the kind-specific permission entries out of a JSON object.
    pub fn from_json(j: &JsonValue) -> (p: CollectionPermissions)
        ensures
            p@ == cperm_of(j.deep_view()),
    {
        CollectionPermissions {
            read: format_permissions(j.get("read")),
            write: format_permissions(j.get("write")),
            create_record: format_permissions(j.get("record:create")),
        }
    }

    /// The JSON object these permissions travel as.
    pub fn to_json(&self) -> (j: JsonValue)
        ensures
            j.deep_view() == cperm_json(self@),
    {
        let mut o = JsonValue::new_object();
        o.set("read", strings_to_json_array(&self.read));
        o.set("write", strings_to_json_array(&self.write));
        o.set("record:create", strings_to_json_array(&self.create_record));
        o
    }
}

/// The mathematical form of a collection resource.
pub struct CollectionModel {
    pub client: crate::client::ClientModel,
    pub bucket: BucketModel,
    pub id: Seq<char>,
    pub timestamp: Option<u64>,
    pub data: Option<JsonModel>,
    pub permissions: Option<CollectionPermsModel>,
}

/// A collection resource, positioned inside its bucket.
pub struct Collection {
    pub client: KintoClient,
    pub bucket: Bucket,
    pub id: String,
    pub timestamp: Option<u64>,
    pub data: Option<JsonValue>,
    pub permissions: Option<CollectionPermissions>,
}

impl View for Collection {
    type V = CollectionModel;

    open spec fn view(&self) -> CollectionModel {
        CollectionModel {
            client: self.client@,
            bucket: self.bucket@,
            id: self.id@,
            timestamp: self.timestamp,
            data: (match self.data {
                Some(ref d) => Some(d.deep_view()),
                None => None,
            }),
            permissions: (match self.permissions {
                Some(ref p) => Some(p@),
                None => None,
            }),
        }
    }
}

/// The permissions a collection write sends: the resource's own, or none.
pub open spec fn coll_sent_perms(p: Option<CollectionPermsModel>) -> JsonModel {
    match p {
        Some(pm) => cperm_json(pm),
        None => empty_obj(),
    }
}

/// The collection identifier an envelope yields: the one in the document, or
/// the one read back from the request path.
pub open spec fn coll_env_id(j: JsonModel, path: Seq<char>) -> Option<Seq<char>> {
    match env_data(j) {
        Some(d) => match data_id(d) {
            Some(s) => Some(s),
            None => spec_extract(path).collection,
        },
        None => None,
    }
}

/// The ancestor bucket identifier hydration recovers: the one the request
/// path names, or the one already known when the path names none.
pub open spec fn coll_env_bucket(path: Seq<char>, fallback: Seq<char>) -> Seq<char> {
    match spec_extract(path).bucket {
        Some(b) => b,
        None => fallback,
    }
}

/// Whether an envelope carries everything collection hydration needs.
pub open spec fn coll_env_ok(j: JsonModel, path: Seq<char>) -> bool {
    match env_data(j) {
        Some(d) => data_ts(d) is Some && coll_env_id(j, path) is Some,
        None => false,
    }
}

impl Collection {
    /// An in-memory collection inside `bucket` with the given identifier.
    pub fn new(client: KintoClient, bucket: Bucket, id: &str) -> (c: Collection)
        ensures
            c@ == (CollectionModel {
                client: client@,
                bucket: bucket@,
                id: id@,
                timestamp: None,
                data: None,
                permissions: None,
            }),
    {
        Collection {
            client,
            bucket,
            id: id.to_owned(),
            timestamp: None,
            data: None,
            permissions: None,
        }
    }

    /// Replaces this resource's fields from a response envelope, recovering
    /// the ancestor bucket from the request path.
    pub fn unwrap_response(&mut self, wrapper: ResponseWrapper) -> (r: Result<(), KintoError>)
        ensures
            r is Ok <==> coll_env_ok(wrapper@.json, wrapper@.path),
            r is Ok ==> final(self)@ == (CollectionModel {
                client: wrapper@.client,
                bucket: (BucketModel {
                    client: wrapper@.client,
                    id: coll_env_bucket(wrapper@.path, old(self)@.bucket.id),
                    timestamp: None,
                    data: None,
                    permissions: None,
                }),
                id: (match coll_env_id(wrapper@.json, wrapper@.path) {
                    Some(s) => s,
                    None => Seq::empty(),
                }),
                timestamp: (match env_data(wrapper@.json) {
                    Some(d) => data_ts(d),
                    None => None,
                }),
                data: env_data(wrapper@.json),
                permissions: Some(cperm_of(or_empty_obj(env_perms(wrapper@.json)))),
            }),
            r is Err ==> r == Err::<(), KintoError>(KintoError::MalformedResponse) && final(self)@
                == old(self)@,
    {
        let parts = match read_envelope(&wrapper) {
            Ok(parts) => parts,
            Err(e) => {
                return Err(KintoError::MalformedResponse);
            },
        };
        let ids = crate::paths::extract_ids_from_path(wrapper.path.as_str());
        let id = match parts.id {
            Some(s) => s,
            None => {
                match ids.collection {
                    Some(c) => c,
                    None => {
                        return Err(KintoError::MalformedResponse);
                    },
                }
            },
        };
        let bucket_id = match ids.bucket {
            Some(b) => b,
            None => self.bucket.id.clone(),
        };
        let perms_json = match parts.permissions {
            Some(p) => p,
            None => JsonValue::new_object(),
        };
        self.bucket = Bucket::new(wrapper.client.clone(), bucket_id.as_str());
        self.client = wrapper.client;
        self.id = id;
        self.timestamp = Some(parts.timestamp);
        self.data = Some(parts.data);
        self.permissions = Some(CollectionPermissions::from_json(&perms_json));
        Ok(())
    }

    /// Steps down to the record with the given identifier inside this
    /// collection; nothing is sent.
    pub fn record(self, id: &str) -> (rec: crate::record::Record)
        ensures
            rec@ == (crate::record::RecordModel {
                client: self@.client,
                collection: self@,
                id: id@,
                timestamp: None,
                data: None,
                permissions: None,
            }),
    {
        let client = self.client.clone();
        crate::record::Record::new(client, self, id)
    }

    /// Creates a new, empty record with a server-generated identifier.
    pub fn new_record(&mut self, server: &mut ServerState) -> (r: Result<
        crate::record::Record,
        KintoError,
    >)
        requires
            srv_wf(old(server)@),
            old(server)@.clock < u64::MAX,
        ensures
            srv_wf(final(server)@),
            final(self)@ == old(self)@,
            (srv_lookup(
                old(server)@.entries,
                crate::paths::child_path(
                    records_path(old(self)@.bucket.id, old(self)@.id),
                    crate::server::gen_id(old(server)@.clock),
                ),
            ) is Some ==> r == Err::<crate::record::Record, KintoError>(
                KintoError::RequestError(403),
            ) && final(server)@ == old(server)@),
            (srv_lookup(
                old(server)@.entries,
                crate::paths::child_path(
                    records_path(old(self)@.bucket.id, old(self)@.id),
                    crate::server::gen_id(old(server)@.clock),
                ),
            ) is None ==> (match r {
                Ok(rec) => final(server)@ == (ServerModel {
                    entries: srv_upsert(
                        old(server)@.entries,
                        crate::paths::child_path(
                            records_path(old(self)@.bucket.id, old(self)@.id),
                            crate::server::gen_id(old(server)@.clock),
                        ),
                        (StoredModel {
                            data: crate::bucket::replaced_doc(
                                None,
                                crate::server::gen_id(old(server)@.clock),
                                old(server)@.clock,
                            ),
                            permissions: empty_obj(),
                            timestamp: old(server)@.clock,
                        }),
                    ),
                    clock: (old(server)@.clock + 1) as u64,
                }) && rec@.id == crate::server::gen_id(old(server)@.clock) && rec@.timestamp
                    == Some(old(server)@.clock) && rec@.data == Some(
                    crate::bucket::replaced_doc(
                        None,
                        crate::server::gen_id(old(server)@.clock),
                        old(server)@.clock,
                    ),
                ),
                Err(_) => false,
            })),
    {
        proof {
            reveal_strlit("data");
            reveal_strlit("permissions");
            reveal_strlit("id");
            reveal_strlit("last_modified");
            assert("data"@.len() == 4);
            assert("permissions"@.len() == 11);
            assert("id"@.len() == 2);
            assert("last_modified"@.len() == 13);
            assert("id"@ != "last_modified"@);
        }
        let req = CreateRecord::new(
            self.client.clone(),
            Paths::Records(self.bucket.id.as_str(), self.id.as_str()).build(),
        );
        match req.send(server) {
            Ok(w) => {
                proof {
                    let m = old(server)@;
                    let gid = crate::server::gen_id(m.clock);
                    assert(crate::server::data_of_body(req.prep().body) == empty_obj());
                    assert(crate::server::created_id(req.prep().body, m.clock) == gid);
                    let st = crate::server::stored_post(req.prep().body, gid, m.clock);
                    assert(st.data == crate::bucket::replaced_doc(None, gid, m.clock));
                    assert(w@.json == envelope_of(st));
                    assert(env_data(w@.json) == Some(st.data));
                    assert(env_perms(w@.json) == Some(st.permissions));
                    assert(data_ts(st.data) == Some(m.clock));
                    assert(data_id(st.data) == Some(gid));
                }
                let placeholder_bucket = Bucket::new(self.client.clone(), self.bucket.id.as_str());
                let placeholder = Collection::new(
                    self.client.clone(),
                    placeholder_bucket,
                    self.id.as_str(),
                );
                let mut rec = crate::record::Record::new(self.client.clone(), placeholder, "");
                match rec.unwrap_response(w) {
                    Ok(()) => Ok(rec),
                    Err(e) => {
                        proof {
                            assert(false);
                        }
                        Err(e)
                    },
                }
            },
            Err(e) => Err(e),
        }
    }

    /// A custom list request for this collection's records.
    pub fn list_records_request(&mut self) -> (r: GetCollection)
        ensures
            final(self)@ == old(self)@,
            r.preparer@.client == old(self)@.client,
            r.preparer@.method == crate::request::Method::Get,
            r.preparer@.plural,
            r.preparer@.path == records_path(old(self)@.bucket.id, old(self)@.id),
            r.preparer@.body is None,
            r.preparer@.if_match is None,
            r.preparer@.if_none_match is None,
    {
        GetCollection::new(
            self.client.clone(),
            Paths::Records(self.bucket.id.as_str(), self.id.as_str()).build(),
        )
    }

    /// A custom delete request for this collection's records.
    pub fn delete_records_request(&mut self) -> (r: DeleteCollection)
        ensures
            final(self)@ == old(self)@,
            r.preparer@.client == old(self)@.client,
            r.preparer@.method == crate::request::Method::Delete,
            r.preparer@.plural,
            r.preparer@.path == records_path(old(self)@.bucket.id, old(self)@.id),
            r.preparer@.body is None,
            r.preparer@.if_match is None,
            r.preparer@.if_none_match is None,
    {
        DeleteCollection::new(
            self.client.clone(),
            Paths::Records(self.bucket.id.as_str(), self.id.as_str()).build(),
        )
    }

    /// A custom create request below this collection's record list.
    pub fn create_record_request(&mut self) -> (r: CreateRecord)
        ensures
            final(self)@ == old(self)@,
            r.preparer@.client == old(self)@.client,
            r.preparer@.method == crate::request::Method::Post,
            r.preparer@.plural,
            r.preparer@.path == records_path(old(self)@.bucket.id, old(self)@.id),
            r.preparer@.body is None,
            r.preparer@.if_match is None,
            r.preparer@.if_none_match is None,
    {
        CreateRecord::new(
            self.client.clone(),
            Paths::Records(self.bucket.id.as_str(), self.id.as_str()).build(),
        )
    }

    /// Lists the identifiers of this collection's records. The answer is one
    /// page; a very large collection may hold more members than one page
    /// shows.
    pub fn list_records(&mut self, server: &mut ServerState) -> (r: Result<Vec<String>, KintoError>)
        requires
            srv_wf(old(server)@),
            old(server)@.clock < u64::MAX,
        ensures
            final(server)@ == old(server)@,
            final(self)@ == old(self)@,
            srv_wf(final(server)@),
            (match r {
                Ok(ids) => ids.deep_view() == srv_children(
                    old(server)@.entries,
                    records_path(old(self)@.bucket.id, old(self)@.id),
                ),
                Err(_) => false,
            }),
    {
        let req = GetCollection::new(
            self.client.clone(),
            Paths::Records(self.bucket.id.as_str(), self.id.as_str()).build(),
        );
        match req.send(server) {
            Ok(w) => {
                let ids = unwrap_collection_ids(&w);
                proof {
                    crate::resource::lemma_ids_of_list_body(
                        srv_children(
                            old(server)@.entries,
                            records_path(old(self)@.bucket.id, old(self)@.id),
                        ),
                    );
                }
                Ok(ids)
            },
            Err(e) => Err(e),
        }
    }

    /// Deletes every record of this collection.
    pub fn delete_records(&mut self, server: &mut ServerState) -> (r: Result<(), KintoError>)
        requires
            srv_wf(old(server)@),
            old(server)@.clock < u64::MAX,
        ensures
            srv_wf(final(server)@),
            final(self)@ == old(self)@,
            final(server)@.entries == srv_remove_descendants(
                old(server)@.entries,
                records_path(old(self)@.bucket.id, old(self)@.id),
            ),
            final(server)@.clock == old(server)@.clock,
            r is Ok,
    {
        let req = DeleteCollection::new(
            self.client.clone(),
            Paths::Records(self.bucket.id.as_str(), self.id.as_str()).build(),
        );
        match req.send(server) {
            Ok(_) => Ok(()),
            Err(e) => Err(e),
        }
    }

    /// Creates this collection on the server below its bucket's collection
    /// list. Fails with a request error when the identifier is already
    /// taken; on success the fields are replaced from the answer.
    pub fn create(&mut self, server: &mut ServerState) -> (r: Result<(), KintoError>)
        requires
            srv_wf(old(server)@),
            old(server)@.clock < u64::MAX,
        ensures
            srv_wf(final(server)@),
            (srv_lookup(
                old(server)@.entries,
                collection_path(old(self)@.bucket.id, old(self)@.id),
            ) is Some ==> r == Err::<(), KintoError>(KintoError::RequestError(403)) && final(server)@ == old(server)@ && final(self)@ == old(self)@),
            (srv_lookup(
                old(server)@.entries,
                collection_path(old(self)@.bucket.id, old(self)@.id),
            ) is None ==> r is Ok && final(server)@ == (ServerModel {
                entries: srv_upsert(
                    old(server)@.entries,
                    collection_path(old(self)@.bucket.id, old(self)@.id),
                    (StoredModel {
                        data: crate::bucket::created_doc(
                            old(self)@.data,
                            old(self)@.id,
                            old(server)@.clock,
                        ),
                        permissions: coll_sent_perms(old(self)@.permissions),
                        timestamp: old(server)@.clock,
                    }),
                ),
                clock: (old(server)@.clock + 1) as u64,
            }) && final(self)@.id == old(self)@.id && final(self)@.timestamp == Some(
                old(server)@.clock,
            ) && final(self)@.data == Some(
                crate::bucket::created_doc(old(self)@.data, old(self)@.id, old(server)@.clock),
            ) && final(self)@.client == old(self)@.client && final(self)@.bucket.id
                == coll_env_bucket(
                collections_path(old(self)@.bucket.id),
                old(self)@.bucket.id,
            ) && final(self)@.permissions == Some(
                cperm_of(coll_sent_perms(old(self)@.permissions)),
            )),
    {
        proof {
            reveal_strlit("data");
            reveal_strlit("permissions");
            reveal_strlit("id");
            reveal_strlit("last_modified");
            assert("data"@.len() == 4);
            assert("permissions"@.len() == 11);
            assert("id"@.len() == 2);
            assert("last_modified"@.len() == 13);
            assert("data"@ != "permissions"@);
            assert("id"@ != "last_modified"@);
            assert("id"@ != "data"@);
            assert("id"@ != "permissions"@);
            crate::paths::lemma_child_of_collections(old(self)@.bucket.id, old(self)@.id);
        }
        let mut data = match &self.data {
            Some(d) => d.clone(),
            None => JsonValue::new_object(),
        };
        data.set("id", JsonValue::Str(self.id.clone()));
        let perms = match &self.permissions {
            Some(p) => Some(p.to_json()),
            None => None,
        };
        let mut req = CreateRecord::new(
            self.client.clone(),
            Paths::Collections(self.bucket.id.as_str()).build(),
        );
        req.data(Some(data));
        req.permissions(perms);
        match req.send(server) {
            Ok(w) => {
                proof {
                    let m = old(server)@;
                    let d1 = jv_set(
                        or_empty_obj(old(self)@.data),
                        "id"@,
                        JsonModel::Str(old(self)@.id),
                    );
                    let bodym = req.prep().body;
                    assert(crate::server::data_of_body(bodym) == d1);
                    assert(jv_get(d1, "id"@) == Some(JsonModel::Str(old(self)@.id)));
                    assert(crate::server::created_id(bodym, m.clock) == old(self)@.id);
                    let st = crate::server::stored_post(bodym, old(self)@.id, m.clock);
                    assert(st.data == crate::bucket::created_doc(
                        old(self)@.data,
                        old(self)@.id,
                        m.clock,
                    ));
                    assert(st.permissions == coll_sent_perms(old(self)@.permissions));
                    assert(w@.json == envelope_of(st));
                    assert(env_data(w@.json) == Some(st.data));
                    assert(env_perms(w@.json) == Some(st.permissions));
                    assert(data_ts(st.data) == Some(m.clock));
                    assert(data_id(st.data) == Some(old(self)@.id));
                    assert(coll_env_ok(w@.json, w@.path));
                }
                match self.unwrap_response(w) {
                    Ok(()) => Ok(()),
                    Err(e) => {
                        proof {
                            assert(false);
                        }
                        Err(e)
                    },
                }
            },
            Err(e) => Err(e),
        }
    }

    /// Loads this collection from the server by its identifier.
    pub fn load(&mut self, server: &mut ServerState) -> (r: Result<(), KintoError>)
        requires
            srv_wf(old(server)@),
            old(server)@.clock < u64::MAX,
        ensures
            srv_wf(final(server)@),
            final(server)@ == old(server)@,
            (match srv_lookup(
                old(server)@.entries,
                collection_path(old(self)@.bucket.id, old(self)@.id),
            ) {
                None => r == Err::<(), KintoError>(KintoError::RequestError(404)) && final(self)@
                    == old(self)@,
                Some(st) => {
                    if coll_env_ok(
                        envelope_of(st),
                        collection_path(old(self)@.bucket.id, old(self)@.id),
                    ) {
                        r is Ok && final(self)@.data == Some(st.data) && final(self)@.timestamp
                            == data_ts(st.data) && final(self)@.permissions == Some(
                            cperm_of(st.permissions),
                        ) && final(self)@.client == old(self)@.client
                    } else {
                        r == Err::<(), KintoError>(KintoError::MalformedResponse) && final(self)@
                            == old(self)@
                    }
                },
            }),
    {
        proof {
            reveal_strlit("data");
            reveal_strlit("permissions");
            assert("data"@.len() == 4);
            assert("permissions"@.len() == 11);
            assert("data"@ != "permissions"@);
        }
        let req = GetRecord::new(
            self.client.clone(),
            Paths::Collection(self.bucket.id.as_str(), self.id.as_str()).build(),
        );
        match req.send(server) {
            Ok(w) => self.unwrap_response(w),
            Err(e) => Err(e),
        }
    }

    /// Replaces this collection on the server, conditioned on the last known
    /// revision. A missing collection is a request error; a lost race is a
    /// failed precondition; on success the revision strictly increases.
    pub fn update(&mut self, server: &mut ServerState) -> (r: Result<(), KintoError>)
        requires
            srv_wf(old(server)@),
            old(server)@.clock < u64::MAX,
        ensures
            srv_wf(final(server)@),
            (srv_lookup(
                old(server)@.entries,
                collection_path(old(self)@.bucket.id, old(self)@.id),
            ) is None ==> r == Err::<(), KintoError>(KintoError::RequestError(404)) && final(server)@ == old(server)@ && final(self)@ == old(self)@),
            (match (srv_lookup(
                old(server)@.entries,
                collection_path(old(self)@.bucket.id, old(self)@.id),
            ), old(self)@.timestamp) {
                (Some(st), Some(t)) => st.timestamp != t ==> r == Err::<(), KintoError>(
                    KintoError::PreconditionFailed,
                ) && final(server)@ == old(server)@ && final(self)@ == old(self)@,
                _ => true,
            }),
            (match srv_lookup(
                old(server)@.entries,
                collection_path(old(self)@.bucket.id, old(self)@.id),
            ) {
                Some(st) => (match old(self)@.timestamp {
                    Some(t) => st.timestamp == t,
                    None => true,
                }) ==> r is Ok && final(server)@ == (ServerModel {
                    entries: srv_upsert(
                        old(server)@.entries,
                        collection_path(old(self)@.bucket.id, old(self)@.id),
                        (StoredModel {
                            data: crate::bucket::replaced_doc(
                                old(self)@.data,
                                old(self)@.id,
                                old(server)@.clock,
                            ),
                            permissions: coll_sent_perms(old(self)@.permissions),
                            timestamp: old(server)@.clock,
                        }),
                    ),
                    clock: (old(server)@.clock + 1) as u64,
                }) && final(self)@.timestamp == Some(old(server)@.clock),
                None => true,
            }),
            (r is Ok ==> (match (old(self)@.timestamp, final(self)@.timestamp) {
                (Some(t), Some(t2)) => t2 > t,
                (Some(_), None) => false,
                _ => true,
            })),
    {
        proof {
            reveal_strlit("data");
            reveal_strlit("permissions");
            reveal_strlit("id");
            reveal_strlit("last_modified");
            assert("data"@.len() == 4);
            assert("permissions"@.len() == 11);
            assert("id"@.len() == 2);
            assert("last_modified"@.len() == 13);
            assert("data"@ != "permissions"@);
            assert("id"@ != "last_modified"@);
            assert("id"@ != "data"@);
            assert("id"@ != "permissions"@);
            crate::server::lemma_srv_lookup_ts_bound(
                old(server)@,
                collection_path(old(self)@.bucket.id, old(self)@.id),
            );
        }
        let mut data = match &self.data {
            Some(d) => d.clone(),
            None => JsonValue::new_object(),
        };
        data.set("id", JsonValue::Str(self.id.clone()));
        let perms = match &self.permissions {
            Some(p) => Some(p.to_json()),
            None => None,
        };
        let mut req = UpdateRecord::new(
            self.client.clone(),
            Paths::Collection(self.bucket.id.as_str(), self.id.as_str()).build(),
        );
        req.data(Some(data));
        req.permissions(perms);
        match self.timestamp {
            Some(t) => req.if_match(ETagMatch::Token(t)),
            None => req.if_match(ETagMatch::Any),
        }
        match req.send(server) {
            Ok(w) => {
                proof {
                    let m = old(server)@;
                    let d1 = jv_set(
                        or_empty_obj(old(self)@.data),
                        "id"@,
                        JsonModel::Str(old(self)@.id),
                    );
                    let bodym = req.prep().body;
                    assert(crate::server::data_of_body(bodym) == d1);
                    let st = crate::server::stored_put(bodym, m.clock);
                    assert(st.data == crate::bucket::replaced_doc(
                        old(self)@.data,
                        old(self)@.id,
                        m.clock,
                    ));
                    assert(st.permissions == coll_sent_perms(old(self)@.permissions));
                    assert(w@.json == envelope_of(st));
                    assert(env_data(w@.json) == Some(st.data));
                    assert(env_perms(w@.json) == Some(st.permissions));
                    assert(data_ts(st.data) == Some(m.clock));
                    assert(data_id(st.data) == Some(old(self)@.id));
                    assert(coll_env_ok(w@.json, w@.path));
                }
                match self.unwrap_response(w) {
                    Ok(()) => Ok(()),
                    Err(e) => {
                        proof {
                            assert(false);
                        }
                        Err(e)
                    },
                }
            },
            Err(e) => Err(e),
        }
    }

    /// Creates or replaces this collection unconditionally.
    pub fn set(&mut self, server: &mut ServerState) -> (r: Result<(), KintoError>)
        requires
            srv_wf(old(server)@),
            old(server)@.clock < u64::MAX,
        ensures
            srv_wf(final(server)@),
            r is Ok,
            final(server)@ == (ServerModel {
                entries: srv_upsert(
                    old(server)@.entries,
                    collection_path(old(self)@.bucket.id, old(self)@.id),
                    (StoredModel {
                        data: crate::bucket::replaced_doc(
                            old(self)@.data,
                            old(self)@.id,
                            old(server)@.clock,
                        ),
                        permissions: coll_sent_perms(old(self)@.permissions),
                        timestamp: old(server)@.clock,
                    }),
                ),
                clock: (old(server)@.clock + 1) as u64,
            }),
            final(self)@.timestamp == Some(old(server)@.clock),
            final(self)@.data == Some(
                crate::bucket::replaced_doc(old(self)@.data, old(self)@.id, old(server)@.clock),
            ),
            final(self)@.id == old(self)@.id,
            final(self)@.client == old(self)@.client,
    {
        proof {
            reveal_strlit("data");
            reveal_strlit("permissions");
            reveal_strlit("id");
            reveal_strlit("last_modified");
            assert("data"@.len() == 4);
            assert("permissions"@.len() == 11);
            assert("id"@.len() == 2);
            assert("last_modified"@.len() == 13);
            assert("data"@ != "permissions"@);
            assert("id"@ != "last_modified"@);
            assert("id"@ != "data"@);
            assert("id"@ != "permissions"@);
        }
        let mut data = match &self.data {
            Some(d) => d.clone(),
            None => JsonValue::new_object(),
        };
        data.set("id", JsonValue::Str(self.id.clone()));
        let perms = match &self.permissions {
            Some(p) => Some(p.to_json()),
            None => None,
        };
        let mut req = UpdateRecord::new(
            self.client.clone(),
            Paths::Collection(self.bucket.id.as_str(), self.id.as_str()).build(),
        );
        req.data(Some(data));
        req.permissions(perms);
        match req.send(server) {
            Ok(w) => {
                proof {
                    let m = old(server)@;
                    let d1 = jv_set(
                        or_empty_obj(old(self)@.data),
                        "id"@,
                        JsonModel::Str(old(self)@.id),
                    );
                    let bodym = req.prep().body;
                    assert(crate::server::data_of_body(bodym) == d1);
                    let st = crate::server::stored_put(bodym, m.clock);
                    assert(st.data == crate::bucket::replaced_doc(
                        old(self)@.data,
                        old(self)@.id,
                        m.clock,
                    ));
                    assert(st.permissions == coll_sent_perms(old(self)@.permissions));
                    assert(w@.json == envelope_of(st));
                    assert(env_data(w@.json) == Some(st.data));
                    assert(env_perms(w@.json) == Some(st.permissions));
                    assert(data_ts(st.data) == Some(m.clock));
                    assert(data_id(st.data) == Some(old(self)@.id));
                    assert(coll_env_ok(w@.json, w@.path));
                }
                match self.unwrap_response(w) {
                    Ok(()) => Ok(()),
                    Err(e) => {
                        proof {
                            assert(false);
                        }
                        Err(e)
                    },
                }
            },
            Err(e) => Err(e),
        }
    }

    /// Deletes this collection by its identifier.
    pub fn delete(&mut self, server: &mut ServerState) -> (r: Result<(), KintoError>)
        requires
            srv_wf(old(server)@),
            old(server)@.clock < u64::MAX,
        ensures
            srv_wf(final(server)@),
            final(self)@ == old(self)@,
            final(server)@.clock == old(server)@.clock,
            (srv_lookup(
                old(server)@.entries,
                collection_path(old(self)@.bucket.id, old(self)@.id),
            ) is None ==> r == Err::<(), KintoError>(KintoError::RequestError(404)) && final(server)@ == old(server)@),
            (srv_lookup(
                old(server)@.entries,
                collection_path(old(self)@.bucket.id, old(self)@.id),
            ) is Some ==> r is Ok && final(server)@.entries == srv_remove(
                old(server)@.entries,
                collection_path(old(self)@.bucket.id, old(self)@.id),
            )),
    {
        let req = DeleteRecord::new(
            self.client.clone(),
            Paths::Collection(self.bucket.id.as_str(), self.id.as_str()).build(),
        );
        match req.send(server) {
            Ok(_) => Ok(()),
            Err(e) => Err(e),
        }
    }
}

} // verus!

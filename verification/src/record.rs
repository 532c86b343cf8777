//! Records: single JSON documents within a collection.

use vstd::prelude::*;
use vstd::string::*;

use crate::bucket::{or_empty_obj, replaced_doc, Bucket};
use crate::client::KintoClient;
use crate::collection::{Collection, CollectionModel};
use crate::error::KintoError;
use crate::json::{jv_get, jv_set, JsonModel, JsonValue};
use crate::paths::{record_path, spec_extract, Paths};
use crate::request::{
    CreateRecord, DeleteRecord, ETagMatch, GetRecord, KintoRequest, PayloadedEndpoint,
    UpdateRecord,
};
use crate::resource::{
    data_id, data_ts, env_data, env_perms, format_permissions, read_envelope, str_models,
    strings_to_json_array, strs_of,
};
use crate::response::ResponseWrapper;
use crate::server::{
    empty_obj, envelope_of, srv_lookup, srv_remove, srv_upsert, srv_wf, ServerModel,
    ServerState, StoredModel,
};

verus! {

broadcast use crate::json::lemma_obj_set_lookup;

/// The mathematical form of record permissions.
pub struct RecordPermsModel {
    pub read: Option<Seq<Seq<char>>>,
    pub write: Option<Seq<Seq<char>>>,
}

/// Who may read or write a record; each entry only travels when present.
#[derive(Debug)]
pub struct RecordPermissions {
    pub read: Option<Vec<String>>,
    pub write: Option<Vec<String>>,
}

impl View for RecordPermissions {
    type V = RecordPermsModel;

    open spec fn view(&self) -> RecordPermsModel {
        RecordPermsModel {
            read: (match self.read {
                Some(ref v) => Some(v.deep_view()),
                None => None,
            }),
            write: (match self.write {
                Some(ref v) => Some(v.deep_view()),
                None => None,
            }),
        }
    }
}

/// Record permissions read out of their JSON form: an entry is present
/// exactly when its key is.
pub open spec fn rperm_of(j: JsonModel) -> RecordPermsModel {
    RecordPermsModel {
        read: (match jv_get(j, "read"@) {
            Some(v) => Some(strs_of(Some(v))),
            None => None,
        }),
        write: (match jv_get(j, "write"@) {
            Some(v) => Some(strs_of(Some(v))),
            None => None,
        }),
    }
}

/// One optional permission entry written into a JSON object.
pub open spec fn set_opt_strs(o: JsonModel, key: Seq<char>, v: Option<Seq<Seq<char>>>) -> JsonModel {
    match v {
        Some(ids) => jv_set(o, key, JsonModel::Array(str_models(ids))),
        None => o,
    }
}

/// The JSON form of record permissions.
pub open spec fn rperm_json(m: RecordPermsModel) -> JsonModel {
    set_opt_strs(set_opt_strs(empty_obj(), "read"@, m.read), "write"@, m.write)
}

impl Default for RecordPermissions {
    /// Permissions naming nobody: nothing travels.
    fn default() -> (p: RecordPermissions)
        ensures
            p@ == (RecordPermsModel { read: None, write: None }),
    {
        RecordPermissions { read: None, write: None }
    }
}

impl RecordPermissions {
    /// Reads the kind-specific permission entries out of a JSON object.
    pub fn from_json(j: &JsonValue) -> (p: RecordPermissions)
        ensures
            p@ == rperm_of(j.deep_view()),
    {
        let read = match j.get("read") {
            Some(v) => Some(format_permissions(Some(v))),
            None => None,
        };
        let write = match j.get("write") {
            Some(v) => Some(format_permissions(Some(v))),
            None => None,
        };
        RecordPermissions { read, write }
    }

    /// The JSON object these permissions travel as.
    pub fn to_json(&self) -> (j: JsonValue)
        ensures
            j.deep_view() == rperm_json(self@),
    {
        let mut o = JsonValue::new_object();
        match &self.read {
            Some(v) => o.set("read", strings_to_json_array(v)),
            None => {},
        }
        match &self.write {
            Some(v) => o.set("write", strings_to_json_array(v)),
            None => {},
        }
        o
    }
}

/// The mathematical form of a record resource.
pub struct RecordModel {
    pub client: crate::client::ClientModel,
    pub collection: CollectionModel,
    pub id: Seq<char>,
    pub timestamp: Option<u64>,
    pub data: Option<JsonModel>,
    pub permissions: Option<RecordPermsModel>,
}

/// A record resource, positioned inside its collection.
pub struct Record {
    pub client: KintoClient,
    pub collection: Collection,
    pub id: String,
    pub timestamp: Option<u64>,
    pub data: Option<JsonValue>,
    pub permissions: Option<RecordPermissions>,
}

impl View for Record {
    type V = RecordModel;

    open spec fn view(&self) -> RecordModel {
        RecordModel {
            client: self.client@,
            collection: self.collection@,
            id: self.id@,
            timestamp: self.timestamp,
            data: (match self.data {
                Some(ref d) => Some(d.deep_view()),
                None => None,
            }),
            permissions: (match self.permissions {
                Some(ref p) => Some(p@),
                None => None,
            }),
        }
    }
}

/// The permissions a record write sends: the resource's own, or none.
pub open spec fn rec_sent_perms(p: Option<RecordPermsModel>) -> JsonModel {
    match p {
        Some(pm) => rperm_json(pm),
        None => empty_obj(),
    }
}

/// The record identifier an envelope yields.
pub open spec fn rec_env_id(j: JsonModel, path: Seq<char>) -> Option<Seq<char>> {
    match env_data(j) {
        Some(d) => match data_id(d) {
            Some(s) => Some(s),
            None => spec_extract(path).record,
        },
        None => None,
    }
}

/// An ancestor identifier hydration recovers: the one the request path
/// names, or the one already known.
pub open spec fn rec_env_ancestor(anc: Option<Seq<char>>, fallback: Seq<char>) -> Seq<char> {
    match anc {
        Some(b) => b,
        None => fallback,
    }
}

/// Whether an envelope carries everything record hydration needs.
pub open spec fn rec_env_ok(j: JsonModel, path: Seq<char>) -> bool {
    match env_data(j) {
        Some(d) => data_ts(d) is Some && rec_env_id(j, path) is Some,
        None => false,
    }
}

impl Record {
    /// An in-memory record inside `collection` with the given identifier.
    pub fn new(client: KintoClient, collection: Collection, id: &str) -> (rec: Record)
        ensures
            rec@ == (RecordModel {
                client: client@,
                collection: collection@,
                id: id@,
                timestamp: None,
                data: None,
                permissions: None,
            }),
    {
        Record {
            client,
            collection,
            id: id.to_owned(),
            timestamp: None,
            data: None,
            permissions: None,
        }
    }

    /// An in-memory record with a chosen identifier, taking its client from
    /// the collection.
    pub fn new_by_id(collection: Collection, id: &str) -> (rec: Record)
        ensures
            rec@ == (RecordModel {
                client: collection@.client,
                collection: collection@,
                id: id@,
                timestamp: None,
                data: None,
                permissions: None,
            }),
    {
        let client = collection.client.clone();
        Record {
            client,
            collection,
            id: id.to_owned(),
            timestamp: None,
            data: None,
            permissions: None,
        }
    }

    /// Replaces this resource's fields from a response envelope, recovering
    /// the ancestor identifiers from the request path.
    pub fn unwrap_response(&mut self, wrapper: ResponseWrapper) -> (r: Result<(), KintoError>)
        ensures
            r is Ok <==> rec_env_ok(wrapper@.json, wrapper@.path),
            r is Ok ==> final(self)@.client == wrapper@.client && final(self)@.collection.id
                == rec_env_ancestor(
                spec_extract(wrapper@.path).collection,
                old(self)@.collection.id,
            ) && final(self)@.collection.bucket.id == rec_env_ancestor(
                spec_extract(wrapper@.path).bucket,
                old(self)@.collection.bucket.id,
            ) && final(self)@.id == (match rec_env_id(wrapper@.json, wrapper@.path) {
                Some(s) => s,
                None => Seq::empty(),
            }) && final(self)@.timestamp == (match env_data(wrapper@.json) {
                Some(d) => data_ts(d),
                None => None,
            }) && final(self)@.data == env_data(wrapper@.json) && final(self)@.permissions
                == Some(rperm_of(or_empty_obj(env_perms(wrapper@.json)))),
            r is Err ==> r == Err::<(), KintoError>(KintoError::MalformedResponse) && final(self)@
                == old(self)@,
    {
        let parts = match read_envelope(&wrapper) {
            Ok(parts) => parts,
            Err(e) => {
                return Err(KintoError::MalformedResponse);
            },
        };
        let ids = crate::paths::extract_ids_from_path(wrapper.path.as_str());
        let id = match parts.id {
            Some(s) => s,
            None => {
                match ids.record {
                    Some(rid) => rid,
                    None => {
                        return Err(KintoError::MalformedResponse);
                    },
                }
            },
        };
        let bucket_id = match ids.bucket {
            Some(b) => b,
            None => self.collection.bucket.id.clone(),
        };
        let collection_id = match ids.collection {
            Some(c) => c,
            None => self.collection.id.clone(),
        };
        let perms_json = match parts.permissions {
            Some(p) => p,
            None => JsonValue::new_object(),
        };
        let bucket = Bucket::new(wrapper.client.clone(), bucket_id.as_str());
        self.collection = Collection::new(wrapper.client.clone(), bucket, collection_id.as_str());
        self.client = wrapper.client;
        self.id = id;
        self.timestamp = Some(parts.timestamp);
        self.data = Some(parts.data);
        self.permissions = Some(RecordPermissions::from_json(&perms_json));
        Ok(())
    }

    /// Creates this record on the server below its collection's record list.
    /// Fails with a request error when the identifier is already taken; on
    /// success the fields are replaced from the answer.
    pub fn create(&mut self, server: &mut ServerState) -> (r: Result<(), KintoError>)
        requires
            srv_wf(old(server)@),
            old(server)@.clock < u64::MAX,
        ensures
            srv_wf(final(server)@),
            (srv_lookup(
                old(server)@.entries,
                record_path(
                    old(self)@.collection.bucket.id,
                    old(self)@.collection.id,
                    old(self)@.id,
                ),
            ) is Some ==> r == Err::<(), KintoError>(KintoError::RequestError(403)) && final(server)@ == old(server)@ && final(self)@ == old(self)@),
            (srv_lookup(
                old(server)@.entries,
                record_path(
                    old(self)@.collection.bucket.id,
                    old(self)@.collection.id,
                    old(self)@.id,
                ),
            ) is None ==> r is Ok && final(server)@ == (ServerModel {
                entries: srv_upsert(
                    old(server)@.entries,
                    record_path(
                        old(self)@.collection.bucket.id,
                        old(self)@.collection.id,
                        old(self)@.id,
                    ),
                    (StoredModel {
                        data: crate::bucket::created_doc(
                            old(self)@.data,
                            old(self)@.id,
                            old(server)@.clock,
                        ),
                        permissions: rec_sent_perms(old(self)@.permissions),
                        timestamp: old(server)@.clock,
                    }),
                ),
                clock: (old(server)@.clock + 1) as u64,
            }) && final(self)@.id == old(self)@.id && final(self)@.timestamp == Some(
                old(server)@.clock,
            ) && final(self)@.data == Some(
                crate::bucket::created_doc(old(self)@.data, old(self)@.id, old(server)@.clock),
            ) && final(self)@.client == old(self)@.client && final(self)@.permissions == Some(
                rperm_of(rec_sent_perms(old(self)@.permissions)),
            )),
    {
        proof {
            reveal_strlit("data");
            reveal_strlit("permissions");
            reveal_strlit("id");
            reveal_strlit("last_modified");
            assert("data"@.len() == 4);
            assert("permissions"@.len() == 11);
            assert("id"@.len() == 2);
            assert("last_modified"@.len() == 13);
            assert("data"@ != "permissions"@);
            assert("id"@ != "last_modified"@);
            assert("id"@ != "data"@);
            assert("id"@ != "permissions"@);
            crate::paths::lemma_child_of_records(
                old(self)@.collection.bucket.id,
                old(self)@.collection.id,
                old(self)@.id,
            );
        }
        let mut data = match &self.data {
            Some(d) => d.clone(),
            None => JsonValue::new_object(),
        };
        data.set("id", JsonValue::Str(self.id.clone()));
        let perms = match &self.permissions {
            Some(p) => Some(p.to_json()),
            None => None,
        };
        let mut req = CreateRecord::new(
            self.client.clone(),
            Paths::Records(
                self.collection.bucket.id.as_str(),
                self.collection.id.as_str(),
            ).build(),
        );
        req.data(Some(data));
        req.permissions(perms);
        match req.send(server) {
            Ok(w) => {
                proof {
                    let m = old(server)@;
                    let d1 = jv_set(
                        or_empty_obj(old(self)@.data),
                        "id"@,
                        JsonModel::Str(old(self)@.id),
                    );
                    let bodym = req.prep().body;
                    assert(crate::server::data_of_body(bodym) == d1);
                    assert(jv_get(d1, "id"@) == Some(JsonModel::Str(old(self)@.id)));
                    assert(crate::server::created_id(bodym, m.clock) == old(self)@.id);
                    let st = crate::server::stored_post(bodym, old(self)@.id, m.clock);
                    assert(st.data == crate::bucket::created_doc(
                        old(self)@.data,
                        old(self)@.id,
                        m.clock,
                    ));
                    assert(st.permissions == rec_sent_perms(old(self)@.permissions));
                    assert(w@.json == envelope_of(st));
                    assert(env_data(w@.json) == Some(st.data));
                    assert(env_perms(w@.json) == Some(st.permissions));
                    assert(data_ts(st.data) == Some(m.clock));
                    assert(data_id(st.data) == Some(old(self)@.id));
                    assert(rec_env_ok(w@.json, w@.path));
                }
                match self.unwrap_response(w) {
                    Ok(()) => Ok(()),
                    Err(e) => {
                        proof {
                            assert(false);
                        }
                        Err(e)
                    },
                }
            },
            Err(e) => Err(e),
        }
    }

    /// Loads this record from the server by its identifier.
    pub fn load(&mut self, server: &mut ServerState) -> (r: Result<(), KintoError>)
        requires
            srv_wf(old(server)@),
            old(server)@.clock < u64::MAX,
        ensures
            srv_wf(final(server)@),
            final(server)@ == old(server)@,
            (match srv_lookup(
                old(server)@.entries,
                record_path(
                    old(self)@.collection.bucket.id,
                    old(self)@.collection.id,
                    old(self)@.id,
                ),
            ) {
                None => r == Err::<(), KintoError>(KintoError::RequestError(404)) && final(self)@
                    == old(self)@,
                Some(st) => {
                    if rec_env_ok(
                        envelope_of(st),
                        record_path(
                            old(self)@.collection.bucket.id,
                            old(self)@.collection.id,
                            old(self)@.id,
                        ),
                    ) {
                        r is Ok && final(self)@.data == Some(st.data) && final(self)@.timestamp
                            == data_ts(st.data) && final(self)@.permissions == Some(
                            rperm_of(st.permissions),
                        ) && final(self)@.client == old(self)@.client
                    } else {
                        r == Err::<(), KintoError>(KintoError::MalformedResponse) && final(self)@
                            == old(self)@
                    }
                },
            }),
    {
        proof {
            reveal_strlit("data");
            reveal_strlit("permissions");
            assert("data"@.len() == 4);
            assert("permissions"@.len() == 11);
            assert("data"@ != "permissions"@);
        }
        let req = GetRecord::new(
            self.client.clone(),
            Paths::Record(
                self.collection.bucket.id.as_str(),
                self.collection.id.as_str(),
                self.id.as_str(),
            ).build(),
        );
        match req.send(server) {
            Ok(w) => self.unwrap_response(w),
            Err(e) => Err(e),
        }
    }

    /// Replaces this record on the server, conditioned on the last known
    /// revision. A missing record is a request error; a lost race is a
    /// failed precondition; on success the revision strictly increases.
    pub fn update(&mut self, server: &mut ServerState) -> (r: Result<(), KintoError>)
        requires
            srv_wf(old(server)@),
            old(server)@.clock < u64::MAX,
        ensures
            srv_wf(final(server)@),
            (srv_lookup(
                old(server)@.entries,
                record_path(
                    old(self)@.collection.bucket.id,
                    old(self)@.collection.id,
                    old(self)@.id,
                ),
            ) is None ==> r == Err::<(), KintoError>(KintoError::RequestError(404)) && final(server)@ == old(server)@ && final(self)@ == old(self)@),
            (match (srv_lookup(
                old(server)@.entries,
                record_path(
                    old(self)@.collection.bucket.id,
                    old(self)@.collection.id,
                    old(self)@.id,
                ),
            ), old(self)@.timestamp) {
                (Some(st), Some(t)) => st.timestamp != t ==> r == Err::<(), KintoError>(
                    KintoError::PreconditionFailed,
                ) && final(server)@ == old(server)@ && final(self)@ == old(self)@,
                _ => true,
            }),
            (match srv_lookup(
                old(server)@.entries,
                record_path(
                    old(self)@.collection.bucket.id,
                    old(self)@.collection.id,
                    old(self)@.id,
                ),
            ) {
                Some(st) => (match old(self)@.timestamp {
                    Some(t) => st.timestamp == t,
                    None => true,
                }) ==> r is Ok && final(server)@ == (ServerModel {
                    entries: srv_upsert(
                        old(server)@.entries,
                        record_path(
                            old(self)@.collection.bucket.id,
                            old(self)@.collection.id,
                            old(self)@.id,
                        ),
                        (StoredModel {
                            data: replaced_doc(
                                old(self)@.data,
                                old(self)@.id,
                                old(server)@.clock,
                            ),
                            permissions: rec_sent_perms(old(self)@.permissions),
                            timestamp: old(server)@.clock,
                        }),
                    ),
                    clock: (old(server)@.clock + 1) as u64,
                }) && final(self)@.timestamp == Some(old(server)@.clock),
                None => true,
            }),
            (r is Ok ==> (match (old(self)@.timestamp, final(self)@.timestamp) {
                (Some(t), Some(t2)) => t2 > t,
                (Some(_), None) => false,
                _ => true,
            })),
    {
        proof {
            reveal_strlit("data");
            reveal_strlit("permissions");
            reveal_strlit("id");
            reveal_strlit("last_modified");
            assert("data"@.len() == 4);
            assert("permissions"@.len() == 11);
            assert("id"@.len() == 2);
            assert("last_modified"@.len() == 13);
            assert("data"@ != "permissions"@);
            assert("id"@ != "last_modified"@);
            assert("id"@ != "data"@);
            assert("id"@ != "permissions"@);
            crate::server::lemma_srv_lookup_ts_bound(
                old(server)@,
                record_path(
                    old(self)@.collection.bucket.id,
                    old(self)@.collection.id,
                    old(self)@.id,
                ),
            );
        }
        let mut data = match &self.data {
            Some(d) => d.clone(),
            None => JsonValue::new_object(),
        };
        data.set("id", JsonValue::Str(self.id.clone()));
        let perms = match &self.permissions {
            Some(p) => Some(p.to_json()),
            None => None,
        };
        let mut req = UpdateRecord::new(
            self.client.clone(),
            Paths::Record(
                self.collection.bucket.id.as_str(),
                self.collection.id.as_str(),
                self.id.as_str(),
            ).build(),
        );
        req.data(Some(data));
        req.permissions(perms);
        match self.timestamp {
            Some(t) => req.if_match(ETagMatch::Token(t)),
            None => req.if_match(ETagMatch::Any),
        }
        match req.send(server) {
            Ok(w) => {
                proof {
                    let m = old(server)@;
                    let d1 = jv_set(
                        or_empty_obj(old(self)@.data),
                        "id"@,
                        JsonModel::Str(old(self)@.id),
                    );
                    let bodym = req.prep().body;
                    assert(crate::server::data_of_body(bodym) == d1);
                    let st = crate::server::stored_put(bodym, m.clock);
                    assert(st.data == replaced_doc(old(self)@.data, old(self)@.id, m.clock));
                    assert(st.permissions == rec_sent_perms(old(self)@.permissions));
                    assert(w@.json == envelope_of(st));
                    assert(env_data(w@.json) == Some(st.data));
                    assert(env_perms(w@.json) == Some(st.permissions));
                    assert(data_ts(st.data) == Some(m.clock));
                    assert(data_id(st.data) == Some(old(self)@.id));
                    assert(rec_env_ok(w@.json, w@.path));
                }
                match self.unwrap_response(w) {
                    Ok(()) => Ok(()),
                    Err(e) => {
                        proof {
                            assert(false);
                        }
                        Err(e)
                    },
                }
            },
            Err(e) => Err(e),
        }
    }

    /// Creates or replaces this record unconditionally.
    pub fn set(&mut self, server: &mut ServerState) -> (r: Result<(), KintoError>)
        requires
            srv_wf(old(server)@),
            old(server)@.clock < u64::MAX,
        ensures
            srv_wf(final(server)@),
            r is Ok,
            final(server)@ == (ServerModel {
                entries: srv_upsert(
                    old(server)@.entries,
                    record_path(
                        old(self)@.collection.bucket.id,
                        old(self)@.collection.id,
                        old(self)@.id,
                    ),
                    (StoredModel {
                        data: replaced_doc(old(self)@.data, old(self)@.id, old(server)@.clock),
                        permissions: rec_sent_perms(old(self)@.permissions),
                        timestamp: old(server)@.clock,
                    }),
                ),
                clock: (old(server)@.clock + 1) as u64,
            }),
            final(self)@.timestamp == Some(old(server)@.clock),
            final(self)@.data == Some(
                replaced_doc(old(self)@.data, old(self)@.id, old(server)@.clock),
            ),
            final(self)@.id == old(self)@.id,
            final(self)@.client == old(self)@.client,
    {
        proof {
            reveal_strlit("data");
            reveal_strlit("permissions");
            reveal_strlit("id");
            reveal_strlit("last_modified");
            assert("data"@.len() == 4);
            assert("permissions"@.len() == 11);
            assert("id"@.len() == 2);
            assert("last_modified"@.len() == 13);
            assert("data"@ != "permissions"@);
            assert("id"@ != "last_modified"@);
            assert("id"@ != "data"@);
            assert("id"@ != "permissions"@);
        }
        let mut data = match &self.data {
            Some(d) => d.clone(),
            None => JsonValue::new_object(),
        };
        data.set("id", JsonValue::Str(self.id.clone()));
        let perms = match &self.permissions {
            Some(p) => Some(p.to_json()),
            None => None,
        };
        let mut req = UpdateRecord::new(
            self.client.clone(),
            Paths::Record(
                self.collection.bucket.id.as_str(),
                self.collection.id.as_str(),
                self.id.as_str(),
            ).build(),
        );
        req.data(Some(data));
        req.permissions(perms);
        match req.send(server) {
            Ok(w) => {
                proof {
                    let m = old(server)@;
                    let d1 = jv_set(
                        or_empty_obj(old(self)@.data),
                        "id"@,
                        JsonModel::Str(old(self)@.id),
                    );
                    let bodym = req.prep().body;
                    assert(crate::server::data_of_body(bodym) == d1);
                    let st = crate::server::stored_put(bodym, m.clock);
                    assert(st.data == replaced_doc(old(self)@.data, old(self)@.id, m.clock));
                    assert(st.permissions == rec_sent_perms(old(self)@.permissions));
                    assert(w@.json == envelope_of(st));
                    assert(env_data(w@.json) == Some(st.data));
                    assert(env_perms(w@.json) == Some(st.permissions));
                    assert(data_ts(st.data) == Some(m.clock));
                    assert(data_id(st.data) == Some(old(self)@.id));
                    assert(rec_env_ok(w@.json, w@.path));
                }
                match self.unwrap_response(w) {
                    Ok(()) => Ok(()),
                    Err(e) => {
                        proof {
                            assert(false);
                        }
                        Err(e)
                    },
                }
            },
            Err(e) => Err(e),
        }
    }

    /// Deletes this record by its identifier.
    pub fn delete(&mut self, server: &mut ServerState) -> (r: Result<(), KintoError>)
        requires
            srv_wf(old(server)@),
            old(server)@.clock < u64::MAX,
        ensures
            srv_wf(final(server)@),
            final(self)@ == old(self)@,
            final(server)@.clock == old(server)@.clock,
            (srv_lookup(
                old(server)@.entries,
                record_path(
                    old(self)@.collection.bucket.id,
                    old(self)@.collection.id,
                    old(self)@.id,
                ),
            ) is None ==> r == Err::<(), KintoError>(KintoError::RequestError(404)) && final(server)@ == old(server)@),
            (srv_lookup(
                old(server)@.entries,
                record_path(
                    old(self)@.collection.bucket.id,
                    old(self)@.collection.id,
                    old(self)@.id,
                ),
            ) is Some ==> r is Ok && final(server)@.entries == srv_remove(
                old(server)@.entries,
                record_path(
                    old(self)@.collection.bucket.id,
                    old(self)@.collection.id,
                    old(self)@.id,
                ),
            )),
    {
        let req = DeleteRecord::new(
            self.client.clone(),
            Paths::Record(
                self.collection.bucket.id.as_str(),
                self.collection.id.as_str(),
                self.id.as_str(),
            ).build(),
        );
        match req.send(server) {
            Ok(_) => Ok(()),
            Err(e) => Err(e),
        }
    }
}

} // verus!

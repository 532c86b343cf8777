//! The client handle: where the server lives and how to authenticate.

use vstd::prelude::*;
use vstd::string::*;

use crate::bucket::Bucket;
use crate::error::KintoError;
use crate::paths::{buckets_path, Paths};
use crate::request::{DeleteCollection, GetCollection, KintoRequest};
use crate::resource::unwrap_collection_ids;
use crate::server::{srv_children, srv_remove_descendants, srv_wf, ServerState};

verus! {

/// The mathematical form of a client handle.
pub struct ClientModel {
    pub server_url: Seq<char>,
    pub auth: Option<Seq<char>>,
}

/// Immutable configuration: the base URL of the server and one opaque
/// authentication header value, attached to every request at dispatch and
/// never interpreted by the core.
#[derive(Debug)]
pub struct KintoClient {
    pub server_url: String,
    pub auth: Option<String>,
}

impl View for KintoClient {
    type V = ClientModel;

    open spec fn view(&self) -> ClientModel {
        ClientModel {
            server_url: self.server_url@,
            auth: (match self.auth {
                Some(ref a) => Some(a@),
                None => None,
            }),
        }
    }
}

impl Clone for KintoClient {
    fn clone(&self) -> (r: Self)
        ensures
            r@ == self@,
    {
        KintoClient {
            server_url: self.server_url.clone(),
            auth: (match &self.auth {
                Some(a) => Some(a.clone()),
                None => None,
            }),
        }
    }
}

impl KintoClient {
    /// A handle for the server at `server_url`, with an optional opaque
    /// authentication header value.
    pub fn new(server_url: &str, auth: Option<String>) -> (c: KintoClient)
        ensures
            c@.server_url == server_url@,
            c@.auth == (match auth {
                Some(a) => Some(a@),
                None => None::<Seq<char>>,
            }),
    {
        KintoClient { server_url: server_url.to_owned(), auth }
    }

    /// An in-memory bucket resource with the given identifier; nothing is
    /// sent until one of its operations runs.
    pub fn bucket(&self, id: &str) -> (b: Bucket)
        ensures
            b.client@ == self@,
            b.id@ == id@,
            b.timestamp is None,
            b.data is None,
            b.permissions is None,
    {
        Bucket::new(self.clone(), id)
    }

    /// Lists the identifiers of every bucket. The answer is one page; a very
    /// large namespace may hold more members than one page shows.
    pub fn list_buckets(&self, server: &mut ServerState) -> (r: Result<Vec<String>, KintoError>)
        requires
            srv_wf(old(server)@),
            old(server)@.clock < u64::MAX,
        ensures
            final(server)@ == old(server)@,
            srv_wf(final(server)@),
            (match r {
                Ok(ids) => ids.deep_view() == srv_children(old(server)@.entries, buckets_path()),
                Err(_) => false,
            }),
    {
        let req = GetCollection::new(self.clone(), Paths::Buckets.build());
        match req.send(server) {
            Ok(w) => {
                let ids = unwrap_collection_ids(&w);
                proof {
                    crate::resource::lemma_ids_of_list_body(
                        srv_children(old(server)@.entries, buckets_path()),
                    );
                }
                Ok(ids)
            },
            Err(e) => Err(e),
        }
    }

    /// Deletes every bucket.
    pub fn delete_buckets(&self, server: &mut ServerState) -> (r: Result<(), KintoError>)
        requires
            srv_wf(old(server)@),
            old(server)@.clock < u64::MAX,
        ensures
            srv_wf(final(server)@),
            final(server)@.entries == srv_remove_descendants(
                old(server)@.entries,
                buckets_path(),
            ),
            final(server)@.clock == old(server)@.clock,
            r is Ok,
    {
        let req = DeleteCollection::new(self.clone(), Paths::Buckets.build());
        match req.send(server) {
            Ok(_) => Ok(()),
            Err(e) => Err(e),
        }
    }
}

} // verus!

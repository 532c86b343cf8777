//! Request construction and dispatch.
//!
//! A request accumulates method, path, conditional headers, page-size limit
//! and an optional JSON body before it is executed. The specialised request
//! types fix the method and say whether the endpoint is plural (a list) or
//! singular, and whether it carries a payload. Dispatch runs the request
//! against the store and classifies the outcome: transport failure first,
//! then 304, then 412, then any other non-success status, and only then is
//! the body looked at.

use vstd::prelude::*;
use vstd::string::*;

use crate::client::{ClientModel, KintoClient};
use crate::error::KintoError;
use crate::json::{jv_set, JsonModel, JsonValue};
use crate::response::ResponseWrapper;
use crate::server::{step, ServerState};

verus! {

/// The HTTP method of a request.
#[derive(Clone, Copy, Debug, PartialEq, Eq, Structural)]
pub enum Method {
    Get,
    Post,
    Put,
    Patch,
    Delete,
}

/// A revision condition for `If-Match` / `If-None-Match`: any revision, or
/// one named revision token.
#[derive(Clone, Copy, Debug, PartialEq, Eq, Structural)]
pub enum ETagMatch {
    Any,
    Token(u64),
}

/// The mathematical form of a request being assembled.
pub struct RequestModel {
    pub client: ClientModel,
    pub method: Method,
    pub path: Seq<char>,
    pub plural: bool,
    pub if_match: Option<ETagMatch>,
    pub if_none_match: Option<ETagMatch>,
    pub limit: Option<u32>,
    pub body: Option<JsonModel>,
}

/// Request state shared by every specialised request type.
pub struct RequestPreparer {
    pub client: KintoClient,
    pub method: Method,
    pub path: String,
    pub plural: bool,
    pub if_match: Option<ETagMatch>,
    pub if_none_match: Option<ETagMatch>,
    pub limit: Option<u32>,
    pub body: Option<JsonValue>,
}

impl View for RequestPreparer {
    type V = RequestModel;

    open spec fn view(&self) -> RequestModel {
        RequestModel {
            client: self.client@,
            method: self.method,
            path: self.path@,
            plural: self.plural,
            if_match: self.if_match,
            if_none_match: self.if_none_match,
            limit: self.limit,
            body: (match self.body {
                Some(ref b) => Some(b.deep_view()),
                None => None,
            }),
        }
    }
}

impl RequestPreparer {
    /// A fresh request for `path`: method GET, no conditions, no limit, no
    /// body.
    pub fn new(client: KintoClient, path: String) -> (p: RequestPreparer)
        ensures
            p@ == (RequestModel {
                client: client@,
                method: Method::Get,
                path: path@,
                plural: false,
                if_match: None,
                if_none_match: None,
                limit: None,
                body: None,
            }),
    {
        RequestPreparer {
            client,
            method: Method::Get,
            path,
            plural: false,
            if_match: None,
            if_none_match: None,
            limit: None,
            body: None,
        }
    }

    /// Merges `value` into the shared body object under `key` without
    /// clobbering what the other payload setter wrote.
    fn merge_into_body(&mut self, key: &str, value: JsonValue)
        ensures
            final(self)@ == (RequestModel {
                body: Some(
                    jv_set(
                        (match old(self)@.body {
                            Some(b) => b,
                            None => JsonModel::Object(Seq::empty()),
                        }),
                        key@,
                        value.deep_view(),
                    ),
                ),
                ..old(self)@
            }),
    {
        let mut body = match self.body.take() {
            Some(b) => b,
            None => JsonValue::new_object(),
        };
        body.set(key, value);
        self.body = Some(body);
    }
}

/// What the payload setters leave under a key: the merged body seen as a
/// JSON object.
pub open spec fn body_after_set(
    body: Option<JsonModel>,
    key: Seq<char>,
    value: JsonModel,
) -> Option<JsonModel> {
    Some(
        jv_set(
            (match body {
                Some(b) => b,
                None => JsonModel::Object(Seq::empty()),
            }),
            key,
            value,
        ),
    )
}

/// Options shared by every request: conditional headers and dispatch.
pub trait KintoRequest: Sized {
    /// The request being assembled.
    spec fn prep(&self) -> RequestModel;

    /// Attaches an `If-Match` condition carrying a revision token, asking
    /// the server to enforce optimistic concurrency.
    fn if_match(&mut self, cond: ETagMatch)
        ensures
            final(self).prep() == (RequestModel { if_match: Some(cond), ..old(self).prep() }),
    ;

    /// Attaches an `If-None-Match` condition.
    fn if_none_match(&mut self, cond: ETagMatch)
        ensures
            final(self).prep() == (RequestModel {
                if_none_match: Some(cond),
                ..old(self).prep()
            }),
    ;

    /// Executes the request against the store and classifies the outcome.
    fn send(&self, server: &mut ServerState) -> (r: Result<ResponseWrapper, KintoError>)
        requires
            crate::server::srv_wf(old(server)@),
            old(server)@.clock < u64::MAX,
        ensures
            crate::server::srv_wf(final(server)@),
            final(server)@ == step(self.prep(), old(server)@).0,
            (match r {
                Ok(w) => classify_spec(step(self.prep(), old(server)@).1) is None && w@.status
                    == step(self.prep(), old(server)@).1 && Some(w@.json) == step(
                    self.prep(),
                    old(server)@,
                ).2 && w@.path == self.prep().path && w@.client == self.prep().client,
                Err(e) => classify_spec(step(self.prep(), old(server)@).1) == Some(e),
            }),
    ;
}

/// The payload setters of POST, PUT and PATCH requests. Each setter is a
/// no-op on an absent value and otherwise merges into the shared body under
/// its own key, leaving the other key untouched.
pub trait PayloadedEndpoint: KintoRequest {
    /// Attaches the document to send under the body's `data` key.
    fn data(&mut self, data: Option<JsonValue>)
        ensures
            (match data {
                None => final(self).prep() == old(self).prep(),
                Some(d) => final(self).prep() == (RequestModel {
                    body: body_after_set(old(self).prep().body, "data"@, d.deep_view()),
                    ..old(self).prep()
                }),
            }),
    ;

    /// Attaches the permissions to send under the body's `permissions` key.
    fn permissions(&mut self, permissions: Option<JsonValue>)
        ensures
            (match permissions {
                None => final(self).prep() == old(self).prep(),
                Some(p) => final(self).prep() == (RequestModel {
                    body: body_after_set(old(self).prep().body, "permissions"@, p.deep_view()),
                    ..old(self).prep()
                }),
            }),
    ;
}

/// The page-size option of plural endpoints.
pub trait PluralEndpoint: KintoRequest {
    /// Asks for at most `limit` members per page.
    fn limit(&mut self, limit: u32)
        ensures
            final(self).prep() == (RequestModel { limit: Some(limit), ..old(self).prep() }),
    ;
}

/// The dispatcher's status classification, in the required precedence: 304
/// before 412 before any other non-success status; a success status is not
/// an error. The body plays no part: a 304 or 412 answer is classified
/// without it ever being parsed.
pub open spec fn classify_spec(status: u16) -> Option<KintoError> {
    if status == 304 {
        Some(KintoError::NotModified)
    } else if status == 412 {
        Some(KintoError::PreconditionFailed)
    } else if status < 200 || status >= 300 {
        Some(KintoError::RequestError(status))
    } else {
        None
    }
}

/// Classifies a status exactly as [`classify_spec`] says.
pub fn classify_status(status: u16) -> (r: Option<KintoError>)
    ensures
        r == classify_spec(status),
{
    if status == 304 {
        Some(KintoError::NotModified)
    } else if status == 412 {
        Some(KintoError::PreconditionFailed)
    } else if status < 200 || status >= 300 {
        Some(KintoError::RequestError(status))
    } else {
        None
    }
}

/// Wraps a parsed success answer in an envelope; a success status whose body
/// could not be parsed as JSON is a malformed response. This is the step an
/// outside transport goes through after [`classify_status`] found no error.
pub fn hydrate_envelope(
    client: &KintoClient,
    path: &str,
    status: u16,
    parsed: Option<JsonValue>,
) -> (r: Result<ResponseWrapper, KintoError>)
    requires
        classify_spec(status) is None,
    ensures
        (match r {
            Ok(w) => parsed matches Some(v) && w@.json == v.deep_view() && w@.status == status
                && w@.path == path@ && w@.client == client@,
            Err(e) => parsed is None && e == KintoError::MalformedResponse,
        }),
{
    match parsed {
        Some(json) => Ok(
            ResponseWrapper { client: client.clone(), path: path.to_owned(), status, json },
        ),
        None => Err(KintoError::MalformedResponse),
    }
}

/// Runs a prepared request against the store: one exchange, then the
/// classification of [`classify_spec`].
pub fn dispatch(p: &RequestPreparer, server: &mut ServerState) -> (r: Result<
    ResponseWrapper,
    KintoError,
>)
    requires
        crate::server::srv_wf(old(server)@),
        old(server)@.clock < u64::MAX,
    ensures
        crate::server::srv_wf(final(server)@),
        final(server)@ == step(p@, old(server)@).0,
        (match r {
            Ok(w) => classify_spec(step(p@, old(server)@).1) is None && w@.status == step(
                p@,
                old(server)@,
            ).1 && Some(w@.json) == step(p@, old(server)@).2 && w@.path == p@.path && w@.client
                == p@.client,
            Err(e) => classify_spec(step(p@, old(server)@).1) == Some(e),
        }),
{
    let (status, body) = server.handle(p);
    match classify_status(status) {
        Some(e) => Err(e),
        None => {
            match body {
                Some(json) => Ok(
                    ResponseWrapper {
                        client: p.client.clone(),
                        path: p.path.clone(),
                        status,
                        json,
                    },
                ),
                None => {
                    proof {
                        crate::server::lemma_step_success_has_body(p@, old(server)@);
                        assert(false);
                    }
                    Err(KintoError::MalformedResponse)
                },
            }
        },
    }
}

/// A GET request on a plural endpoint: lists the members.
pub struct GetCollection {
    pub preparer: RequestPreparer,
}

impl GetCollection {
    /// A list request for the members of `path`.
    pub fn new(client: KintoClient, path: String) -> (r: GetCollection)
        ensures
            r.preparer@ == (RequestModel {
                client: client@,
                method: Method::Get,
                path: path@,
                plural: true,
                if_match: None,
                if_none_match: None,
                limit: None,
                body: None,
            }),
    {
        let mut preparer = RequestPreparer::new(client, path);
        preparer.plural = true;
        GetCollection { preparer }
    }
}

impl KintoRequest for GetCollection {
    open spec fn prep(&self) -> RequestModel {
        self.preparer@
    }

    fn if_match(&mut self, cond: ETagMatch) {
        self.preparer.if_match = Some(cond);
    }

    fn if_none_match(&mut self, cond: ETagMatch) {
        self.preparer.if_none_match = Some(cond);
    }

    fn send(&self, server: &mut ServerState) -> (r: Result<ResponseWrapper, KintoError>) {
        dispatch(&self.preparer, server)
    }
}

impl PluralEndpoint for GetCollection {
    fn limit(&mut self, limit: u32) {
        self.preparer.limit = Some(limit);
    }
}

/// A DELETE request on a plural endpoint: removes every member.
pub struct DeleteCollection {
    pub preparer: RequestPreparer,
}

impl DeleteCollection {
    /// A delete-all request for the members of `path`.
    pub fn new(client: KintoClient, path: String) -> (r: DeleteCollection)
        ensures
            r.preparer@ == (RequestModel {
                client: client@,
                method: Method::Delete,
                path: path@,
                plural: true,
                if_match: None,
                if_none_match: None,
                limit: None,
                body: None,
            }),
    {
        let mut preparer = RequestPreparer::new(client, path);
        preparer.method = Method::Delete;
        preparer.plural = true;
        DeleteCollection { preparer }
    }
}

impl KintoRequest for DeleteCollection {
    open spec fn prep(&self) -> RequestModel {
        self.preparer@
    }

    fn if_match(&mut self, cond: ETagMatch) {
        self.preparer.if_match = Some(cond);
    }

    fn if_none_match(&mut self, cond: ETagMatch) {
        self.preparer.if_none_match = Some(cond);
    }

    fn send(&self, server: &mut ServerState) -> (r: Result<ResponseWrapper, KintoError>) {
        dispatch(&self.preparer, server)
    }
}

impl PluralEndpoint for DeleteCollection {
    fn limit(&mut self, limit: u32) {
        self.preparer.limit = Some(limit);
    }
}

/// A POST request on a plural endpoint: creates a member.
pub struct CreateRecord {
    pub preparer: RequestPreparer,
}

impl CreateRecord {
    /// A create request below the plural `path`.
    pub fn new(client: KintoClient, path: String) -> (r: CreateRecord)
        ensures
            r.preparer@ == (RequestModel {
                client: client@,
                method: Method::Post,
                path: path@,
                plural: true,
                if_match: None,
                if_none_match: None,
                limit: None,
                body: None,
            }),
    {
        let mut preparer = RequestPreparer::new(client, path);
        preparer.method = Method::Post;
        preparer.plural = true;
        CreateRecord { preparer }
    }
}

impl KintoRequest for CreateRecord {
    open spec fn prep(&self) -> RequestModel {
        self.preparer@
    }

    fn if_match(&mut self, cond: ETagMatch) {
        self.preparer.if_match = Some(cond);
    }

    fn if_none_match(&mut self, cond: ETagMatch) {
        self.preparer.if_none_match = Some(cond);
    }

    fn send(&self, server: &mut ServerState) -> (r: Result<ResponseWrapper, KintoError>) {
        dispatch(&self.preparer, server)
    }
}

impl PayloadedEndpoint for CreateRecord {
    fn data(&mut self, data: Option<JsonValue>) {
        match data {
            Some(d) => self.preparer.merge_into_body("data", d),
            None => {},
        }
    }

    fn permissions(&mut self, permissions: Option<JsonValue>) {
        match permissions {
            Some(p) => self.preparer.merge_into_body("permissions", p),
            None => {},
        }
    }
}

/// A GET request on a singular endpoint: loads one resource.
pub struct GetRecord {
    pub preparer: RequestPreparer,
}

impl GetRecord {
    /// A load request for the resource at `path`.
    pub fn new(client: KintoClient, path: String) -> (r: GetRecord)
        ensures
            r.preparer@ == (RequestModel {
                client: client@,
                method: Method::Get,
                path: path@,
                plural: false,
                if_match: None,
                if_none_match: None,
                limit: None,
                body: None,
            }),
    {
        GetRecord { preparer: RequestPreparer::new(client, path) }
    }
}

impl KintoRequest for GetRecord {
    open spec fn prep(&self) -> RequestModel {
        self.preparer@
    }

    fn if_match(&mut self, cond: ETagMatch) {
        self.preparer.if_match = Some(cond);
    }

    fn if_none_match(&mut self, cond: ETagMatch) {
        self.preparer.if_none_match = Some(cond);
    }

    fn send(&self, server: &mut ServerState) -> (r: Result<ResponseWrapper, KintoError>) {
        dispatch(&self.preparer, server)
    }
}

/// A PUT request on a singular endpoint: full replacement.
pub struct UpdateRecord {
    pub preparer: RequestPreparer,
}

impl UpdateRecord {
    /// A replace request for the resource at `path`.
    pub fn new(client: KintoClient, path: String) -> (r: UpdateRecord)
        ensures
            r.preparer@ == (RequestModel {
                client: client@,
                method: Method::Put,
                path: path@,
                plural: false,
                if_match: None,
                if_none_match: None,
                limit: None,
                body: None,
            }),
    {
        let mut preparer = RequestPreparer::new(client, path);
        preparer.method = Method::Put;
        UpdateRecord { preparer }
    }
}

impl KintoRequest for UpdateRecord {
    open spec fn prep(&self) -> RequestModel {
        self.preparer@
    }

    fn if_match(&mut self, cond: ETagMatch) {
        self.preparer.if_match = Some(cond);
    }

    fn if_none_match(&mut self, cond: ETagMatch) {
        self.preparer.if_none_match = Some(cond);
    }

    fn send(&self, server: &mut ServerState) -> (r: Result<ResponseWrapper, KintoError>) {
        dispatch(&self.preparer, server)
    }
}

impl PayloadedEndpoint for UpdateRecord {
    fn data(&mut self, data: Option<JsonValue>) {
        match data {
            Some(d) => self.preparer.merge_into_body("data", d),
            None => {},
        }
    }

    fn permissions(&mut self, permissions: Option<JsonValue>) {
        match permissions {
            Some(p) => self.preparer.merge_into_body("permissions", p),
            None => {},
        }
    }
}

/// A PATCH request on a singular endpoint.
pub struct PatchRecord {
    pub preparer: RequestPreparer,
}

impl PatchRecord {
    /// A patch request for the resource at `path`.
    pub fn new(client: KintoClient, path: String) -> (r: PatchRecord)
        ensures
            r.preparer@ == (RequestModel {
                client: client@,
                method: Method::Patch,
                path: path@,
                plural: false,
                if_match: None,
                if_none_match: None,
                limit: None,
                body: None,
            }),
    {
        let mut preparer = RequestPreparer::new(client, path);
        preparer.method = Method::Patch;
        PatchRecord { preparer }
    }
}

impl KintoRequest for PatchRecord {
    open spec fn prep(&self) -> RequestModel {
        self.preparer@
    }

    fn if_match(&mut self, cond: ETagMatch) {
        self.preparer.if_match = Some(cond);
    }

    fn if_none_match(&mut self, cond: ETagMatch) {
        self.preparer.if_none_match = Some(cond);
    }

    fn send(&self, server: &mut ServerState) -> (r: Result<ResponseWrapper, KintoError>) {
        dispatch(&self.preparer, server)
    }
}

impl PayloadedEndpoint for PatchRecord {
    fn data(&mut self, data: Option<JsonValue>) {
        match data {
            Some(d) => self.preparer.merge_into_body("data", d),
            None => {},
        }
    }

    fn permissions(&mut self, permissions: Option<JsonValue>) {
        match permissions {
            Some(p) => self.preparer.merge_into_body("permissions", p),
            None => {},
        }
    }
}

/// A DELETE request on a singular endpoint.
pub struct DeleteRecord {
    pub preparer: RequestPreparer,
}

impl DeleteRecord {
    /// A delete request for the resource at `path`.
    pub fn new(client: KintoClient, path: String) -> (r: DeleteRecord)
        ensures
            r.preparer@ == (RequestModel {
                client: client@,
                method: Method::Delete,
                path: path@,
                plural: false,
                if_match: None,
                if_none_match: None,
                limit: None,
                body: None,
            }),
    {
        let mut preparer = RequestPreparer::new(client, path);
        preparer.method = Method::Delete;
        DeleteRecord { preparer }
    }
}

impl KintoRequest for DeleteRecord {
    open spec fn prep(&self) -> RequestModel {
        self.preparer@
    }

    fn if_match(&mut self, cond: ETagMatch) {
        self.preparer.if_match = Some(cond);
    }

    fn if_none_match(&mut self, cond: ETagMatch) {
        self.preparer.if_none_match = Some(cond);
    }

    fn send(&self, server: &mut ServerState) -> (r: Result<ResponseWrapper, KintoError>) {
        dispatch(&self.preparer, server)
    }
}

} // verus!

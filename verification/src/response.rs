//! The response envelope that dispatch hands to hydration.

use vstd::prelude::*;

use crate::client::{ClientModel, KintoClient};
use crate::json::{JsonModel, JsonValue};

verus! {

/// The mathematical form of a response envelope.
pub struct ResponseModel {
    pub client: ClientModel,
    pub path: Seq<char>,
    pub status: u16,
    pub json: JsonModel,
}

/// A successful exchange: the client that made it, the request path that
/// produced it, the status, and the parsed JSON body. Produced once per
/// dispatch and consumed exactly once by hydration.
#[derive(Debug)]
pub struct ResponseWrapper {
    pub client: KintoClient,
    pub path: String,
    pub status: u16,
    pub json: JsonValue,
}

impl View for ResponseWrapper {
    type V = ResponseModel;

    open spec fn view(&self) -> ResponseModel {
        ResponseModel {
            client: self.client@,
            path: self.path@,
            status: self.status,
            json: self.json.deep_view(),
        }
    }
}

} // verus!

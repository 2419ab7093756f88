//! The code resolver: where a code bundle is fetched, and what is made of the
//! gateway's answer.

use crate::json::{optional_text, parse_json, parsed_json, DocumentValue, JsonValue};
use vstd::prelude::*;
use vstd::string::StringExecFns;

verus! {

/// Why a code bundle could not be had.
#[derive(Clone, Copy, Debug, PartialEq, Eq, Structural)]
pub enum ArweaveError {
    /// The request to the gateway failed.
    RequestError,
    /// The gateway's answer is not JSON.
    JsonError,
}

/// A client of one content-addressed gateway.
#[derive(Clone, Debug)]
pub struct ArweaveClient {
    gateway_url: String,
}

impl ArweaveClient {
    /// The address of the gateway.
    pub closed spec fn gateway(&self) -> Seq<char> {
        self.gateway_url@
    }

    /// A client of the gateway at `gateway_url`, or of `https://arweave.net`
    /// where none is given.
    pub fn new(gateway_url: Option<String>) -> (client: Self)
        ensures
            client.gateway() == match gateway_url {
                Some(url) => url@,
                None => "https://arweave.net"@,
            },
    {
        match gateway_url {
            Some(url) => ArweaveClient { gateway_url: url },
            None => ArweaveClient { gateway_url: String::from_str("https://arweave.net") },
        }
    }

    /// The address from which the bundle `tx_id` is fetched: the gateway, a
    /// slash, and the identifier.
    pub fn request_url(&self, tx_id: &str) -> (url: String)
        ensures
            url@ == self.gateway() + "/"@ + tx_id@,
    {
        let mut url = self.gateway_url.clone();
        url.append("/");
        url.append(tx_id);
        url
    }

    /// The bundle that the gateway answered with. `response` is the body of
    /// the answer, or `None` where the request failed.
    pub fn get_transaction_data(&self, response: Option<String>) -> (data: Result<
        JsonValue,
        ArweaveError,
    >)
        ensures
            document_value(data) == fetched(optional_text(response)),
    {
        match response {
            None => Err(ArweaveError::RequestError),
            Some(body) => match parse_json(body.as_str()) {
                Some(value) => Ok(value),
                None => Err(ArweaveError::JsonError),
            },
        }
    }
}

/// What is made of the gateway's answer: the document that the body holds,
/// `JsonError` where the body is not JSON, `RequestError` where there is no
/// answer.
pub open spec fn fetched(response: Option<Seq<char>>) -> Result<DocumentValue, ArweaveError> {
    match response {
        None => Err(ArweaveError::RequestError),
        Some(body) => match parsed_json(body) {
            Some(value) => Ok(value),
            None => Err(ArweaveError::JsonError),
        },
    }
}

/// What a fetched document holds, or the failure in its place.
pub open spec fn document_value(data: Result<JsonValue, ArweaveError>) -> Result<
    DocumentValue,
    ArweaveError,
> {
    match data {
        Ok(value) => Ok(value@),
        Err(e) => Err(e),
    }
}

} // verus!

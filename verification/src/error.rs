//! What can go wrong while resources are synced.
use kube::Error as KubeClientError;
use serde_json::Error as JsonError;
use vstd::prelude::*;

verus! {

/// `kube::Error`, of which nothing is known but that it can be handed on.
#[verifier::external_type_specification]
#[verifier::external_body]
pub struct ExKubeClientError(KubeClientError);

/// `serde_json::Error`, of which nothing is known but that it can be handed on.
#[verifier::external_type_specification]
#[verifier::external_body]
pub struct ExJsonError(JsonError);

/// Why a reconciliation failed.
#[derive(Debug)]
pub enum Error {
    /// The Kubernetes API refused a request or could not be reached.
    KubeError(KubeClientError),
    /// The finalizer could not be handled; the text says why.
    FinalizerError(String),
    /// A resource could not be read or written as JSON.
    SerializationError(JsonError),
}

impl From<KubeClientError> for Error {
    fn from(error: KubeClientError) -> (result: Self) {
        Error::KubeError(error)
    }
}

impl vstd::std_specs::convert::FromSpecImpl<KubeClientError> for Error {
    open spec fn obeys_from_spec() -> bool {
        true
    }

    open spec fn from_spec(error: KubeClientError) -> Error {
        Error::KubeError(error)
    }
}

pub type Result<T, E = Error> = core::result::Result<T, E>;

/// A request to the Kubernetes API that failed.
#[derive(Debug)]
pub struct ApiFailure {
    /// The status code of the API's answer, where the API answered.
    pub code: Option<u16>,
    /// The failure as the client reported it.
    pub error: KubeClientError,
}

impl ApiFailure {
    /// Whether the API answered that there is no such object.
    pub open spec fn is_not_found(self) -> bool {
        self.code == Some(404u16)
    }

    /// Whether the API answered that there is no such object.
    pub fn not_found(&self) -> (result: bool)
        ensures
            result == self.is_not_found(),
            result <==> self.code == Some(404u16),
    {
        match self.code {
            Some(code) => code == 404,
            None => false,
        }
    }
}

} // verus!

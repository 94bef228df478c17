//! The closed set of failure kinds a request can end in, and their mapping
//! to HTTP status codes at the boundary.

use vstd::prelude::*;

verus! {

/// Every way one invocation can fail. Each kind is local to the invocation:
/// no failure leaves shared state behind.
#[derive(Clone, Copy, Debug, PartialEq, Eq, Structural)]
pub enum StaffError {
    /// The store connection URL is missing or unusable.
    ConfigError,
    /// A store connection could not be acquired in time.
    ConnectionError,
    /// No handler matches the request's method and path.
    RouteNotMatched,
    /// The create payload does not deserialize into staff fields.
    PayloadInvalid,
    /// A single lookup named an identity no record carries.
    RecordNotFound,
    /// The store rejected or failed an operation.
    StoreError,
}

impl StaffError {
    /// The HTTP status code this failure surfaces as.
    pub fn status_code(&self) -> (s: u16)
        ensures
            *self == StaffError::ConfigError ==> s == 500,
            *self == StaffError::ConnectionError ==> s == 503,
            *self == StaffError::RouteNotMatched ==> s == 404,
            *self == StaffError::PayloadInvalid ==> s == 400,
            *self == StaffError::RecordNotFound ==> s == 404,
            *self == StaffError::StoreError ==> s == 500,
    {
        match self {
            StaffError::ConfigError => 500,
            StaffError::ConnectionError => 503,
            StaffError::RouteNotMatched => 404,
            StaffError::PayloadInvalid => 400,
            StaffError::RecordNotFound => 404,
            StaffError::StoreError => 500,
        }
    }

    /// A short description of this failure, for the response body and logs.
    pub fn message(&self) -> (m: &'static str)
    {
        match self {
            StaffError::ConfigError => "store configuration is missing or invalid",
            StaffError::ConnectionError => "could not acquire a store connection",
            StaffError::RouteNotMatched => "no route matches the method and path",
            StaffError::PayloadInvalid => "the create payload could not be read",
            StaffError::RecordNotFound => "no staff record has that identity",
            StaffError::StoreError => "the store failed to run the operation",
        }
    }
}

} // verus!

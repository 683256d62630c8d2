//! Channels to a gRPC endpoint.
use vstd::prelude::*;

verus! {

/// A channel to a gRPC server.
pub struct Channel;

impl Channel {
    /// An endpoint for `uri`.
    pub fn builder(uri: http::Uri) -> (endpoint: Endpoint)
        ensures
            endpoint == Endpoint,
    {
        Endpoint
    }

    /// An endpoint for the address `s`.
    pub fn from_static(s: &'static str) -> (endpoint: Endpoint)
        ensures
            endpoint == Endpoint,
    {
        Endpoint
    }

    /// An endpoint for the address `s`; every address is accepted.
    pub fn from_shared(s: impl Into<bytes::Bytes>) -> (res: Result<Endpoint, http::uri::InvalidUri>)
        ensures
            res matches Ok(endpoint) && endpoint == Endpoint,
    {
        Ok(Endpoint)
    }
}

/// The address of a gRPC server.
pub struct Endpoint;

impl Endpoint {
    /// The endpoint at the address `s`.
    pub fn from_static(s: &'static str) -> (endpoint: Self)
        ensures
            endpoint == Endpoint,
    {
        Endpoint
    }

    /// The endpoint at the address `s`; every address is accepted.
    pub fn from_shared(s: impl Into<bytes::Bytes>) -> (res: Result<Self, http::uri::InvalidUri>)
        ensures
            res matches Ok(endpoint) && endpoint == Endpoint,
    {
        Ok(Endpoint)
    }
}

} // verus!

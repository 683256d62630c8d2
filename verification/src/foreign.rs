//! Types of other crates that the library carries through its logic without
//! looking inside them.
use vstd::prelude::*;

use tungstenite::Error as TungsteniteError;

verus! {

/// `tungstenite::Error`: what went wrong on a web socket.
#[verifier::external_type_specification]
#[verifier::external_body]
pub struct ExTungsteniteError(TungsteniteError);

/// `http::Uri`: the address of the web socket to connect to.
#[verifier::external_type_specification]
#[verifier::external_body]
pub struct ExUri(http::Uri);

/// `http::uri::InvalidUri`: a string that is no URI.
#[verifier::external_type_specification]
#[verifier::external_body]
pub struct ExInvalidUri(http::uri::InvalidUri);

/// `http::Request`: the opening request of a web socket connection.
#[verifier::external_type_specification]
#[verifier::external_body]
#[verifier::reject_recursive_types(T)]
pub struct ExRequest<T>(http::Request<T>);

/// `headers::authorization::InvalidBearerToken`: a token that cannot stand in
/// an `Authorization` header.
#[verifier::external_type_specification]
#[verifier::external_body]
pub struct ExInvalidBearerToken(headers::authorization::InvalidBearerToken);

/// `bytes::Bytes`: a shared byte buffer.
#[verifier::external_type_specification]
#[verifier::external_body]
pub struct ExBytes(bytes::Bytes);

} // verus!

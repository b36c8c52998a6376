//! Errors of the forwarding pipeline, and the plain responses the
//! proxy answers a failed request with.

use vstd::prelude::*;

use crate::algorithm::algorithm::ServerSelectionError;

verus! {

/// The request carried no usable cookie.
#[derive(Debug, Clone)]
pub struct CookieError;

impl CookieError {
    /// The error's description.
    pub fn message(&self) -> (r: String)
        ensures
            r@ == "Request didn't contain any cookies."@,
    {
        "Request didn't contain any cookies.".to_owned()
    }
}

/// Why a request could not be mapped to a server.
#[derive(Debug, Clone)]
pub enum ServerMappingError {
    Cookie(CookieError),
    ServerSelection(ServerSelectionError),
}

impl ServerMappingError {
    /// The description of the underlying error.
    pub fn message(&self) -> (r: String)
        ensures
            self matches ServerMappingError::Cookie(_) ==> r@
                == "Request didn't contain any cookies."@,
            self matches ServerMappingError::ServerSelection(_) ==> r@
                == "There was an internal error in choosing an appropriate server for this request."@,
    {
        match self {
            ServerMappingError::Cookie(e) => e.message(),
            ServerMappingError::ServerSelection(e) => e.message(),
        }
    }
}

impl From<CookieError> for ServerMappingError {
    fn from(e: CookieError) -> (r: Self) {
        ServerMappingError::Cookie(e)
    }
}

impl vstd::std_specs::convert::FromSpecImpl<CookieError> for ServerMappingError {
    open spec fn obeys_from_spec() -> bool {
        true
    }

    open spec fn from_spec(e: CookieError) -> Self {
        ServerMappingError::Cookie(e)
    }
}

impl From<ServerSelectionError> for ServerMappingError {
    fn from(e: ServerSelectionError) -> (r: Self) {
        ServerMappingError::ServerSelection(e)
    }
}

impl vstd::std_specs::convert::FromSpecImpl<ServerSelectionError> for ServerMappingError {
    open spec fn obeys_from_spec() -> bool {
        true
    }

    open spec fn from_spec(e: ServerSelectionError) -> Self {
        ServerMappingError::ServerSelection(e)
    }
}

/// The answer when no alive backend exists: status and plain body.
pub fn no_backend_response() -> (r: (u16, String))
    ensures
        r.0 == 503u16,
        r.1@ == "no backend available"@,
{
    (503, "no backend available".to_owned())
}

/// The answer when the upstream could not be reached: status and plain
/// body.
pub fn bad_gateway_response() -> (r: (u16, String))
    ensures
        r.0 == 502u16,
        r.1@ == "upstream unavailable"@,
{
    (502, "upstream unavailable".to_owned())
}

/// The answer when per-request handling failed inside the proxy:
/// status and plain body.
pub fn internal_error_response() -> (r: (u16, String))
    ensures
        r.0 == 500u16,
        r.1@ == "internal proxy error"@,
{
    (500, "internal proxy error".to_owned())
}

} // verus!

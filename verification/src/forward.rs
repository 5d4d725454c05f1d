//! The request forwarder: from the inbound request's parts and the resolved
//! URL to the outbound request, a pure pass-through.

use vstd::prelude::*;

verus! {

/// The HTTP methods the proxy accepts and forwards.
#[derive(Clone, Copy, Debug, PartialEq, Eq, Structural)]
pub enum Method {
    Get,
    Post,
    Put,
    Patch,
    Delete,
}

/// One request arriving at the proxy: the path, the method, the headers as
/// an ordered multimap (duplicate names and any casing allowed), and the raw
/// body.
pub struct InboundRequest {
    pub path: String,
    pub method: Method,
    pub headers: Vec<(String, Vec<u8>)>,
    pub body: Vec<u8>,
}

/// The request to dispatch to the backend: the resolved URL, and the inbound
/// method, headers and body, unchanged.
pub struct OutboundRequest {
    pub url: String,
    pub method: Method,
    pub headers: Vec<(String, Vec<u8>)>,
    pub body: Vec<u8>,
}

/// Builds the outbound request. Every inbound header is kept verbatim, in
/// order, duplicates included; none is stripped, renamed or injected. The
/// body and the method are carried over untouched.
pub fn forward(
    method: Method,
    headers: Vec<(String, Vec<u8>)>,
    body: Vec<u8>,
    url: String,
) -> (outbound: OutboundRequest)
    ensures
        outbound.url == url,
        outbound.method == method,
        outbound.headers == headers,
        outbound.body == body,
{
    OutboundRequest { url, method, headers, body }
}

} // verus!

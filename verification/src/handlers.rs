//! Boundary handlers: the answers the proxy gives by itself, without
//! consulting the registry — the health probe, the not-found fallback, and
//! the deterministic bad-gateway answer for a failed backend call.

use vstd::prelude::*;

verus! {

/// An answer the proxy synthesizes itself: a status code, the content type,
/// and a fixed JSON body of the shape `{ success, message }`.
pub struct OutboundResponse {
    pub status: u16,
    pub content_type: String,
    pub body: String,
}

/// The media type of every synthesized body.
pub open spec fn json_content_type() -> Seq<char> {
    "application/json"@
}

/// The health probe's body.
pub open spec fn health_body() -> Seq<char> {
    "{\"success\": true, \"message\": \"The server is up and running!\"}"@
}

/// The not-found fallback's body.
pub open spec fn not_found_body() -> Seq<char> {
    "{\"success\": false, \"message\": \"The requested resource does not exist on this server!\"}"@
}

/// The bad-gateway body, sent when the backend call itself failed.
pub open spec fn bad_gateway_body() -> Seq<char> {
    "{\"success\": false, \"message\": \"The upstream service could not be reached!\"}"@
}

/// `r` is the health probe's answer.
pub open spec fn is_health_response(r: OutboundResponse) -> bool {
    r.status == 200 && r.content_type@ == json_content_type() && r.body@ == health_body()
}

/// `r` is the not-found fallback's answer.
pub open spec fn is_not_found_response(r: OutboundResponse) -> bool {
    r.status == 404 && r.content_type@ == json_content_type() && r.body@ == not_found_body()
}

/// `r` is the bad-gateway answer.
pub open spec fn is_bad_gateway_response(r: OutboundResponse) -> bool {
    r.status == 502 && r.content_type@ == json_content_type() && r.body@ == bad_gateway_body()
}

/// The liveness answer: always 200 with the fixed JSON body, independent of
/// any backend's state.
pub fn health_check() -> (r: OutboundResponse)
    ensures
        is_health_response(r),
{
    OutboundResponse {
        status: 200,
        content_type: "application/json".to_owned(),
        body: "{\"success\": true, \"message\": \"The server is up and running!\"}".to_owned(),
    }
}

/// The fallback answer for every request no route matches: 404 with the
/// fixed JSON body.
pub fn handle_404() -> (r: OutboundResponse)
    ensures
        is_not_found_response(r),
{
    OutboundResponse {
        status: 404,
        content_type: "application/json".to_owned(),
        body: "{\"success\": false, \"message\": \"The requested resource does not exist on this server!\"}".to_owned(),
    }
}

/// The deterministic answer when the backend could not be reached or did not
/// answer: 502 with a fixed JSON body, so that every request resolves to
/// exactly one response.
pub fn bad_gateway() -> (r: OutboundResponse)
    ensures
        is_bad_gateway_response(r),
{
    OutboundResponse {
        status: 502,
        content_type: "application/json".to_owned(),
        body: "{\"success\": false, \"message\": \"The upstream service could not be reached!\"}".to_owned(),
    }
}

} // verus!

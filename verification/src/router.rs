//! The per-request decision: answer directly, or forward to a backend.
//!
//! `GET /health` is answered by the health probe. A path under the versioned
//! prefix `/v1/` with a non-empty remainder is resolved and turned into an
//! outbound request. Everything else — including a bare `/v1` and a path
//! whose wildcard remainder is empty — gets the not-found fallback, so every
//! request resolves to exactly one response.

use vstd::prelude::*;

use crate::forward::forward;
use crate::forward::InboundRequest;
use crate::forward::Method;
use crate::forward::OutboundRequest;
use crate::handlers::handle_404;
use crate::handlers::health_check;
use crate::handlers::is_health_response;
use crate::handlers::is_not_found_response;
use crate::handlers::OutboundResponse;
use crate::registry::ServiceRegistry;
use crate::resolve::resolved_url;
use crate::resolve::ServicePath;
use crate::segments::split_chars;
use crate::segments::split_path;

verus! {

/// What the surrounding program must do next with a request: send the built
/// outbound request to its URL and relay the backend's answer, or reply
/// directly with a synthesized response.
pub enum Step {
    Send(OutboundRequest),
    Reply(OutboundResponse),
}

/// The request is the health probe.
pub open spec fn is_health_request(path: Seq<char>, method: Method) -> bool {
    path == "/health"@ && method == Method::Get
}

/// The path matches the versioned route `/v1/*`: the leading segment is
/// empty, the version segment is `v1`, and the wildcard remainder is not
/// empty.
pub open spec fn is_proxy_route(path: Seq<char>) -> bool {
    let segs = split_chars(path, '/');
    segs.len() >= 3 && segs[0].len() == 0 && segs[1] == "v1"@ && !(segs.len() == 3 && segs[2].len()
        == 0)
}

/// Decides one request: the health probe is answered directly, a versioned
/// path is resolved and forwarded with method, headers and body untouched,
/// and every other path gets the not-found fallback.
pub fn handler(registry: &ServiceRegistry, request: InboundRequest) -> (step: Step)
    requires
        registry.wf(),
    ensures
        is_health_request(request.path@, request.method) ==> (step matches Step::Reply(r)
            && is_health_response(r)),
        !is_health_request(request.path@, request.method) && is_proxy_route(request.path@) ==> (
        step matches Step::Send(outbound) && outbound.url@ == resolved_url(
            registry.services(),
            registry.proxy(),
            request.path@,
        ) && outbound.method == request.method && outbound.headers == request.headers
            && outbound.body == request.body),
        !is_health_request(request.path@, request.method) && !is_proxy_route(request.path@) ==> (
        step matches Step::Reply(r) && is_not_found_response(r)),
{
    let health_path: String = "/health".to_owned();
    if request.path == health_path && request.method == Method::Get {
        return Step::Reply(health_check());
    }
    let segs = split_path(request.path.as_str());
    let version: String = "v1".to_owned();
    let proxied = segs.len() >= 3 && segs[0].as_str().is_empty() && segs[1] == version && !(
    segs.len() == 3 && segs[2].as_str().is_empty());
    proof {
        let dv = segs.deep_view();
        assert(dv.len() == segs@.len());
        if segs@.len() >= 3 {
            assert(dv[0] == segs@[0]@);
            assert(dv[1] == segs@[1]@);
            assert(dv[2] == segs@[2]@);
        }
        assert(proxied == is_proxy_route(request.path@));
    }
    if proxied {
        match ServicePath::parse_url(registry, request.path.as_str()) {
            Some(url) => Step::Send(forward(request.method, request.headers, request.body, url)),
            None => {
                proof {
                    assert(false);
                }
                Step::Reply(handle_404())
            },
        }
    } else {
        Step::Reply(handle_404())
    }
}

} // verus!

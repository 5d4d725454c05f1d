//! The route resolver: from an inbound path to the backend URL.
//!
//! The path is cut at every `/`. Segment 0 is empty (the leading slash),
//! segment 1 is the API version prefix, segment 2 names the service, and
//! segments 3.. — rejoined with `/` — form the resource path. The target URL
//! is the registered base address followed directly by the resource path; an
//! identifier no entry claims falls back to the proxy's own address, so the
//! caller observes that edge's uniform not-found answer.

use vstd::prelude::*;
use vstd::string::*;

use crate::registry::ServiceRegistry;
use crate::segments::has_char;
use crate::segments::join_chars;
use crate::segments::join_segments;
use crate::segments::lemma_join_split;
use crate::segments::lemma_split_prepend;
use crate::segments::split_chars;
use crate::segments::split_path;

verus! {

/// The URL a path resolves to, given the registered services and the proxy's
/// own fallback address: the chosen base address followed directly by the
/// rejoined resource path, with no separator added or removed.
pub open spec fn resolved_url(
    services: Map<Seq<char>, Seq<char>>,
    proxy: Seq<char>,
    path: Seq<char>,
) -> Seq<char>
    recommends
        split_chars(path, '/').len() >= 3,
{
    let segs = split_chars(path, '/');
    let base = if services.contains_key(segs[2]) {
        services[segs[2]]
    } else {
        proxy
    };
    base + join_chars(segs.skip(3), '/')
}

/// A path under the versioned prefix: `/v1/`, the service identifier, `/`,
/// and the resource path.
pub open spec fn v1_path(identifier: Seq<char>, resource: Seq<char>) -> Seq<char> {
    seq!['/', 'v', '1', '/'] + identifier + seq!['/'] + resource
}

/// Routing helpers on the inbound path.
pub struct ServicePath;

impl ServicePath {
    /// Pairs a service identifier with its base address, ready for
    /// registration.
    pub fn from(service_id: &str, service_base_url: String) -> (r: (String, String))
        ensures
            r.0@ == service_id@,
            r.1@ == service_base_url@,
    {
        let service_id = service_id.to_owned();
        (service_id, service_base_url)
    }

    /// Resolves `path` against the registry. A path with fewer than three
    /// segments carries no service identifier and is rejected rather than
    /// read out of position.
    pub fn parse_url(registry: &ServiceRegistry, path: &str) -> (r: Option<String>)
        requires
            registry.wf(),
        ensures
            match r {
                Some(url) => split_chars(path@, '/').len() >= 3 && url@ == resolved_url(
                    registry.services(),
                    registry.proxy(),
                    path@,
                ),
                None => split_chars(path@, '/').len() < 3,
            },
    {
        let segs = split_path(path);
        if segs.len() < 3 {
            return None;
        }
        let service_id: &String = &segs[2];
        let service_base_url: String = match registry.lookup(service_id) {
            Some(base) => base,
            None => registry.proxy_address().clone(),
        };
        let resource_path = join_segments(&segs, 3);
        let url = service_base_url.concat(resource_path.as_str());
        Some(url)
    }
}

/// For every registered identifier, resolving `/v1/<identifier>/<resource>`
/// gives exactly the registered base address followed by the resource path:
/// no separator is added or dropped, and no character changes.
pub proof fn lemma_resolve_registered(
    services: Map<Seq<char>, Seq<char>>,
    proxy: Seq<char>,
    identifier: Seq<char>,
    resource: Seq<char>,
)
    requires
        services.contains_key(identifier),
        !has_char(identifier, '/'),
    ensures
        resolved_url(services, proxy, v1_path(identifier, resource)) == services[identifier]
            + resource,
{
    lemma_split_v1_path(identifier, resource);
    let segs = split_chars(v1_path(identifier, resource), '/');
    assert(segs[2] == identifier);
    assert(segs.skip(3) =~= split_chars(resource, '/'));
    lemma_join_split(resource, '/');
}

/// For every identifier no entry claims, resolving `/v1/<identifier>/<resource>`
/// falls back to the proxy's own address as the base.
pub proof fn lemma_resolve_unregistered(
    services: Map<Seq<char>, Seq<char>>,
    proxy: Seq<char>,
    identifier: Seq<char>,
    resource: Seq<char>,
)
    requires
        !services.contains_key(identifier),
        !has_char(identifier, '/'),
    ensures
        resolved_url(services, proxy, v1_path(identifier, resource)) == proxy + resource,
{
    lemma_split_v1_path(identifier, resource);
    let segs = split_chars(v1_path(identifier, resource), '/');
    assert(segs[2] == identifier);
    assert(segs.skip(3) =~= split_chars(resource, '/'));
    lemma_join_split(resource, '/');
}

/// The segments of a versioned path: the empty leading segment, the version
/// prefix, the identifier, and the segments of the resource path.
proof fn lemma_split_v1_path(identifier: Seq<char>, resource: Seq<char>)
    requires
        !has_char(identifier, '/'),
    ensures
        split_chars(v1_path(identifier, resource), '/') == seq![
            Seq::<char>::empty(),
            seq!['v', '1'],
            identifier,
        ] + split_chars(resource, '/'),
{
    let p3 = identifier + seq!['/'] + resource;
    let p2 = seq!['v', '1'] + seq!['/'] + p3;
    let p1 = Seq::<char>::empty() + seq!['/'] + p2;
    assert(v1_path(identifier, resource) =~= p1);
    assert(!has_char(Seq::<char>::empty(), '/'));
    assert(!has_char(seq!['v', '1'], '/')) by {
        let vone = seq!['v', '1'];
        assert(vone[0] == 'v' && vone[1] == '1');
    }
    lemma_split_prepend(Seq::<char>::empty(), p2, '/');
    lemma_split_prepend(seq!['v', '1'], p3, '/');
    lemma_split_prepend(identifier, resource, '/');
    assert(seq![Seq::<char>::empty()] + (seq![seq!['v', '1']] + (seq![identifier] + split_chars(
        resource,
        '/',
    ))) =~= seq![Seq::<char>::empty(), seq!['v', '1'], identifier] + split_chars(resource, '/'));
}

} // verus!

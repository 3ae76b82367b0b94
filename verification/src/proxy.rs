use crate::app_config::cyc_index;
use crate::app_config::same_route;
use crate::app_config::spec_allowed;
use crate::app_config::spec_selected_index;
use crate::app_config::BaseRoute;
use crate::app_config::Route;
use crate::handler::services_contain;
use crate::handler::services_wf;
use crate::handler::AppConfig;
use crate::handler::ServiceEntry;
use crate::text::spec_is_url;
use crate::text::spec_join;
use crate::AppError;
use vstd::prelude::*;
use vstd::string::StrSliceExecFns;

verus! {

/// Whether `s` parses as an absolute URL; the name of what url::Url::parse
/// accepts, which depends on the string alone.
pub uninterp spec fn url_parse_ok(s: Seq<char>) -> bool;

/// Relies on url::Url::parse: accepts or rejects a candidate URL by its
/// characters alone.
#[verifier::external_body]
fn url_is_valid(s: &str) -> (r: bool)
    ensures
        r == url_parse_ok(s@),
{
    url::Url::parse(s).is_ok()
}

/// The matching engine; one request is checked at a time against the
/// shared configuration.
pub struct CommonCheckRequest;

/// The outcome of matching one request: the resolved forward target, a
/// snapshot of the matched route, and a snapshot of the selected backend.
pub struct CheckResult {
    pub request_path: String,
    pub route: Route,
    pub base_route: BaseRoute,
}

/// Position of the first route at or after `i` that matches the request.
pub open spec fn first_match_from(
    routes: Seq<Route>,
    path: Seq<char>,
    headers: Seq<(String, String)>,
    i: int,
) -> Option<int>
    decreases routes.len() - i,
{
    if i < 0 || i >= routes.len() {
        None
    } else if routes[i].spec_matches(path, headers) {
        Some(i)
    } else {
        first_match_from(routes, path, headers, i + 1)
    }
}

/// Position of the first matching route: declaration order decides, and
/// the first match wins.
pub open spec fn spec_first_match(
    routes: Seq<Route>,
    path: Seq<char>,
    headers: Seq<(String, String)>,
) -> Option<int> {
    first_match_from(routes, path, headers, 0)
}

/// When no route before `k` matches, the search from 0 agrees with the
/// search from `k`.
pub proof fn lemma_first_match_skip(
    routes: Seq<Route>,
    path: Seq<char>,
    headers: Seq<(String, String)>,
    k: int,
)
    requires
        0 <= k <= routes.len(),
        forall|j: int| 0 <= j < k ==> !(#[trigger] routes[j]).spec_matches(path, headers),
    ensures
        spec_first_match(routes, path, headers) == first_match_from(routes, path, headers, k),
    decreases k,
{
    if k > 0 {
        lemma_first_match_skip(routes, path, headers, k - 1);
    }
}

/// The service entry the engine reads for `id`: the unique one carrying it.
pub open spec fn the_service_index(s: Seq<ServiceEntry>, id: u64) -> int {
    choose|i: int| 0 <= i < s.len() && (#[trigger] s[i]).service_id == id
}

/// In a store with unique identifiers, any index carrying `id` is the one
/// the specification names.
pub proof fn lemma_service_index_unique(s: Seq<ServiceEntry>, id: u64, i: int)
    requires
        0 <= i < s.len(),
        s[i].service_id == id,
        forall|p: int, q: int|
            0 <= p < q < s.len() ==> (#[trigger] s[p]).service_id != (#[trigger] s[q]).service_id,
    ensures
        the_service_index(s, id) == i,
{
    assert(services_contain(s, id));
    let c = the_service_index(s, id);
    assert(0 <= c < s.len() && s[c].service_id == id);
    if c < i {
        assert(s[c].service_id != s[i].service_id);
    } else if c > i {
        assert(s[i].service_id != s[c].service_id);
    }
}

/// How a successful match reads: the forward target resolves to `target`,
/// and the returned route and backend are snapshots of the matched route
/// (as configured, before its cursor advanced) and the selected backend.
pub open spec fn result_is_check(
    r: Result<Option<CheckResult>, AppError>,
    target: Seq<char>,
    route: Route,
    backend: BaseRoute,
) -> bool {
    match r {
        Ok(Some(cr)) => cr.request_path@ == target && same_route(cr.route, route)
            && cr.base_route == backend,
        _ => false,
    }
}

/// How the store changes when a request is matched and authorized: only
/// the matched route's round-robin cursor advances past the selected
/// backend; every other part of every service is untouched.
pub open spec fn advanced_config(c0: AppConfig, c1: AppConfig, si: int, ri: int) -> bool {
    let e0 = c0.api_service_config@[si];
    let e1 = c1.api_service_config@[si];
    let r0 = e0.service.service_config.routes@[ri];
    let r1 = e1.service.service_config.routes@[ri];
    &&& c1.static_config == c0.static_config
    &&& c1.next_service_id == c0.next_service_id
    &&& c1.api_service_config@.len() == c0.api_service_config@.len()
    &&& forall|j: int|
        0 <= j < c0.api_service_config@.len() && j != si ==> #[trigger] c1.api_service_config@[j]
            == c0.api_service_config@[j]
    &&& e1.service_id == e0.service_id
    &&& e1.sender == e0.sender
    &&& e1.service.listen_port == e0.service.listen_port
    &&& e1.service.service_config.server_type == e0.service.service_config.server_type
    &&& e1.service.service_config.tls == e0.service.service_config.tls
    &&& e1.service.service_config.routes@.len() == e0.service.service_config.routes@.len()
    &&& forall|k: int|
        0 <= k < e0.service.service_config.routes@.len() && k != ri
            ==> #[trigger] e1.service.service_config.routes@[k]
            == e0.service.service_config.routes@[k]
    &&& r1.prefix == r0.prefix
    &&& r1.required_headers == r0.required_headers
    &&& r1.auth == r0.auth
    &&& r1.route_cluster.backends@ == r0.route_cluster.backends@
    &&& r1.route_cluster.next_index as int == cyc_index(
        r0.route_cluster.backends@.len() as int,
        spec_selected_index(r0.route_cluster),
        1,
    )
}

/// Everything `check_before_request` promises, for every input the
/// specification allows: which error comes on which input, that an
/// unauthorized match and a missed match are the same observable `Ok(None)`
/// with an untouched store, and what a successful check resolves to.
pub open spec fn check_post(
    c0: AppConfig,
    c1: AppConfig,
    id: u64,
    headers: Seq<(String, String)>,
    path: Seq<char>,
    addr: Seq<char>,
    r: Result<Option<CheckResult>, AppError>,
) -> bool {
    let s = c0.api_service_config@;
    if path.len() == 0 {
        r == Err::<Option<CheckResult>, AppError>(AppError::InvalidRequest) && c1 == c0
    } else if !services_contain(s, id) {
        r == Err::<Option<CheckResult>, AppError>(AppError::ConfigurationNotFound) && c1 == c0
    } else {
        let si = the_service_index(s, id);
        let routes = s[si].service.service_config.routes@;
        match spec_first_match(routes, path, headers) {
            None => r == Ok::<Option<CheckResult>, AppError>(None) && c1 == c0,
            Some(ri) => {
                let route = routes[ri];
                if !spec_allowed(route.auth, addr) {
                    r == Ok::<Option<CheckResult>, AppError>(None) && c1 == c0
                } else {
                    let cluster = route.route_cluster;
                    let backend = cluster.backends@[spec_selected_index(cluster)];
                    let rest = path.subrange(route.prefix@.len() as int, path.len() as int);
                    let target = spec_join(backend.endpoint@, rest);
                    &&& advanced_config(c0, c1, si, ri)
                    &&& if spec_is_url(backend.endpoint@) {
                        if url_parse_ok(backend.endpoint@) && url_parse_ok(target) {
                            result_is_check(r, target, route, backend)
                        } else {
                            r == Err::<Option<CheckResult>, AppError>(AppError::RoutingError)
                        }
                    } else {
                        result_is_check(r, target, route, backend)
                    }
                }
            },
        }
    }
}

/// Position of the entry carrying `id`, if any.
fn find_entry(c: &AppConfig, id: u64) -> (r: Option<usize>)
    ensures
        match r {
            Some(i) => i < c.api_service_config@.len()
                && c.api_service_config@[i as int].service_id == id,
            None => !services_contain(c.api_service_config@, id),
        },
{
    let mut i: usize = 0;
    while i < c.api_service_config.len()
        invariant
            i <= c.api_service_config@.len(),
            forall|j: int|
                0 <= j < i ==> (#[trigger] c.api_service_config@[j]).service_id != id,
        decreases c.api_service_config@.len() - i,
    {
        if c.api_service_config[i].service_id == id {
            return Some(i);
        }
        i += 1;
    }
    None
}

/// The first matching route, with the unmatched remainder of the path:
/// routes are tried in declaration order and the first match wins.
fn find_first_match(routes: &Vec<Route>, uri: &String, headers: &Vec<(String, String)>) -> (r:
    Option<(usize, String)>)
    ensures
        match r {
            Some(p) => {
                &&& p.0 < routes@.len()
                &&& spec_first_match(routes@, uri@, headers@) == Some(p.0 as int)
                &&& routes@[p.0 as int].spec_matches(uri@, headers@)
                &&& p.1@ == uri@.subrange(
                    routes@[p.0 as int].prefix@.len() as int,
                    uri@.len() as int,
                )
            },
            None => spec_first_match(routes@, uri@, headers@) is None,
        },
{
    let mut i: usize = 0;
    while i < routes.len()
        invariant
            i <= routes@.len(),
            forall|j: int| 0 <= j < i ==> !(#[trigger] routes@[j]).spec_matches(uri@, headers@),
        decreases routes@.len() - i,
    {
        match routes[i].is_matched(uri, headers) {
            Some(rest) => {
                proof {
                    lemma_first_match_skip(routes@, uri@, headers@, i as int);
                }
                return Some((i, rest));
            },
            None => {},
        }
        i += 1;
    }
    proof {
        lemma_first_match_skip(routes@, uri@, headers@, routes@.len() as int);
    }
    None
}

/// The capability a listener resolves requests through.  Every
/// implementation promises the full matching contract, `check_post`.
pub trait CheckTrait {
    /// Matches one request against the shared configuration: looks the
    /// service up by identifier, walks its routes in declaration order,
    /// authorizes the caller against the first match, selects a backend
    /// round-robin, and resolves the forward target from the unmatched
    /// remainder of the path.  `Ok(None)` — no match — is not an error, and
    /// an unauthorized request is indistinguishable from an unmatched one.
    fn check_before_request(
        &self,
        shared_config: &mut AppConfig,
        api_service_id: u64,
        headers: Vec<(String, String)>,
        uri: String,
        peer_addr: String,
    ) -> (r: Result<Option<CheckResult>, AppError>)
        requires
            old(shared_config).wf(),
            services_wf(*old(shared_config)),
        ensures
            final(shared_config).wf(),
            services_wf(*final(shared_config)),
            check_post(
                *old(shared_config),
                *final(shared_config),
                api_service_id,
                headers@,
                uri@,
                peer_addr@,
                r,
            ),
    ;
}

impl CheckTrait for CommonCheckRequest {
    fn check_before_request(
        &self,
        shared_config: &mut AppConfig,
        api_service_id: u64,
        headers: Vec<(String, String)>,
        uri: String,
        peer_addr: String,
    ) -> (r: Result<Option<CheckResult>, AppError>) {
        if uri.as_str().unicode_len() == 0 {
            return Err(AppError::InvalidRequest);
        }
        let si = match find_entry(shared_config, api_service_id) {
            None => {
                return Err(AppError::ConfigurationNotFound);
            },
            Some(i) => i,
        };
        proof {
            lemma_service_index_unique(
                shared_config.api_service_config@,
                api_service_id,
                si as int,
            );
        }
        let ghost routes_g = shared_config.api_service_config@[si as int].service.service_config.routes@;
        let found = find_first_match(
            &shared_config.api_service_config[si].service.service_config.routes,
            &uri,
            &headers,
        );
        match found {
            None => Ok(None),
            Some((ri, rest_path)) => {
                let allowed = shared_config.api_service_config[si].service.service_config.routes[
                    ri
                ].is_allowed(&peer_addr);
                if !allowed {
                    return Ok(None);
                }
                let ghost c_before = *shared_config;
                let ghost entry0 = c_before.api_service_config@[si as int];
                let mut entry = shared_config.api_service_config.remove(si);
                proof {
                    assert(entry == entry0);
                }
                let mut route = entry.service.service_config.routes.remove(ri);
                let ghost route0 = routes_g[ri as int];
                proof {
                    assert(route == route0);
                }
                let snapshot = route.duplicate();
                let backend = route.route_cluster.get_route();
                let ghost route1 = route;
                entry.service.service_config.routes.insert(ri, route);
                proof {
                    assert(entry.service.service_config.routes@
                        =~= entry0.service.service_config.routes@.update(ri as int, route1));
                }
                let ghost entry1 = entry;
                shared_config.api_service_config.insert(si, entry);
                proof {
                    assert(shared_config.api_service_config@
                        =~= c_before.api_service_config@.update(si as int, entry1));
                    assert(shared_config.api_service_config@[si as int] == entry1);
                    assert(entry1.service.service_config.routes@[ri as int] == route1);
                    assert(route1.prefix == route0.prefix);
                    assert(route1.route_cluster.backends@ == route0.route_cluster.backends@);
                    assert(advanced_config(
                        c_before,
                        *shared_config,
                        si as int,
                        ri as int,
                    ));
                    assert(shared_config.wf());
                    assert forall|i: int| 0 <= i < shared_config.api_service_config@.len() implies (
                    #[trigger] shared_config.api_service_config@[i]).service.wf() by {
                        if i != si {
                            assert(shared_config.api_service_config@[i]
                                == c_before.api_service_config@[i]);
                        }
                    }
                }
                let endpoint_is_url = crate::text::is_url_endpoint(backend.endpoint.as_str());
                let target = crate::text::join_target(&backend.endpoint, &rest_path);
                if endpoint_is_url {
                    if !url_is_valid(backend.endpoint.as_str()) {
                        return Err(AppError::RoutingError);
                    }
                    if !url_is_valid(target.as_str()) {
                        return Err(AppError::RoutingError);
                    }
                    Ok(
                        Some(
                            CheckResult {
                                request_path: target,
                                route: snapshot,
                                base_route: backend,
                            },
                        ),
                    )
                } else {
                    Ok(
                        Some(
                            CheckResult {
                                request_path: target,
                                route: snapshot,
                                base_route: backend,
                            },
                        ),
                    )
                }
            },
        }
    }
}


/// If a route matches, the first match stands at or before it.
proof fn lemma_first_match_bound_from(
    routes: Seq<Route>,
    path: Seq<char>,
    headers: Seq<(String, String)>,
    s: int,
    i: int,
)
    requires
        0 <= s <= i < routes.len(),
        routes[i].spec_matches(path, headers),
    ensures
        first_match_from(routes, path, headers, s) matches Some(k) && s <= k <= i
            && routes[k].spec_matches(path, headers),
    decreases i - s,
{
    if !routes[s].spec_matches(path, headers) {
        lemma_first_match_bound_from(routes, path, headers, s + 1, i);
    }
}

/// First declared wins: when two routes of the same service would both
/// match a request, the selected route stands at or before the earlier of
/// the two, and it matches.
pub proof fn lemma_first_declared_wins(
    routes: Seq<Route>,
    path: Seq<char>,
    headers: Seq<(String, String)>,
    i: int,
    j: int,
)
    requires
        0 <= i < j < routes.len(),
        routes[i].spec_matches(path, headers),
        routes[j].spec_matches(path, headers),
    ensures
        spec_first_match(routes, path, headers) matches Some(k) && k <= i < j
            && routes[k].spec_matches(path, headers),
{
    lemma_first_match_bound_from(routes, path, headers, 0, i);
}

/// Whether two engine results are observably the same: the same error, the
/// same "no match", or successes whose forward target, route snapshot and
/// backend snapshot read the same.
pub open spec fn same_outcome(
    ra: Result<Option<CheckResult>, AppError>,
    rb: Result<Option<CheckResult>, AppError>,
) -> bool {
    match (ra, rb) {
        (Ok(None), Ok(None)) => true,
        (Ok(Some(a)), Ok(Some(b))) => a.request_path@ == b.request_path@ && same_route(
            a.route,
            b.route,
        ) && a.base_route == b.base_route,
        (Err(ea), Err(eb)) => ea == eb,
        _ => false,
    }
}

/// Selection is deterministic: two runs of the engine from the same store
/// on identical requests produce observably identical results.
pub proof fn lemma_selection_deterministic(
    c0: AppConfig,
    c1a: AppConfig,
    c1b: AppConfig,
    id: u64,
    headers: Seq<(String, String)>,
    path: Seq<char>,
    addr: Seq<char>,
    ra: Result<Option<CheckResult>, AppError>,
    rb: Result<Option<CheckResult>, AppError>,
)
    requires
        check_post(c0, c1a, id, headers, path, addr, ra),
        check_post(c0, c1b, id, headers, path, addr, rb),
    ensures
        same_outcome(ra, rb),
{
}

/// An unauthorized-but-matching request is observably identical to a
/// genuinely unmatched one: both come back as `Ok(None)` with the store
/// untouched, so a caller cannot learn whether a route existed.  The
/// nonempty-path proviso costs nothing: an empty path is rejected as
/// `InvalidRequest` before matching, for matched and unmatched requests
/// alike, so the two stay indistinguishable there too.
pub proof fn lemma_unauthorized_like_unmatched(
    c0: AppConfig,
    c1: AppConfig,
    id: u64,
    headers: Seq<(String, String)>,
    path: Seq<char>,
    addr: Seq<char>,
    r: Result<Option<CheckResult>, AppError>,
)
    requires
        check_post(c0, c1, id, headers, path, addr, r),
        path.len() > 0,
        services_contain(c0.api_service_config@, id),
        ({
            let routes = c0.api_service_config@[the_service_index(
                c0.api_service_config@,
                id,
            )].service.service_config.routes@;
            match spec_first_match(routes, path, headers) {
                None => true,
                Some(ri) => !spec_allowed(routes[ri].auth, addr),
            }
        }),
    ensures
        r == Ok::<Option<CheckResult>, AppError>(None),
        c1 == c0,
{
}

} // verus!

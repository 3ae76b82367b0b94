use vstd::prelude::*;

verus! {

/// The protocol a service speaks on its listen port.
#[derive(Clone, Copy, Debug, PartialEq, Eq, Structural)]
pub enum ServiceType {
    Http,
    Https,
    Tcp,
    Http2,
    Http2Tls,
}

/// One forwarding target: a network URL (scheme + host + port) or a local
/// filesystem path, plus the liveness flag maintained by the health-check
/// scheduler.
pub struct BaseRoute {
    pub endpoint: String,
    pub is_alive: bool,
}

impl BaseRoute {
    /// An exact copy, usable where a snapshot must be handed out.
    pub fn duplicate(&self) -> (r: BaseRoute)
        ensures
            r == *self,
    {
        BaseRoute { endpoint: self.endpoint.clone(), is_alive: self.is_alive }
    }
}

/// The authorization rule of a route, evaluated against the caller's
/// network address.
pub enum AuthRule {
    /// Every caller is authorized.
    AllowAll,
    /// Only the listed addresses are authorized.
    AllowList(Vec<String>),
    /// Every caller but the listed addresses is authorized.
    DenyList(Vec<String>),
}

/// Whether `rule` authorizes a caller whose address reads `addr`.
pub open spec fn spec_allowed(rule: AuthRule, addr: Seq<char>) -> bool {
    match rule {
        AuthRule::AllowAll => true,
        AuthRule::AllowList(l) => exists|i: int| 0 <= i < l@.len() && l@[i]@ == addr,
        AuthRule::DenyList(l) => !(exists|i: int| 0 <= i < l@.len() && l@[i]@ == addr),
    }
}

/// Copies a list of strings element for element.
pub fn dup_strings(v: &Vec<String>) -> (r: Vec<String>)
    ensures
        r@ == v@,
{
    let mut out: Vec<String> = Vec::new();
    let mut i: usize = 0;
    while i < v.len()
        invariant
            i <= v.len(),
            out@ =~= v@.subrange(0, i as int),
        decreases v.len() - i,
    {
        out.push(v[i].clone());
        i += 1;
    }
    proof {
        assert(out@ =~= v@);
    }
    out
}

/// Whether two authorization rules hold the same variant over the same
/// address list.
pub open spec fn same_rule(a: AuthRule, b: AuthRule) -> bool {
    match (a, b) {
        (AuthRule::AllowAll, AuthRule::AllowAll) => true,
        (AuthRule::AllowList(x), AuthRule::AllowList(y)) => x@ == y@,
        (AuthRule::DenyList(x), AuthRule::DenyList(y)) => x@ == y@,
        _ => false,
    }
}

/// Rules that read the same authorize the same callers.
pub proof fn lemma_same_rule_allowed(a: AuthRule, b: AuthRule, addr: Seq<char>)
    requires
        same_rule(a, b),
    ensures
        spec_allowed(a, addr) == spec_allowed(b, addr),
{
}

impl AuthRule {
    /// A copy of the rule that reads the same.
    pub fn duplicate(&self) -> (r: AuthRule)
        ensures
            same_rule(r, *self),
    {
        match self {
            AuthRule::AllowAll => AuthRule::AllowAll,
            AuthRule::AllowList(l) => AuthRule::AllowList(dup_strings(l)),
            AuthRule::DenyList(l) => AuthRule::DenyList(dup_strings(l)),
        }
    }

    /// Whether this rule authorizes the caller at `addr`; exact against
    /// `spec_allowed`.
    pub fn is_allowed(&self, addr: &String) -> (r: bool)
        ensures
            r == spec_allowed(*self, addr@),
    {
        match self {
            AuthRule::AllowAll => true,
            AuthRule::AllowList(l) => list_contains(l, addr),
            AuthRule::DenyList(l) => !list_contains(l, addr),
        }
    }
}

/// Whether `v` holds a string whose characters equal `s`'s.
pub fn list_contains(v: &Vec<String>, s: &String) -> (r: bool)
    ensures
        r == exists|i: int| 0 <= i < v@.len() && v@[i]@ == s@,
{
    let mut i: usize = 0;
    while i < v.len()
        invariant
            i <= v.len(),
            forall|j: int| 0 <= j < i ==> v@[j]@ != s@,
        decreases v.len() - i,
    {
        if v[i].eq(s) {
            return true;
        }
        i += 1;
    }
    false
}

/// An ordered cluster of backends together with the round-robin cursor of
/// its selection strategy.
pub struct RouteCluster {
    pub backends: Vec<BaseRoute>,
    pub next_index: usize,
}

/// Whether two clusters hold the same backends with the same cursor.
pub open spec fn same_cluster(a: RouteCluster, b: RouteCluster) -> bool {
    a.backends@ == b.backends@ && a.next_index == b.next_index
}

/// The index `start + k` steps cyclically beyond `start` in a ring of size
/// `len`, for `0 <= start < len` and `0 <= k <= len`.
pub open spec fn cyc_index(len: int, start: int, k: int) -> int {
    if start + k < len {
        start + k
    } else {
        start + k - len
    }
}

/// Whether the backend at cyclic offset `m` from `start` is live.
pub open spec fn alive_at(bs: Seq<BaseRoute>, start: int, m: int) -> bool {
    bs[cyc_index(bs.len() as int, start, m)].is_alive
}

/// Position of the first live backend at or cyclically after `start + k`,
/// expressed as an offset from `start`; `None` when no backend is live.
pub open spec fn alive_offset_from(bs: Seq<BaseRoute>, start: int, k: int) -> Option<int>
    decreases bs.len() - k,
{
    if k < 0 || k >= bs.len() {
        None
    } else if bs[cyc_index(bs.len() as int, start, k)].is_alive {
        Some(k)
    } else {
        alive_offset_from(bs, start, k + 1)
    }
}

/// The index the round-robin strategy selects: the first live backend at or
/// after the cursor, wrapping around; if none is live, the cursor itself
/// (liveness is advisory, never a hard exclusion).
pub open spec fn spec_selected_index(c: RouteCluster) -> int {
    match alive_offset_from(c.backends@, c.next_index as int, 0) {
        Some(k) => cyc_index(c.backends@.len() as int, c.next_index as int, k),
        None => c.next_index as int,
    }
}

impl RouteCluster {
    /// A usable cluster holds at least one backend and keeps its cursor in
    /// range.
    pub open spec fn wf(self) -> bool {
        self.backends@.len() > 0 && self.next_index < self.backends@.len()
    }

    /// A copy of the cluster with the same backends and the same cursor.
    pub fn duplicate(&self) -> (r: RouteCluster)
        ensures
            same_cluster(r, *self),
    {
        let mut bs: Vec<BaseRoute> = Vec::new();
        let mut i: usize = 0;
        while i < self.backends.len()
            invariant
                i <= self.backends.len(),
                bs@ =~= self.backends@.subrange(0, i as int),
            decreases self.backends.len() - i,
        {
            bs.push(self.backends[i].duplicate());
            i += 1;
        }
        proof {
            assert(bs@ =~= self.backends@);
        }
        RouteCluster { backends: bs, next_index: self.next_index }
    }

    /// Round-robin selection: returns a snapshot of the selected backend and
    /// advances the cursor to just past it.
    pub fn get_route(&mut self) -> (r: BaseRoute)
        requires
            old(self).wf(),
        ensures
            final(self).wf(),
            final(self).backends@ == old(self).backends@,
            r == old(self).backends@[spec_selected_index(*old(self))],
            final(self).next_index as int == cyc_index(
                old(self).backends@.len() as int,
                spec_selected_index(*old(self)),
                1,
            ),
    {
        let len = self.backends.len();
        let start = self.next_index;
        let mut k: usize = 0;
        let mut j: usize = start;
        while k < len
            invariant
                self.wf(),
                self.backends@ == old(self).backends@,
                len == self.backends@.len(),
                start == self.next_index,
                start == old(self).next_index,
                k <= len,
                j < len,
                j as int == cyc_index(len as int, start as int, k as int),
                forall|m: int| 0 <= m < k ==> !(#[trigger] alive_at(self.backends@, start as int, m)),
            decreases len - k,
        {
            if self.backends[j].is_alive {
                proof {
                    assert(alive_at(self.backends@, start as int, k as int));
                    lemma_alive_offset_skip(self.backends@, start as int, k as int);
                    assert(alive_offset_from(self.backends@, start as int, k as int) == Some(
                        k as int,
                    ));
                }
                let picked = self.backends[j].duplicate();
                let next = if j + 1 == len {
                    0
                } else {
                    j + 1
                };
                self.next_index = next;
                return picked;
            }
            proof {
                assert(!alive_at(self.backends@, start as int, k as int));
            }
            k += 1;
            j = if j + 1 == len {
                0
            } else {
                j + 1
            };
        }
        proof {
            lemma_alive_offset_skip(self.backends@, start as int, len as int);
            assert(alive_offset_from(self.backends@, start as int, len as int) is None);
        }
        let picked = self.backends[start].duplicate();
        let next = if start + 1 == len {
            0
        } else {
            start + 1
        };
        self.next_index = next;
        picked
    }
}

/// When every offset before `k` is dead, the search that begins at offset 0
/// agrees with the search that begins at offset `k`.
pub proof fn lemma_alive_offset_skip(bs: Seq<BaseRoute>, start: int, k: int)
    requires
        0 <= k <= bs.len(),
        forall|m: int| 0 <= m < k ==> !(#[trigger] alive_at(bs, start, m)),
    ensures
        alive_offset_from(bs, start, 0) == alive_offset_from(bs, start, k),
    decreases k,
{
    if k > 0 {
        lemma_alive_offset_skip(bs, start, k - 1);
        assert(!alive_at(bs, start, k - 1));
        assert(alive_offset_from(bs, start, k - 1) == alive_offset_from(bs, start, k));
    }
}

/// A route: a path-prefix matcher with required header pairs, an
/// authorization rule, and the backend cluster it forwards to.
pub struct Route {
    pub prefix: String,
    pub required_headers: Vec<(String, String)>,
    pub auth: AuthRule,
    pub route_cluster: RouteCluster,
}

/// Whether the header pair `h` carries the same name and value as `req`.
pub open spec fn pair_matches(h: (String, String), req: (String, String)) -> bool {
    h.0@ == req.0@ && h.1@ == req.1@
}

/// Whether some header among `headers` matches the required pair `req`.
pub open spec fn spec_header_found(headers: Seq<(String, String)>, req: (String, String)) -> bool {
    exists|j: int| 0 <= j < headers.len() && #[trigger] pair_matches(headers[j], req)
}

/// Whether the request headers carry every required `(name, value)` pair.
pub open spec fn spec_headers_ok(
    required: Seq<(String, String)>,
    headers: Seq<(String, String)>,
) -> bool {
    forall|i: int| 0 <= i < required.len() ==> spec_header_found(headers, #[trigger] required[i])
}

/// Whether two routes read the same: same matcher, same rule, same cluster.
pub open spec fn same_route(a: Route, b: Route) -> bool {
    a.prefix@ == b.prefix@ && a.required_headers@ == b.required_headers@ && same_rule(
        a.auth,
        b.auth,
    ) && same_cluster(a.route_cluster, b.route_cluster)
}

/// Routes that read the same match the same requests.
pub proof fn lemma_same_route_matches(
    a: Route,
    b: Route,
    path: Seq<char>,
    headers: Seq<(String, String)>,
)
    requires
        same_route(a, b),
    ensures
        a.spec_matches(path, headers) == b.spec_matches(path, headers),
{
}

impl Route {
    pub open spec fn wf(self) -> bool {
        self.route_cluster.wf()
    }

    /// Whether this route matches a request with the given path and headers.
    pub open spec fn spec_matches(self, path: Seq<char>, headers: Seq<(String, String)>) -> bool {
        crate::text::spec_starts_with(path, self.prefix@) && spec_headers_ok(
            self.required_headers@,
            headers,
        )
    }

    /// A copy of the route that reads the same.
    pub fn duplicate(&self) -> (r: Route)
        ensures
            same_route(r, *self),
    {
        let mut hs: Vec<(String, String)> = Vec::new();
        let mut i: usize = 0;
        while i < self.required_headers.len()
            invariant
                i <= self.required_headers.len(),
                hs@ =~= self.required_headers@.subrange(0, i as int),
            decreases self.required_headers.len() - i,
        {
            let pair = (self.required_headers[i].0.clone(), self.required_headers[i].1.clone());
            hs.push(pair);
            i += 1;
        }
        proof {
            assert(hs@ =~= self.required_headers@);
        }
        Route {
            prefix: self.prefix.clone(),
            required_headers: hs,
            auth: self.auth.duplicate(),
            route_cluster: self.route_cluster.duplicate(),
        }
    }

    /// First-phase matching: `Some(rest)` exactly when the route matches,
    /// where `rest` is the part of the path after the matched prefix.
    pub fn is_matched(&self, path: &String, headers: &Vec<(String, String)>) -> (r: Option<
        String,
    >)
        ensures
            match r {
                Some(rest) => self.spec_matches(path@, headers@) && rest@ == path@.subrange(
                    self.prefix@.len() as int,
                    path@.len() as int,
                ),
                None => !self.spec_matches(path@, headers@),
            },
    {
        if !crate::text::str_starts_with(path.as_str(), self.prefix.as_str()) {
            return None;
        }
        if !headers_satisfy(&self.required_headers, headers) {
            return None;
        }
        let plen = self.prefix.as_str().unicode_len();
        proof {
            assert(self.prefix@.is_prefix_of(path@));
        }
        Some(crate::text::str_suffix_from(path.as_str(), plen))
    }

    /// Authorization of a caller address, exact against `spec_allowed`.
    pub fn is_allowed(&self, addr: &String) -> (r: bool)
        ensures
            r == spec_allowed(self.auth, addr@),
    {
        self.auth.is_allowed(addr)
    }
}

/// Whether every required `(name, value)` pair occurs among `headers`;
/// exact against `spec_headers_ok`.
pub fn headers_satisfy(required: &Vec<(String, String)>, headers: &Vec<(String, String)>) -> (r:
    bool)
    ensures
        r == spec_headers_ok(required@, headers@),
{
    let mut i: usize = 0;
    while i < required.len()
        invariant
            i <= required.len(),
            forall|p: int| 0 <= p < i ==> spec_header_found(headers@, #[trigger] required@[p]),
        decreases required.len() - i,
    {
        let mut found = false;
        let mut j: usize = 0;
        while j < headers.len()
            invariant
                i < required.len(),
                j <= headers.len(),
                found ==> spec_header_found(headers@, required@[i as int]),
                !found ==> forall|q: int|
                    0 <= q < j ==> !(#[trigger] pair_matches(headers@[q], required@[i as int])),
            decreases headers.len() - j,
        {
            if !found && headers[j].0.eq(&required[i].0) && headers[j].1.eq(&required[i].1) {
                proof {
                    assert(pair_matches(headers@[j as int], required@[i as int]));
                }
                found = true;
            }
            j += 1;
        }
        if !found {
            proof {
                assert(forall|q: int|
                    0 <= q < headers@.len() ==> !(#[trigger] pair_matches(
                        headers@[q],
                        required@[i as int],
                    )));
                assert(!spec_header_found(headers@, required@[i as int]));
                assert(spec_headers_ok(required@, headers@) ==> spec_header_found(
                    headers@,
                    required@[i as int],
                ));
            }
            return false;
        }
        i += 1;
    }
    true
}

/// The TLS material a TLS-terminating service consumes: already-loaded
/// certificate and private-key bytes, never read from disk by the core.
pub struct TlsMaterial {
    pub cert_pem: Vec<u8>,
    pub key_pem: Vec<u8>,
}

/// Copies a byte buffer element for element.
pub fn dup_bytes(v: &Vec<u8>) -> (r: Vec<u8>)
    ensures
        r@ == v@,
{
    let mut out: Vec<u8> = Vec::new();
    let mut i: usize = 0;
    while i < v.len()
        invariant
            i <= v.len(),
            out@ =~= v@.subrange(0, i as int),
        decreases v.len() - i,
    {
        out.push(v[i]);
        i += 1;
    }
    proof {
        assert(out@ =~= v@);
    }
    out
}

/// Whether two TLS buffers hold the same bytes.
pub open spec fn same_tls(a: TlsMaterial, b: TlsMaterial) -> bool {
    a.cert_pem@ == b.cert_pem@ && a.key_pem@ == b.key_pem@
}

impl TlsMaterial {
    /// A copy of the material holding the same bytes.
    pub fn duplicate(&self) -> (r: TlsMaterial)
        ensures
            same_tls(r, *self),
    {
        TlsMaterial { cert_pem: dup_bytes(&self.cert_pem), key_pem: dup_bytes(&self.key_pem) }
    }
}

/// The routing table and protocol of one service.
pub struct ServiceConfig {
    pub server_type: ServiceType,
    pub routes: Vec<Route>,
    pub tls: Option<TlsMaterial>,
}

/// Whether two service configurations read the same: same protocol, routes
/// that read the same in the same order, and the same TLS bytes.
pub open spec fn same_service_config(a: ServiceConfig, b: ServiceConfig) -> bool {
    &&& a.server_type == b.server_type
    &&& a.routes@.len() == b.routes@.len()
    &&& forall|i: int|
        0 <= i < a.routes@.len() ==> same_route(#[trigger] a.routes@[i], b.routes@[i])
    &&& match (a.tls, b.tls) {
        (None, None) => true,
        (Some(x), Some(y)) => same_tls(x, y),
        _ => false,
    }
}

impl ServiceConfig {
    pub open spec fn wf(self) -> bool {
        forall|i: int| 0 <= i < self.routes@.len() ==> (#[trigger] self.routes@[i]).wf()
    }

    /// A copy of the configuration that reads the same.
    pub fn duplicate(&self) -> (r: ServiceConfig)
        ensures
            same_service_config(r, *self),
    {
        let mut rs: Vec<Route> = Vec::new();
        let mut i: usize = 0;
        while i < self.routes.len()
            invariant
                i <= self.routes.len(),
                rs@.len() == i,
                forall|j: int| 0 <= j < i ==> same_route(#[trigger] rs@[j], self.routes@[j]),
            decreases self.routes.len() - i,
        {
            rs.push(self.routes[i].duplicate());
            i += 1;
        }
        let tls = match &self.tls {
            Some(m) => Some(m.duplicate()),
            None => None,
        };
        ServiceConfig { server_type: self.server_type, routes: rs, tls }
    }
}

/// One externally exposed proxy endpoint: a listen port, a protocol, and a
/// routing table.
pub struct ApiService {
    pub listen_port: i32,
    pub service_config: ServiceConfig,
}

/// Whether two service definitions read the same.
pub open spec fn same_api_service(a: ApiService, b: ApiService) -> bool {
    a.listen_port == b.listen_port && same_service_config(a.service_config, b.service_config)
}

impl ApiService {
    pub open spec fn wf(self) -> bool {
        self.service_config.wf()
    }

    /// A copy of the definition that reads the same.
    pub fn duplicate(&self) -> (r: ApiService)
        ensures
            same_api_service(r, *self),
    {
        ApiService { listen_port: self.listen_port, service_config: self.service_config.duplicate() }
    }
}

/// The statically supplied settings read once at startup.
pub struct StaticConfig {
    pub admin_port: i32,
    pub database_url: Option<String>,
    pub access_log: Option<String>,
    pub config_file_path: Option<String>,
}

/// The admin control-plane port used when the environment supplies none.
pub const DEFAULT_ADMIN_PORT: i32 = 8870;

impl StaticConfig {
    /// The empty settings: default admin port and no optional location.
    pub fn new_default() -> (r: StaticConfig)
        ensures
            r.admin_port == DEFAULT_ADMIN_PORT,
            r.database_url is None,
            r.access_log is None,
            r.config_file_path is None,
    {
        StaticConfig {
            admin_port: DEFAULT_ADMIN_PORT,
            database_url: None,
            access_log: None,
            config_file_path: None,
        }
    }
}

} // verus!

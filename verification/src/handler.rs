use crate::app_config::ApiService;
use crate::app_config::ServiceType;
use crate::app_config::StaticConfig;
use crate::app_config::TlsMaterial;
use crate::app_config::DEFAULT_ADMIN_PORT;
use crate::app_config::same_api_service;
use crate::app_config::same_tls;
use crate::AppError;
use vstd::prelude::*;

verus! {

/// One registered service: the identifier the store issued for it, its
/// definition, and the sending end of its listener's stop channel.
pub struct ServiceEntry {
    pub service_id: u64,
    pub service: ApiService,
    pub sender: tokio::sync::mpsc::Sender<()>,
}

/// Every registered service's routing table is well formed: each route's
/// backend cluster holds at least one backend and a cursor in range.
pub open spec fn services_wf(c: AppConfig) -> bool {
    forall|i: int|
        0 <= i < c.api_service_config@.len() ==> (
        #[trigger] c.api_service_config@[i]).service.wf()
}

/// Whether some entry of `s` carries the identifier `id`.
pub open spec fn services_contain(s: Seq<ServiceEntry>, id: u64) -> bool {
    exists|i: int| 0 <= i < s.len() && (#[trigger] s[i]).service_id == id
}

/// The shared configuration store: the static settings, the registered
/// services, and the counter from which service identifiers are issued.
/// Every task reads and writes it only under the embedding's lock.
pub struct AppConfig {
    pub static_config: StaticConfig,
    pub api_service_config: Vec<ServiceEntry>,
    pub next_service_id: u64,
}

impl AppConfig {
    /// Whether a service with this identifier is registered.
    pub open spec fn spec_contains(self, id: u64) -> bool {
        services_contain(self.api_service_config@, id)
    }

    /// Identifiers are unique and always below the issue counter, so a
    /// freshly issued identifier can never collide with a registered one.
    pub open spec fn wf(self) -> bool {
        &&& forall|i: int|
            0 <= i < self.api_service_config@.len() ==> (
            #[trigger] self.api_service_config@[i]).service_id < self.next_service_id
        &&& forall|i: int, j: int|
            0 <= i < j < self.api_service_config@.len() ==> (
            #[trigger] self.api_service_config@[i]).service_id != (
            #[trigger] self.api_service_config@[j]).service_id
    }

    /// An empty store holding the given static settings.
    pub fn new(static_config: StaticConfig) -> (r: AppConfig)
        ensures
            r.wf(),
            services_wf(r),
            r.api_service_config@.len() == 0,
            r.static_config == static_config,
            r.next_service_id == 0,
    {
        AppConfig { static_config, api_service_config: Vec::new(), next_service_id: 0 }
    }
}

/// The orchestrator: owns the shared configuration store and registers,
/// removes and snapshots services on behalf of the control plane.
pub struct Handler {
    pub shared_app_config: AppConfig,
}

/// What `apply_service` leaves behind: one entry appended under the issued
/// identifier, everything else untouched, and the issue counter advanced.
pub open spec fn apply_post(c0: AppConfig, c1: AppConfig, svc: ApiService, id: u64) -> bool {
    &&& id == c0.next_service_id
    &&& !c0.spec_contains(id)
    &&& c1.spec_contains(id)
    &&& c1.next_service_id == c0.next_service_id + 1
    &&& c1.static_config == c0.static_config
    &&& c1.api_service_config@.len() == c0.api_service_config@.len() + 1
    &&& forall|j: int|
        0 <= j < c0.api_service_config@.len() ==> #[trigger] c1.api_service_config@[j]
            == c0.api_service_config@[j]
    &&& c1.api_service_config@.last().service_id == id
    &&& c1.api_service_config@.last().service == svc
}

/// What a successful `remove_service` leaves behind: the identifier is
/// gone and every other entry survives unchanged, in order.
pub open spec fn remove_service_post(c0: AppConfig, c1: AppConfig, id: u64, idx: int) -> bool {
    &&& 0 <= idx < c0.api_service_config@.len()
    &&& c0.api_service_config@[idx].service_id == id
    &&& c1.api_service_config@ == c0.api_service_config@.remove(idx)
    &&& !c1.spec_contains(id)
    &&& c1.next_service_id == c0.next_service_id
    &&& c1.static_config == c0.static_config
    &&& forall|k: u64|
        k != id ==> #[trigger] services_contain(c1.api_service_config@, k) == services_contain(
            c0.api_service_config@,
            k,
        )
}

impl Handler {
    /// An orchestrator over an empty store with the given settings.
    pub fn new(static_config: StaticConfig) -> (r: Handler)
        ensures
            r.shared_app_config.wf(),
            services_wf(r.shared_app_config),
            r.shared_app_config.api_service_config@.len() == 0,
            r.shared_app_config.static_config == static_config,
            r.shared_app_config.next_service_id == 0,
    {
        Handler { shared_app_config: AppConfig::new(static_config) }
    }

    /// Position of the entry registered under `id`, if any.
    fn find_service(&self, service_id: u64) -> (r: Option<usize>)
        ensures
            match r {
                Some(i) => i < self.shared_app_config.api_service_config@.len()
                    && self.shared_app_config.api_service_config@[i as int].service_id
                    == service_id,
                None => !self.shared_app_config.spec_contains(service_id),
            },
    {
        let entries = &self.shared_app_config.api_service_config;
        let mut i: usize = 0;
        while i < entries.len()
            invariant
                i <= entries@.len(),
                entries@ == self.shared_app_config.api_service_config@,
                forall|j: int| 0 <= j < i ==> (#[trigger] entries@[j]).service_id != service_id,
            decreases entries@.len() - i,
        {
            if entries[i].service_id == service_id {
                return Some(i);
            }
            i += 1;
        }
        None
    }

    /// Registers a service under a freshly issued identifier, creates its
    /// stop channel, and hands back the identifier together with the
    /// receiving end on which its listener waits for the stop signal.
    pub fn apply_service(&mut self, service: ApiService) -> (r: (
        u64,
        tokio::sync::mpsc::Receiver<()>,
    ))
        requires
            old(self).shared_app_config.wf(),
            services_wf(old(self).shared_app_config),
            service.wf(),
            old(self).shared_app_config.next_service_id < u64::MAX,
            old(self).shared_app_config.api_service_config@.len() < usize::MAX,
        ensures
            final(self).shared_app_config.wf(),
            services_wf(final(self).shared_app_config),
            apply_post(old(self).shared_app_config, final(self).shared_app_config, service, r.0),
    {
        let (sender, receiver) = crate::channel::control_channel();
        let id = self.shared_app_config.next_service_id;
        let ghost before = self.shared_app_config.api_service_config@;
        self.shared_app_config.api_service_config.push(
            ServiceEntry { service_id: id, service, sender },
        );
        self.shared_app_config.next_service_id = id + 1;
        proof {
            assert(self.shared_app_config.api_service_config@[before.len() as int].service_id
                == id);
            assert(services_contain(self.shared_app_config.api_service_config@, id));
            assert(forall|j: int|
                0 <= j < before.len() ==> (#[trigger] before[j]).service_id != id);
            assert forall|j: int|
                0 <= j < self.shared_app_config.api_service_config@.len() implies (
            #[trigger] self.shared_app_config.api_service_config@[j]).service.wf() by {
                if j < before.len() {
                    assert(self.shared_app_config.api_service_config@[j]
                        == old(self).shared_app_config.api_service_config@[j]);
                }
            }
        }
        (id, receiver)
    }

    /// Removes the service registered under `service_id`: signals its
    /// listener to stop through the service's own control channel, then
    /// forgets the entry.  Fails with `TaskNotFound` when no service
    /// carries that identifier.
    pub fn remove_service(&mut self, service_id: u64) -> (r: Result<(), AppError>)
        requires
            old(self).shared_app_config.wf(),
            services_wf(old(self).shared_app_config),
        ensures
            final(self).shared_app_config.wf(),
            services_wf(final(self).shared_app_config),
            r is Ok <==> old(self).shared_app_config.spec_contains(service_id),
            r is Err ==> r == Err::<(), AppError>(AppError::TaskNotFound) && *final(self) == *old(self),
            r is Ok ==> exists|idx: int|
                remove_service_post(
                    old(self).shared_app_config,
                    final(self).shared_app_config,
                    service_id,
                    idx,
                ),
    {
        match self.find_service(service_id) {
            None => Err(AppError::TaskNotFound),
            Some(i) => {
                let ghost before = self.shared_app_config.api_service_config@;
                crate::channel::signal_stop(&self.shared_app_config.api_service_config[i].sender);
                let _entry = self.shared_app_config.api_service_config.remove(i);
                proof {
                    lemma_remove_entry_keeps_others(
                        before,
                        self.shared_app_config.api_service_config@,
                        i as int,
                        service_id,
                    );
                    assert(remove_service_post(
                        old(self).shared_app_config,
                        final(self).shared_app_config,
                        service_id,
                        i as int,
                    ));
                    assert forall|j: int|
                        0 <= j < self.shared_app_config.api_service_config@.len() implies (
                    #[trigger] self.shared_app_config.api_service_config@[j]).service.wf() by {
                        if j < i {
                            assert(self.shared_app_config.api_service_config@[j] == before[j]);
                        } else {
                            assert(self.shared_app_config.api_service_config@[j] == before[j + 1]);
                        }
                    }
                }
                Ok(())
            },
        }
    }

    /// A read-only copy of all registered services: each issued identifier
    /// with a definition that reads the same as the stored one.
    pub fn get_snapshot(&self) -> (r: Vec<(u64, ApiService)>)
        ensures
            r@.len() == self.shared_app_config.api_service_config@.len(),
            forall|i: int|
                0 <= i < r@.len() ==> (#[trigger] r@[i]).0
                    == self.shared_app_config.api_service_config@[i].service_id
                    && same_api_service(
                    r@[i].1,
                    self.shared_app_config.api_service_config@[i].service,
                ),
    {
        let entries = &self.shared_app_config.api_service_config;
        let mut out: Vec<(u64, ApiService)> = Vec::new();
        let mut i: usize = 0;
        while i < entries.len()
            invariant
                i <= entries@.len(),
                entries@ == self.shared_app_config.api_service_config@,
                out@.len() == i,
                forall|j: int|
                    0 <= j < i ==> (#[trigger] out@[j]).0 == entries@[j].service_id
                        && same_api_service(out@[j].1, entries@[j].service),
            decreases entries@.len() - i,
        {
            let pair = (entries[i].service_id, entries[i].service.duplicate());
            out.push(pair);
            i += 1;
        }
        out
    }
}

/// Removing the one entry registered under `id` from a store with unique
/// identifiers removes exactly that registration.
proof fn lemma_remove_entry_keeps_others(
    before: Seq<ServiceEntry>,
    after: Seq<ServiceEntry>,
    i: int,
    id: u64,
)
    requires
        0 <= i < before.len(),
        before[i].service_id == id,
        after == before.remove(i),
        forall|p: int, q: int|
            0 <= p < q < before.len() ==> (#[trigger] before[p]).service_id != (
            #[trigger] before[q]).service_id,
    ensures
        forall|p: int, q: int|
            0 <= p < q < after.len() ==> (#[trigger] after[p]).service_id != (
            #[trigger] after[q]).service_id,
        !services_contain(after, id),
        forall|k: u64|
            k != id ==> #[trigger] services_contain(after, k) == services_contain(before, k),
{
    assert forall|p: int, q: int| 0 <= p < q < after.len() implies (
    #[trigger] after[p]).service_id != (#[trigger] after[q]).service_id by {
        assert(after[p] == if p < i {
            before[p]
        } else {
            before[p + 1]
        });
        assert(after[q] == if q < i {
            before[q]
        } else {
            before[q + 1]
        });
    }
    assert forall|j: int| 0 <= j < after.len() implies (#[trigger] after[j]).service_id != id by {
        assert(after[j] == if j < i {
            before[j]
        } else {
            before[j + 1]
        });
    }
    assert forall|k: u64| k != id implies #[trigger] services_contain(after, k)
        == services_contain(before, k) by {
        if services_contain(after, k) {
            let j = choose|j: int| 0 <= j < after.len() && (#[trigger] after[j]).service_id == k;
            if j < i {
                assert(before[j].service_id == k);
            } else {
                assert(before[j + 1].service_id == k);
            }
            assert(services_contain(before, k));
        }
        if services_contain(before, k) {
            let j = choose|j: int| 0 <= j < before.len() && (#[trigger] before[j]).service_id == k;
            if j < i {
                assert(after[j].service_id == k);
                assert(services_contain(after, k));
            } else if j > i {
                assert(after[j - 1].service_id == k);
                assert(services_contain(after, k));
            }
        }
    }
}

/// Builds the static settings from the values the environment supplied:
/// each absent optional stays absent, and an absent admin port falls back
/// to the default constant.
pub fn init_static_config(
    admin_port: Option<i32>,
    database_url: Option<String>,
    access_log: Option<String>,
    config_file_path: Option<String>,
) -> (r: StaticConfig)
    ensures
        r.admin_port == match admin_port {
            Some(p) => p,
            None => DEFAULT_ADMIN_PORT,
        },
        r.database_url == database_url,
        r.access_log == access_log,
        r.config_file_path == config_file_path,
{
    let port = match admin_port {
        Some(p) => p,
        None => DEFAULT_ADMIN_PORT,
    };
    StaticConfig { admin_port: port, database_url, access_log, config_file_path }
}

/// What one listener needs to start: the identifiers and protocol of its
/// service and the receiving end of its stop channel.
pub struct LaunchPlan {
    pub service_id: u64,
    pub listen_port: i32,
    pub server_type: ServiceType,
    pub receiver: tokio::sync::mpsc::Receiver<()>,
}

/// Registers every initially loaded service definition under a fresh
/// identifier and returns one launch plan per definition, in order; an
/// empty list (no configuration file) yields zero plans.
pub fn init_app_service_config(handler: &mut Handler, services: Vec<ApiService>) -> (r: Vec<
    LaunchPlan,
>)
    requires
        old(handler).shared_app_config.wf(),
        services_wf(old(handler).shared_app_config),
        forall|i: int| 0 <= i < services@.len() ==> (#[trigger] services@[i]).wf(),
        old(handler).shared_app_config.next_service_id + services@.len() < u64::MAX,
        old(handler).shared_app_config.api_service_config@.len() + services@.len() < usize::MAX,
    ensures
        final(handler).shared_app_config.wf(),
        services_wf(final(handler).shared_app_config),
        r@.len() == services@.len(),
        final(handler).shared_app_config.api_service_config@.len() == old(handler).shared_app_config.api_service_config@.len() + services@.len(),
        final(handler).shared_app_config.next_service_id == old(handler).shared_app_config.next_service_id + services@.len(),
        final(handler).shared_app_config.static_config == old(handler).shared_app_config.static_config,
        forall|j: int|
            0 <= j < old(handler).shared_app_config.api_service_config@.len() ==> #[trigger] final(handler).shared_app_config.api_service_config@[j] == old(handler).shared_app_config.api_service_config@[j],
        forall|i: int|
            0 <= i < services@.len() ==> {
                let e = #[trigger] final(handler).shared_app_config.api_service_config@[old(handler).shared_app_config.api_service_config@.len() + i];
                e.service_id == old(handler).shared_app_config.next_service_id + i && e.service
                    == services@[i]
            },
        forall|i: int|
            0 <= i < services@.len() ==> {
                let p = #[trigger] r@[i];
                p.service_id == old(handler).shared_app_config.next_service_id + i
                    && p.listen_port == services@[i].listen_port && p.server_type
                    == services@[i].service_config.server_type
            },
{
    let mut remaining = services;
    let mut plans: Vec<LaunchPlan> = Vec::new();
    let ghost all = remaining@;
    let ghost base_len = handler.shared_app_config.api_service_config@.len() as int;
    let ghost base_id = handler.shared_app_config.next_service_id;
    let mut done: usize = 0;
    while remaining.len() > 0
        invariant
            handler.shared_app_config.wf(),
            services_wf(handler.shared_app_config),
            forall|i: int| 0 <= i < all.len() ==> (#[trigger] all[i]).wf(),
            all.len() < usize::MAX,
            done + remaining@.len() == all.len(),
            remaining@ == all.subrange(done as int, all.len() as int),
            plans@.len() == done,
            base_len == old(handler).shared_app_config.api_service_config@.len(),
            base_id == old(handler).shared_app_config.next_service_id,
            base_id + all.len() < u64::MAX,
            base_len + all.len() < usize::MAX,
            handler.shared_app_config.api_service_config@.len() == base_len + done,
            handler.shared_app_config.next_service_id == base_id + done,
            handler.shared_app_config.static_config == old(handler).shared_app_config.static_config,
            forall|j: int|
                0 <= j < base_len ==> #[trigger] handler.shared_app_config.api_service_config@[j]
                    == old(handler).shared_app_config.api_service_config@[j],
            forall|i: int|
                0 <= i < done ==> {
                    let e =
                        #[trigger] handler.shared_app_config.api_service_config@[base_len + i];
                    e.service_id == base_id + i && e.service == all[i]
                },
            forall|i: int|
                0 <= i < done ==> {
                    let p = #[trigger] plans@[i];
                    p.service_id == base_id + i && p.listen_port == all[i].listen_port
                        && p.server_type == all[i].service_config.server_type
                },
        decreases remaining@.len(),
    {
        let svc = remaining.remove(0);
        proof {
            assert(svc == all[done as int]);
        }
        let port = svc.listen_port;
        let server_type = svc.service_config.server_type;
        let (id, receiver) = handler.apply_service(svc);
        plans.push(LaunchPlan { service_id: id, listen_port: port, server_type, receiver });
        done += 1;
        proof {
            assert(remaining@ =~= all.subrange(done as int, all.len() as int));
        }
    }
    plans
}

/// Whether this protocol terminates TLS and therefore needs certificate
/// material before its listener can bind.
pub open spec fn spec_needs_tls(t: ServiceType) -> bool {
    t == ServiceType::Https || t == ServiceType::Http2Tls
}

/// What a listener is to run: its port, its protocol, and — for a
/// TLS-terminating protocol — the certificate material to serve with.
pub struct ListenerPlan {
    pub port: i32,
    pub server_type: ServiceType,
    pub tls: Option<TlsMaterial>,
}

impl Handler {
    /// Resolves how to start one service's listener.  For a TLS-terminating
    /// protocol the certificate material must already be available: its
    /// absence is a fatal `ListenerBindFailure`, never retried.  Every other
    /// protocol starts plain on its port.
    pub fn start_proxy(&self, port: i32, server_type: ServiceType, tls: &Option<TlsMaterial>) -> (r:
        Result<ListenerPlan, AppError>)
        ensures
            match r {
                Ok(p) => {
                    &&& p.port == port
                    &&& p.server_type == server_type
                    &&& (spec_needs_tls(server_type) ==> tls is Some && p.tls is Some && same_tls(
                        p.tls->0,
                        tls->0,
                    ))
                    &&& (!spec_needs_tls(server_type) ==> p.tls is None)
                },
                Err(e) => e == AppError::ListenerBindFailure && spec_needs_tls(server_type)
                    && tls is None,
            },
    {
        if server_type == ServiceType::Https || server_type == ServiceType::Http2Tls {
            match tls {
                None => Err(AppError::ListenerBindFailure),
                Some(m) => Ok(
                    ListenerPlan { port, server_type, tls: Some(m.duplicate()) },
                ),
            }
        } else {
            Ok(ListenerPlan { port, server_type, tls: None })
        }
    }
}


/// Identifiers are unique across the lifetime of the store: two
/// registrations, one after the other, never issue the same identifier,
/// and an issued identifier never collides with one already registered.
pub proof fn lemma_issued_ids_distinct(
    c0: AppConfig,
    c1: AppConfig,
    c2: AppConfig,
    s1: ApiService,
    s2: ApiService,
    id1: u64,
    id2: u64,
)
    requires
        apply_post(c0, c1, s1, id1),
        apply_post(c1, c2, s2, id2),
    ensures
        id1 != id2,
        !c0.spec_contains(id1),
        !c1.spec_contains(id2),
{
}

/// In a well-formed store no two registered services share an identifier.
pub proof fn lemma_store_ids_unique(c: AppConfig, i: int, j: int)
    requires
        c.wf(),
        0 <= i < j < c.api_service_config@.len(),
    ensures
        c.api_service_config@[i].service_id != c.api_service_config@[j].service_id,
{
}

/// Stopping one service leaves every other untouched: each other entry —
/// its definition and its own control channel — survives unchanged, so
/// removing one of two running services cannot affect the other's accept
/// loop.
pub proof fn lemma_remove_leaves_others_running(
    c0: AppConfig,
    c1: AppConfig,
    id: u64,
    idx: int,
    j: int,
)
    requires
        remove_service_post(c0, c1, id, idx),
        0 <= j < c0.api_service_config@.len(),
        j != idx,
    ensures
        exists|j1: int|
            0 <= j1 < c1.api_service_config@.len() && #[trigger] c1.api_service_config@[j1]
                == c0.api_service_config@[j],
{
    if j < idx {
        assert(c1.api_service_config@[j] == c0.api_service_config@[j]);
    } else {
        assert(c1.api_service_config@[j - 1] == c0.api_service_config@[j]);
    }
}


impl Handler {
    /// Boot-time assembly: stores the statically supplied settings, then
    /// registers every initially loaded service definition and returns the
    /// launch plans for their listeners.  An absent configuration file is
    /// valid and arrives here as an empty list, yielding zero plans.
    pub fn run(&mut self, static_config: StaticConfig, initial_services: Vec<ApiService>) -> (r:
        Vec<LaunchPlan>)
        requires
            old(self).shared_app_config.wf(),
            services_wf(old(self).shared_app_config),
            forall|i: int| 0 <= i < initial_services@.len() ==> (#[trigger] initial_services@[i]).wf(),
            old(self).shared_app_config.next_service_id + initial_services@.len() < u64::MAX,
            old(self).shared_app_config.api_service_config@.len() + initial_services@.len()
                < usize::MAX,
        ensures
            final(self).shared_app_config.wf(),
            services_wf(final(self).shared_app_config),
            final(self).shared_app_config.static_config == static_config,
            r@.len() == initial_services@.len(),
            final(self).shared_app_config.api_service_config@.len() == old(
                self,
            ).shared_app_config.api_service_config@.len() + initial_services@.len(),
            forall|i: int|
                0 <= i < initial_services@.len() ==> {
                    let p = #[trigger] r@[i];
                    p.service_id == old(self).shared_app_config.next_service_id + i
                        && p.listen_port == initial_services@[i].listen_port && p.server_type
                        == initial_services@[i].service_config.server_type
                },
    {
        self.shared_app_config.static_config = static_config;
        init_app_service_config(self, initial_services)
    }
}

} // verus!

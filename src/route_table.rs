//! The resolved-target map and the port requirements derived from a route set.

use vstd::prelude::*;
use crate::routes::{Route, RouteType};
use crate::text::{chars_of, decimal, push_decimal, string_from_chars};

verus! {

broadcast use vstd::string::group_string_axioms;

/// Where a routing key forwards to: host, port and whether TLS is on.
#[derive(Debug, Clone)]
pub struct RouteInfo {
    pub target_host: String,
    pub target_port: u16,
    pub ssl_enabled: bool,
}

impl View for RouteInfo {
    type V = (Seq<char>, u16, bool);

    open spec fn view(&self) -> (Seq<char>, u16, bool) {
        (self.target_host@, self.target_port, self.ssl_enabled)
    }
}

/// The key under which a route is resolved: its domain, or
/// `localhost:<source_port>` for a port mapping.
pub open spec fn route_key(rt: RouteType) -> Seq<char> {
    match rt {
        RouteType::Domain { domain, .. } => domain@,
        RouteType::PortMapping { source_port, .. } => "localhost:"@ + decimal(source_port as nat),
    }
}

/// The resolved target of a route.
pub open spec fn route_target(r: Route) -> (Seq<char>, u16, bool) {
    match r.route_type {
        RouteType::Domain { target_host, target_port, .. } => (target_host@, target_port, r.ssl_enabled),
        RouteType::PortMapping { target_host, target_port, .. } => (
            target_host@,
            target_port,
            r.ssl_enabled,
        ),
    }
}

/// The resolved-target map of a route set: every enabled route, in order,
/// writes its target under its key, so a later route wins over an earlier
/// one with the same key.
pub open spec fn resolved_map(routes: Seq<Route>) -> Map<Seq<char>, (Seq<char>, u16, bool)>
    decreases routes.len(),
{
    if routes.len() == 0 {
        Map::empty()
    } else {
        let prev = resolved_map(routes.drop_last());
        let r = routes.last();
        if r.enabled {
            prev.insert(route_key(r.route_type), route_target(r))
        } else {
            prev
        }
    }
}

/// A map from routing keys to resolved targets, with at most one entry per key.
pub struct RouteMap {
    entries: Vec<(String, RouteInfo)>,
    model: Ghost<Map<Seq<char>, (Seq<char>, u16, bool)>>,
}

impl View for RouteMap {
    type V = Map<Seq<char>, (Seq<char>, u16, bool)>;

    closed spec fn view(&self) -> Map<Seq<char>, (Seq<char>, u16, bool)> {
        self.model@
    }
}

impl RouteMap {
    /// The entries have distinct keys and are exactly the map's contents.
    pub closed spec fn wf(&self) -> bool {
        &&& forall|i: int, j: int|
            0 <= i < j < self.entries@.len() ==> #[trigger] self.entries@[i].0@
                != #[trigger] self.entries@[j].0@
        &&& forall|i: int|
            0 <= i < self.entries@.len() ==> self.model@.contains_key(#[trigger] self.entries@[i].0@)
                && self.model@[self.entries@[i].0@] == self.entries@[i].1@
        &&& forall|k: Seq<char>|
            #[trigger] self.model@.contains_key(k) ==> exists|i: int|
                0 <= i < self.entries@.len() && #[trigger] self.entries@[i].0@ == k
    }

    /// An empty map.
    pub fn new() -> (r: RouteMap)
        ensures
            r.wf(),
            r@ == Map::<Seq<char>, (Seq<char>, u16, bool)>::empty(),
    {
        RouteMap { entries: Vec::new(), model: Ghost(Map::empty()) }
    }

    /// Writes `info` under `key`, replacing what was there.
    pub fn insert(&mut self, key: String, info: RouteInfo)
        requires
            old(self).wf(),
        ensures
            final(self).wf(),
            final(self)@ == old(self)@.insert(key@, info@),
    {
        let ghost new_model = self.model@.insert(key@, info@);
        let mut i: usize = 0;
        while i < self.entries.len()
            invariant
                self.wf(),
                self.model@ == old(self).model@,
                self.entries@ == old(self).entries@,
                new_model == old(self).model@.insert(key@, info@),
                i <= self.entries@.len(),
                forall|t: int| 0 <= t < i ==> #[trigger] self.entries@[t].0@ != key@,
            decreases self.entries@.len() - i,
        {
            if self.entries[i].0 == key {
                let ghost old_entries = self.entries@;
                let ghost old_model = self.model@;
                assert(forall|k: Seq<char>|
                    #[trigger] old_model.contains_key(k) ==> exists|t: int|
                        0 <= t < old_entries.len() && #[trigger] old_entries[t].0@ == k);
                self.entries.set(i, (key, info));
                self.model = Ghost(new_model);
                assert forall|k: Seq<char>| #[trigger] self.model@.contains_key(k) implies exists|
                    t: int,
                | 0 <= t < self.entries@.len() && #[trigger] self.entries@[t].0@ == k by {
                    if k != self.entries@[i as int].0@ {
                        assert(old_model.contains_key(k));
                        let t = choose|t: int|
                            0 <= t < old_entries.len() && #[trigger] old_entries[t].0@ == k;
                        assert(self.entries@[t].0@ == k);
                    } else {
                        assert(self.entries@[i as int].0@ == k);
                    }
                }
                return;
            }
            i += 1;
        }
        let ghost old_entries = self.entries@;
        let ghost old_model = self.model@;
        assert(forall|k: Seq<char>|
            #[trigger] old_model.contains_key(k) ==> exists|t: int|
                0 <= t < old_entries.len() && #[trigger] old_entries[t].0@ == k);
        self.entries.push((key, info));
        self.model = Ghost(new_model);
        assert forall|k: Seq<char>| #[trigger] self.model@.contains_key(k) implies exists|t: int|
            0 <= t < self.entries@.len() && #[trigger] self.entries@[t].0@ == k by {
            if k != self.entries@[old_entries.len() as int].0@ {
                assert(old_model.contains_key(k));
                let t = choose|t: int| 0 <= t < old_entries.len() && #[trigger] old_entries[t].0@ == k;
                assert(self.entries@[t].0@ == k);
            } else {
                assert(self.entries@[old_entries.len() as int].0@ == k);
            }
        }
    }

    /// The target stored under `key`, if any.
    pub fn get(&self, key: &String) -> (r: Option<&RouteInfo>)
        requires
            self.wf(),
        ensures
            r is Some <==> self@.contains_key(key@),
            r matches Some(info) ==> self@[key@] == info@,
    {
        let mut i: usize = 0;
        while i < self.entries.len()
            invariant
                self.wf(),
                i <= self.entries@.len(),
                forall|t: int| 0 <= t < i ==> #[trigger] self.entries@[t].0@ != key@,
            decreases self.entries@.len() - i,
        {
            if self.entries[i].0 == *key {
                return Some(&self.entries[i].1);
            }
            i += 1;
        }
        proof {
            if self@.contains_key(key@) {
                let t = choose|t: int|
                    0 <= t < self.entries@.len() && #[trigger] self.entries@[t].0@ == key@;
                assert(self.entries@[t].0@ == key@);
            }
        }
        None
    }
}

/// The key of a route, as text.
pub fn key_of(rt: &RouteType) -> (r: String)
    ensures
        r@ == route_key(*rt),
{
    match rt {
        RouteType::Domain { domain, .. } => domain.clone(),
        RouteType::PortMapping { source_port, .. } => {
            let mut out = chars_of("localhost:");
            push_decimal(&mut out, *source_port);
            string_from_chars(&out)
        },
    }
}

/// The resolved target of a route.
pub fn target_of(route: &Route) -> (r: RouteInfo)
    ensures
        r@ == route_target(*route),
{
    match &route.route_type {
        RouteType::Domain { target_host, target_port, .. } => RouteInfo {
            target_host: target_host.clone(),
            target_port: *target_port,
            ssl_enabled: route.ssl_enabled,
        },
        RouteType::PortMapping { target_host, target_port, .. } => RouteInfo {
            target_host: target_host.clone(),
            target_port: *target_port,
            ssl_enabled: route.ssl_enabled,
        },
    }
}

/// Builds the resolved-target map of a route set from scratch.
pub fn build_route_map(routes: &[Route]) -> (r: RouteMap)
    ensures
        r.wf(),
        r@ == resolved_map(routes@),
{
    let mut map = RouteMap::new();
    let mut i: usize = 0;
    while i < routes.len()
        invariant
            i <= routes@.len(),
            map.wf(),
            map@ == resolved_map(routes@.subrange(0, i as int)),
        decreases routes@.len() - i,
    {
        let route = &routes[i];
        proof {
            assert(routes@.subrange(0, i + 1).drop_last() =~= routes@.subrange(0, i as int));
        }
        if route.enabled {
            map.insert(key_of(&route.route_type), target_of(route));
        }
        i += 1;
    }
    assert(routes@.subrange(0, routes@.len() as int) =~= routes@);
    map
}

/// The port that a TLS listener is bound to.
pub const HTTPS_PORT: u16 = 443;

/// The plain HTTP port that, with TLS on, brings a TLS companion listener.
pub const HTTP_PORT: u16 = 80;

/// Whether an enabled port mapping with TLS on its HTTP port also asks for
/// the TLS port.
pub open spec fn adds_tls_companion(r: Route) -> bool {
    &&& r.enabled
    &&& r.ssl_enabled
    &&& (r.route_type matches RouteType::PortMapping { source_port, .. } && source_port == HTTP_PORT)
}

/// The port requirements of a route set: for every enabled port mapping, in
/// order, its source port maps to its target, and then, where TLS is on and
/// the source port is the HTTP port, the TLS port maps to the same target.
/// A later mapping of a port wins over an earlier one.
pub open spec fn port_requirements(routes: Seq<Route>) -> Map<u16, (Seq<char>, u16)>
    decreases routes.len(),
{
    if routes.len() == 0 {
        Map::empty()
    } else {
        let prev = port_requirements(routes.drop_last());
        let r = routes.last();
        match r.route_type {
            RouteType::PortMapping { source_port, target_host, target_port } => {
                if !r.enabled {
                    prev
                } else if adds_tls_companion(r) {
                    prev.insert(source_port, (target_host@, target_port)).insert(
                        HTTPS_PORT,
                        (target_host@, target_port),
                    )
                } else {
                    prev.insert(source_port, (target_host@, target_port))
                }
            },
            RouteType::Domain { .. } => prev,
        }
    }
}

/// The ports that a route set asks to bind, in route order, with repeats:
/// each enabled port mapping's source port, followed by the TLS port where
/// it adds a TLS companion.
pub open spec fn required_ports(routes: Seq<Route>) -> Seq<u16>
    decreases routes.len(),
{
    if routes.len() == 0 {
        Seq::empty()
    } else {
        let prev = required_ports(routes.drop_last());
        let r = routes.last();
        match r.route_type {
            RouteType::PortMapping { source_port, .. } => {
                if !r.enabled {
                    prev
                } else if adds_tls_companion(r) {
                    prev.push(source_port).push(HTTPS_PORT)
                } else {
                    prev.push(source_port)
                }
            },
            RouteType::Domain { .. } => prev,
        }
    }
}

/// One port to bind and the target it forwards to.
#[derive(Debug, Clone)]
pub struct PortTarget {
    pub port: u16,
    pub target_host: String,
    pub target_port: u16,
}

impl View for PortTarget {
    type V = (u16, Seq<char>, u16);

    open spec fn view(&self) -> (u16, Seq<char>, u16) {
        (self.port, self.target_host@, self.target_port)
    }
}

/// Whether a list of port targets has distinct ports and holds exactly the
/// entries of `m`.
pub open spec fn lists_port_map(s: Seq<PortTarget>, m: Map<u16, (Seq<char>, u16)>) -> bool {
    &&& forall|i: int, j: int| 0 <= i < j < s.len() ==> #[trigger] s[i].port != #[trigger] s[j].port
    &&& forall|i: int|
        0 <= i < s.len() ==> m.contains_key(#[trigger] s[i].port) && m[s[i].port] == (
            s[i].target_host@,
            s[i].target_port,
        )
    &&& forall|p: u16| #[trigger] m.contains_key(p) ==> exists|i: int| 0 <= i < s.len() && #[trigger] s[i].port == p
}

/// Writes `(host, port)` under `key` in a list of port targets.
fn put_port(targets: &mut Vec<PortTarget>, key: u16, host: String, port: u16, Ghost(m): Ghost<
    Map<u16, (Seq<char>, u16)>,
>)
    requires
        lists_port_map(old(targets)@, m),
    ensures
        lists_port_map(final(targets)@, m.insert(key, (host@, port))),
{
    let ghost new_m = m.insert(key, (host@, port));
    let ghost old_t = targets@;
    let mut i: usize = 0;
    while i < targets.len()
        invariant
            targets@ == old_t,
            lists_port_map(old_t, m),
            new_m == m.insert(key, (host@, port)),
            i <= targets@.len(),
            forall|t: int| 0 <= t < i ==> #[trigger] targets@[t].port != key,
        decreases targets@.len() - i,
    {
        if targets[i].port == key {
            targets.set(i, PortTarget { port: key, target_host: host, target_port: port });
            assert forall|p: u16| #[trigger] new_m.contains_key(p) implies exists|t: int|
                0 <= t < targets@.len() && #[trigger] targets@[t].port == p by {
                if p != key {
                    assert(m.contains_key(p));
                    let t = choose|t: int| 0 <= t < old_t.len() && #[trigger] old_t[t].port == p;
                    assert(targets@[t].port == p);
                } else {
                    assert(targets@[i as int].port == p);
                }
            }
            return;
        }
        i += 1;
    }
    targets.push(PortTarget { port: key, target_host: host, target_port: port });
    assert forall|p: u16| #[trigger] new_m.contains_key(p) implies exists|t: int|
        0 <= t < targets@.len() && #[trigger] targets@[t].port == p by {
        if p != key {
            assert(m.contains_key(p));
            let t = choose|t: int| 0 <= t < old_t.len() && #[trigger] old_t[t].port == p;
            assert(targets@[t].port == p);
        } else {
            assert(targets@[old_t.len() as int].port == p);
        }
    }
}

/// The port requirements of a route set, one entry per port, in the order
/// in which the ports first appear.
pub fn build_port_targets(routes: &[Route]) -> (r: Vec<PortTarget>)
    ensures
        lists_port_map(r@, port_requirements(routes@)),
{
    let mut out: Vec<PortTarget> = Vec::new();
    let mut i: usize = 0;
    while i < routes.len()
        invariant
            i <= routes@.len(),
            lists_port_map(out@, port_requirements(routes@.subrange(0, i as int))),
        decreases routes@.len() - i,
    {
        let route = &routes[i];
        let ghost prefix = routes@.subrange(0, i + 1);
        proof {
            assert(prefix.drop_last() =~= routes@.subrange(0, i as int));
            assert(prefix.last() == *route);
        }
        if route.enabled {
            match &route.route_type {
                RouteType::PortMapping { source_port, target_host, target_port } => {
                    let ghost m = port_requirements(routes@.subrange(0, i as int));
                    put_port(&mut out, *source_port, target_host.clone(), *target_port, Ghost(m));
                    if route.ssl_enabled && *source_port == HTTP_PORT {
                        put_port(
                            &mut out,
                            HTTPS_PORT,
                            target_host.clone(),
                            *target_port,
                            Ghost(m.insert(*source_port, (target_host@, *target_port))),
                        );
                    }
                },
                RouteType::Domain { .. } => {},
            }
        }
        i += 1;
    }
    assert(routes@.subrange(0, routes@.len() as int) =~= routes@);
    out
}

/// The ports that a route set asks to bind, in route order, with repeats.
pub fn build_required_ports(routes: &[Route]) -> (r: Vec<u16>)
    ensures
        r@ == required_ports(routes@),
{
    let mut out: Vec<u16> = Vec::new();
    let mut i: usize = 0;
    while i < routes.len()
        invariant
            i <= routes@.len(),
            out@ == required_ports(routes@.subrange(0, i as int)),
        decreases routes@.len() - i,
    {
        let route = &routes[i];
        proof {
            assert(routes@.subrange(0, i + 1).drop_last() =~= routes@.subrange(0, i as int));
        }
        if route.enabled {
            match &route.route_type {
                RouteType::PortMapping { source_port, .. } => {
                    out.push(*source_port);
                    if route.ssl_enabled && *source_port == HTTP_PORT {
                        out.push(HTTPS_PORT);
                    }
                },
                RouteType::Domain { .. } => {},
            }
        }
        i += 1;
    }
    assert(routes@.subrange(0, routes@.len() as int) =~= routes@);
    out
}

/// Whether a route asks for port `p`: it is an enabled port mapping whose
/// source port is `p`, or `p` is the TLS port and the route adds a TLS
/// companion.
pub open spec fn claims_port(r: Route, p: u16) -> bool {
    &&& r.enabled
    &&& (r.route_type matches RouteType::PortMapping { source_port, .. } && (source_port == p || (
    adds_tls_companion(r) && p == HTTPS_PORT)))
}

/// The target that a port mapping forwards its ports to.
pub open spec fn port_target(r: Route) -> (Seq<char>, u16) {
    match r.route_type {
        RouteType::PortMapping { target_host, target_port, .. } => (target_host@, target_port),
        RouteType::Domain { target_host, target_port, .. } => (target_host@, target_port),
    }
}

/// A key is in the rebuilt map exactly when some enabled route has it.
pub proof fn lemma_resolved_keys(routes: Seq<Route>, k: Seq<char>)
    ensures
        resolved_map(routes).contains_key(k) <==> exists|i: int|
            0 <= i < routes.len() && (#[trigger] routes[i]).enabled && route_key(routes[i].route_type) == k,
    decreases routes.len(),
{
    if routes.len() > 0 {
        let prev = routes.drop_last();
        lemma_resolved_keys(prev, k);
        if resolved_map(prev).contains_key(k) {
            let i = choose|i: int|
                0 <= i < prev.len() && (#[trigger] prev[i]).enabled && route_key(prev[i].route_type) == k;
            assert(routes[i] == prev[i]);
        }
        if exists|i: int|
            0 <= i < routes.len() && (#[trigger] routes[i]).enabled && route_key(routes[i].route_type)
                == k {
            let i = choose|i: int|
                0 <= i < routes.len() && (#[trigger] routes[i]).enabled && route_key(
                    routes[i].route_type,
                ) == k;
            if i < routes.len() - 1 {
                assert(prev[i] == routes[i]);
            }
        }
    }
}

/// The rebuilt map holds, under each key, the target of the last enabled
/// route with that key.
pub proof fn lemma_resolved_value(routes: Seq<Route>, i: int)
    requires
        0 <= i < routes.len(),
        routes[i].enabled,
        forall|j: int|
            i < j < routes.len() && (#[trigger] routes[j]).enabled ==> route_key(routes[j].route_type)
                != route_key(routes[i].route_type),
    ensures
        resolved_map(routes).contains_key(route_key(routes[i].route_type)),
        resolved_map(routes)[route_key(routes[i].route_type)] == route_target(routes[i]),
    decreases routes.len(),
{
    if i < routes.len() - 1 {
        let prev = routes.drop_last();
        assert(prev[i] == routes[i]);
        assert forall|j: int|
            i < j < prev.len() && (#[trigger] prev[j]).enabled implies route_key(prev[j].route_type)
            != route_key(prev[i].route_type) by {
            assert(prev[j] == routes[j]);
        }
        lemma_resolved_value(prev, i);
    }
}

/// A port is required exactly when some route asks for it.
pub proof fn lemma_required_port_keys(routes: Seq<Route>, p: u16)
    ensures
        port_requirements(routes).contains_key(p) <==> exists|i: int|
            0 <= i < routes.len() && claims_port(#[trigger] routes[i], p),
    decreases routes.len(),
{
    if routes.len() > 0 {
        let prev = routes.drop_last();
        lemma_required_port_keys(prev, p);
        if port_requirements(prev).contains_key(p) {
            let i = choose|i: int| 0 <= i < prev.len() && claims_port(#[trigger] prev[i], p);
            assert(routes[i] == prev[i]);
        }
        if exists|i: int| 0 <= i < routes.len() && claims_port(#[trigger] routes[i], p) {
            let i = choose|i: int| 0 <= i < routes.len() && claims_port(#[trigger] routes[i], p);
            if i < routes.len() - 1 {
                assert(prev[i] == routes[i]);
            }
        }
    }
}

/// A required port forwards to the target of the last route that asks for it.
pub proof fn lemma_required_port_value(routes: Seq<Route>, i: int, p: u16)
    requires
        0 <= i < routes.len(),
        claims_port(routes[i], p),
        forall|j: int| i < j < routes.len() ==> !claims_port(#[trigger] routes[j], p),
    ensures
        port_requirements(routes).contains_key(p),
        port_requirements(routes)[p] == port_target(routes[i]),
    decreases routes.len(),
{
    if i < routes.len() - 1 {
        let prev = routes.drop_last();
        assert(prev[i] == routes[i]);
        assert forall|j: int| i < j < prev.len() implies !claims_port(#[trigger] prev[j], p) by {
            assert(prev[j] == routes[j]);
        }
        lemma_required_port_value(prev, i, p);
        assert(!claims_port(routes[routes.len() - 1], p));
    }
}

/// Rebuilding is a function of the route set alone: two rebuilds of the same
/// routes hold the same keys with the same targets, namely the keys of the
/// enabled routes, each with the target of the last enabled route that has it.
pub proof fn lemma_rebuild_same_entries(routes: Seq<Route>, first: RouteMap, second: RouteMap)
    requires
        first@ == resolved_map(routes),
        second@ == resolved_map(routes),
    ensures
        first@ == second@,
        forall|k: Seq<char>|
            #[trigger] first@.contains_key(k) <==> exists|i: int|
                0 <= i < routes.len() && (#[trigger] routes[i]).enabled && route_key(
                    routes[i].route_type,
                ) == k,
        forall|i: int|
            0 <= i < routes.len() && (#[trigger] routes[i]).enabled && (forall|j: int|
                i < j < routes.len() && (#[trigger] routes[j]).enabled ==> route_key(
                    routes[j].route_type,
                ) != route_key(routes[i].route_type)) ==> first@[route_key(routes[i].route_type)]
                == route_target(routes[i]),
{
    assert forall|k: Seq<char>| #[trigger] first@.contains_key(k) <==> exists|i: int|
        0 <= i < routes.len() && (#[trigger] routes[i]).enabled && route_key(routes[i].route_type)
            == k by {
        lemma_resolved_keys(routes, k);
    }
    assert forall|i: int|
        0 <= i < routes.len() && (#[trigger] routes[i]).enabled && (forall|j: int|
            i < j < routes.len() && (#[trigger] routes[j]).enabled ==> route_key(
                routes[j].route_type,
            ) != route_key(routes[i].route_type)) implies first@[route_key(routes[i].route_type)]
        == route_target(routes[i]) by {
        lemma_resolved_value(routes, i);
    }
}

/// A disabled route contributes nothing: its key is not in the rebuilt map
/// unless an enabled route has the same key, and the source port of a
/// disabled port mapping is not required unless an enabled route asks for it.
pub proof fn lemma_disabled_route_absent(routes: Seq<Route>, i: int)
    requires
        0 <= i < routes.len(),
        !routes[i].enabled,
    ensures
        (forall|j: int|
            0 <= j < routes.len() && (#[trigger] routes[j]).enabled ==> route_key(routes[j].route_type)
                != route_key(routes[i].route_type)) ==> !resolved_map(routes).contains_key(
            route_key(routes[i].route_type),
        ),
        routes[i].route_type matches RouteType::PortMapping { source_port, .. } ==> ((forall|j: int|
            0 <= j < routes.len() ==> !claims_port(#[trigger] routes[j], source_port))
            ==> !port_requirements(routes).contains_key(source_port)),
{
    lemma_resolved_keys(routes, route_key(routes[i].route_type));
    if let RouteType::PortMapping { source_port, .. } = routes[i].route_type {
        lemma_required_port_keys(routes, source_port);
    }
}

/// An enabled port mapping from the HTTP port with TLS on makes the TLS port
/// required, forwarding to the same target, unless a later route asks for
/// the TLS port; and when no route asks for the TLS port, neither directly
/// nor through such a mapping, it is not required.
pub proof fn lemma_tls_companion(routes: Seq<Route>)
    ensures
        forall|i: int|
            0 <= i < routes.len() && adds_tls_companion(#[trigger] routes[i]) && (forall|j: int|
                i < j < routes.len() ==> !claims_port(#[trigger] routes[j], HTTPS_PORT))
                ==> port_requirements(routes).contains_key(HTTPS_PORT) && port_requirements(
                routes,
            )[HTTPS_PORT] == port_target(routes[i]),
        (forall|j: int| 0 <= j < routes.len() ==> !claims_port(#[trigger] routes[j], HTTPS_PORT))
            ==> !port_requirements(routes).contains_key(HTTPS_PORT),
{
    assert forall|i: int|
        0 <= i < routes.len() && adds_tls_companion(#[trigger] routes[i]) && (forall|j: int|
            i < j < routes.len() ==> !claims_port(#[trigger] routes[j], HTTPS_PORT))
            implies port_requirements(routes).contains_key(HTTPS_PORT) && port_requirements(
        routes,
    )[HTTPS_PORT] == port_target(routes[i]) by {
        lemma_required_port_value(routes, i, HTTPS_PORT);
    }
    lemma_required_port_keys(routes, HTTPS_PORT);
}

} // verus!

//! The proxy lifecycle: which instance is running, the listeners it binds
//! and the live route table it publishes.
//!
//! The library decides; the caller performs. `plan_start` derives what a
//! start needs, `ProxyManager` records the running instance and hands back
//! the listeners that the caller must shut down or bind.

use vstd::prelude::*;
use crate::route_table::{
    claims_port, lemma_required_port_keys, build_port_targets, build_required_ports, build_route_map, lists_port_map, port_requirements,
    required_ports, resolved_map, PortTarget, RouteInfo, RouteMap, HTTPS_PORT, HTTP_PORT,
};
use crate::routes::Route;

verus! {

/// What a status query reports.
#[derive(Debug, Clone)]
pub struct ProxyStatus {
    pub running: bool,
    pub http_port: u16,
    pub https_port: u16,
    pub active_routes: usize,
}

/// The listener map that a list of port targets describes: each port maps
/// to the target of the entry that has it.
pub open spec fn port_map_of(s: Seq<PortTarget>) -> Map<u16, (Seq<char>, u16)> {
    Map::new(
        |p: u16| exists|i: int| 0 <= i < s.len() && #[trigger] s[i].port == p,
        |p: u16|
            {
                let i = choose|i: int| 0 <= i < s.len() && #[trigger] s[i].port == p;
                (s[i].target_host@, s[i].target_port)
            },
    )
}

/// A list that holds exactly the entries of `m` describes `m`.
pub proof fn lemma_port_map_of(s: Seq<PortTarget>, m: Map<u16, (Seq<char>, u16)>)
    requires
        lists_port_map(s, m),
    ensures
        port_map_of(s) == m,
{
    assert forall|p: u16| #[trigger] port_map_of(s).contains_key(p) <==> m.contains_key(p) by {
        if port_map_of(s).contains_key(p) {
            let i = choose|i: int| 0 <= i < s.len() && #[trigger] s[i].port == p;
            assert(m.contains_key(s[i].port));
        }
        if m.contains_key(p) {
            let i = choose|i: int| 0 <= i < s.len() && #[trigger] s[i].port == p;
            assert(port_map_of(s).dom().contains(p));
        }
    }
    assert forall|p: u16| #[trigger] m.contains_key(p) implies port_map_of(s)[p] == m[p] by {
        let i = choose|i: int| 0 <= i < s.len() && #[trigger] s[i].port == p;
        assert(m.contains_key(s[i].port));
    }
    assert(port_map_of(s) =~= m);
}

/// What a running instance holds: the live route table and, per bound
/// port, the target it forwards to.
pub type InstanceView = (Map<Seq<char>, (Seq<char>, u16, bool)>, Map<u16, (Seq<char>, u16)>);

/// The instance that a start with `routes` runs.
pub open spec fn after_start(routes: Seq<Route>) -> Option<InstanceView> {
    Some((resolved_map(routes), port_requirements(routes)))
}

/// No instance runs after a stop.
pub open spec fn after_stop() -> Option<InstanceView> {
    None
}

/// An update republishes the route table of a running instance and keeps
/// its listeners; with no instance running it does nothing.
pub open spec fn after_update(s: Option<InstanceView>, routes: Seq<Route>) -> Option<InstanceView> {
    match s {
        Some(inst) => Some((resolved_map(routes), inst.1)),
        None => None,
    }
}

/// Everything a start derives from a route set.
pub struct StartPlan {
    /// The ports to bind, in route order, with repeats; the caller checks
    /// the permission to bind them before any listener starts.
    pub required_ports: Vec<u16>,
    /// The route table to publish.
    pub route_map: RouteMap,
    /// One listener per port; the one on the TLS port terminates TLS.
    pub listeners: Vec<PortTarget>,
}

impl StartPlan {
    pub open spec fn wf(&self) -> bool {
        &&& self.route_map.wf()
        &&& forall|i: int, j: int|
            0 <= i < j < self.listeners@.len() ==> #[trigger] self.listeners@[i].port
                != #[trigger] self.listeners@[j].port
    }
}

/// Derives the ports, the route table and the listeners of a start.
pub fn plan_start(routes: &[Route]) -> (r: StartPlan)
    ensures
        r.wf(),
        r.required_ports@ == required_ports(routes@),
        r.route_map@ == resolved_map(routes@),
        lists_port_map(r.listeners@, port_requirements(routes@)),
        port_map_of(r.listeners@) == port_requirements(routes@),
{
    let listeners = build_port_targets(routes);
    proof {
        lemma_port_map_of(listeners@, port_requirements(routes@));
    }
    StartPlan {
        required_ports: build_required_ports(routes),
        route_map: build_route_map(routes),
        listeners,
    }
}

impl PortTarget {
    /// Whether the listener on this port terminates TLS.
    pub fn uses_tls(&self) -> (r: bool)
        ensures
            r == (self.port == HTTPS_PORT),
    {
        self.port == HTTPS_PORT
    }
}

struct ProxyInstance {
    route_map: RouteMap,
    listeners: Vec<PortTarget>,
}

/// The single running proxy instance, if any.
pub struct ProxyManager {
    instance: Option<ProxyInstance>,
}

impl View for ProxyManager {
    type V = Option<InstanceView>;

    closed spec fn view(&self) -> Option<InstanceView> {
        match self.instance {
            Some(inst) => Some((inst.route_map@, port_map_of(inst.listeners@))),
            None => None,
        }
    }
}

impl ProxyManager {
    pub closed spec fn wf(&self) -> bool {
        match self.instance {
            Some(inst) => {
                &&& inst.route_map.wf()
                &&& forall|i: int, j: int|
                    0 <= i < j < inst.listeners@.len() ==> #[trigger] inst.listeners@[i].port
                        != #[trigger] inst.listeners@[j].port
            },
            None => true,
        }
    }

    /// A manager with no instance running.
    pub fn new() -> (r: ProxyManager)
        ensures
            r.wf(),
            r@ == after_stop(),
    {
        ProxyManager { instance: None }
    }

    /// Whether an instance is running.
    pub fn is_running(&self) -> (r: bool)
        ensures
            r == (self@ is Some),
    {
        self.instance.is_some()
    }

    /// Ends the running instance, if any, and returns its listeners, which
    /// the caller signals to shut down and waits for; none when nothing ran.
    pub fn stop(&mut self) -> (r: Vec<PortTarget>)
        requires
            old(self).wf(),
        ensures
            final(self).wf(),
            final(self)@ == after_stop(),
            old(self)@ matches Some(inst) ==> port_map_of(r@) == inst.1,
            old(self)@ is None ==> r@.len() == 0,
    {
        match self.instance.take() {
            Some(inst) => inst.listeners,
            None => Vec::new(),
        }
    }

    /// Makes the planned instance the running one. Any instance that ran
    /// before is ended first: its listeners are returned as by `stop`.
    pub fn start(&mut self, plan: StartPlan) -> (r: Vec<PortTarget>)
        requires
            old(self).wf(),
            plan.wf(),
        ensures
            final(self).wf(),
            final(self)@ == Some((plan.route_map@, port_map_of(plan.listeners@))),
            old(self)@ matches Some(inst) ==> port_map_of(r@) == inst.1,
            old(self)@ is None ==> r@.len() == 0,
    {
        let previous = self.stop();
        self.instance = Some(ProxyInstance { route_map: plan.route_map, listeners: plan.listeners });
        previous
    }

    /// Republishes the route table of the running instance from `routes`,
    /// leaving its listeners as they are. Returns whether an instance ran;
    /// with none running nothing changes.
    pub fn update(&mut self, routes: &[Route]) -> (r: bool)
        requires
            old(self).wf(),
        ensures
            final(self).wf(),
            final(self)@ == after_update(old(self)@, routes@),
            r == (old(self)@ is Some),
    {
        match &mut self.instance {
            Some(inst) => {
                inst.route_map = build_route_map(routes);
                true
            },
            None => false,
        }
    }

    /// The live target of `key` in the running instance's route table.
    pub fn lookup(&self, key: &String) -> (r: Option<&RouteInfo>)
        requires
            self.wf(),
        ensures
            r is Some <==> (self@ matches Some(inst) && inst.0.contains_key(key@)),
            r matches Some(info) ==> (self@ matches Some(inst) && inst.0[key@] == info@),
    {
        match &self.instance {
            Some(inst) => inst.route_map.get(key),
            None => None,
        }
    }
}

/// The reported status: whether an instance runs, the fixed HTTP and TLS
/// ports, and a route count that is not tracked and always zero.
pub fn get_status(proxy: &ProxyManager) -> (r: ProxyStatus)
    ensures
        r.running == (proxy@ is Some),
        r.http_port == HTTP_PORT,
        r.https_port == HTTPS_PORT,
        r.active_routes == 0,
{
    ProxyStatus {
        running: proxy.is_running(),
        http_port: HTTP_PORT,
        https_port: HTTPS_PORT,
        active_routes: 0,
    }
}

/// Starting with one route set, stopping, and starting with another leaves
/// listeners on exactly the ports that the second set asks for: a port of
/// the first set stays bound only if the second set asks for it too.
pub proof fn lemma_restart_binds_only_new_ports(first: Seq<Route>, second: Seq<Route>)
    ensures
        after_start(first) is Some,
        after_stop() is None,
        after_start(second) matches Some(inst) && (forall|p: u16|
            #[trigger] inst.1.contains_key(p) <==> exists|i: int|
                0 <= i < second.len() && claims_port(#[trigger] second[i], p)),
        after_start(second) matches Some(inst) && (forall|p: u16|
            #[trigger] port_requirements(first).contains_key(p) && !(exists|i: int|
                0 <= i < second.len() && claims_port(#[trigger] second[i], p)) ==> !inst.1.contains_key(
                p,
            )),
{
    assert forall|p: u16| #[trigger] port_requirements(second).contains_key(p) <==> exists|i: int|
        0 <= i < second.len() && claims_port(#[trigger] second[i], p) by {
        lemma_required_port_keys(second, p);
    }
}

/// An update while running swaps the route table and keeps every listener
/// with its target; with nothing running it changes nothing. Publishing the
/// same route set again changes nothing further.
pub proof fn lemma_update_keeps_listeners(s: Option<InstanceView>, routes: Seq<Route>)
    ensures
        after_update(s, routes) is Some <==> s is Some,
        s matches Some(inst) ==> after_update(s, routes) == Some((resolved_map(routes), inst.1)),
        after_update(after_update(s, routes), routes) == after_update(s, routes),
{
}

} // verus!

//! The rule engine: turn declarative destination CIDRs plus a gateway address
//! into validated route entries, detect conflicts, and keep the per-container
//! ledger of installed routes for cleanup.

use vstd::prelude::*;
use vstd::string::StringExecFns;
use crate::error::RouteError;
use crate::ip::{IpAddress, Ipv4Address, Ipv6Address};
use crate::routing::{IpNetwork, RouteEntry, RouteEntryV};

verus! {

/// What `ipnetwork`'s CIDR parser yields on a given string: the canonical
/// network (host bits cleared) and prefix, or nothing when the string is not
/// a valid CIDR or address.
pub uninterp spec fn parsed_cidr(s: Seq<char>) -> Option<IpNetwork>;

/// Relies on `ipnetwork::IpNetwork`'s `FromStr` together with its `network()`
/// and `prefix()` accessors: parsing depends on the string alone; `network()`
/// is the lowest address of the network and `prefix()` its prefix length.
#[verifier::external_body]
pub(crate) fn parse_cidr(s: &str) -> (r: Result<IpNetwork, String>)
    ensures
        r matches Ok(n) ==> parsed_cidr(s@) == Some(n),
        r is Err ==> parsed_cidr(s@) is None,
{
    match s.parse::<ipnetwork::IpNetwork>() {
        Ok(ipnetwork::IpNetwork::V4(net)) => Ok(
            IpNetwork::V4 {
                addr: Ipv4Address { bits: u32::from(net.network()) },
                prefix: net.prefix(),
            },
        ),
        Ok(ipnetwork::IpNetwork::V6(net)) => Ok(
            IpNetwork::V6 {
                addr: Ipv6Address { bits: u128::from(net.network()) },
                prefix: net.prefix(),
            },
        ),
        Err(e) => Err(e.to_string()),
    }
}

/// View of an optional interface name.
pub open spec fn opt_str_view(o: Option<String>) -> Option<Seq<char>> {
    match o {
        Some(s) => Some(s@),
        None => None,
    }
}

/// The route a single rule yields: the parsed destination, the warp gateway,
/// the configured interface, and the rule-route metric of 100.
pub open spec fn rule_route(dest: IpNetwork, gw: IpAddress, iface: Option<Seq<char>>)
    -> RouteEntryV {
    RouteEntryV { destination: dest, gateway: gw, interface: iface, metric: Some(100u32) }
}

/// What computing routes for one destination CIDR yields: the single rule
/// route when the CIDR parses and the route is well formed, nothing otherwise.
pub open spec fn spec_calculate_routes(cidr: Seq<char>, gw: IpAddress, iface: Option<Seq<char>>)
    -> Option<Seq<RouteEntryV>> {
    match parsed_cidr(cidr) {
        Option::None => Option::None,
        Option::Some(n) => {
            let route = rule_route(n, gw, iface);
            if route.valid() {
                Option::Some(seq![route])
            } else {
                Option::None
            }
        },
    }
}

/// Two routes conflict exactly when they name the same destination but
/// different gateways. Overlapping but unequal destinations do not conflict.
pub open spec fn routes_conflict_v(a: RouteEntryV, b: RouteEntryV) -> bool {
    a.destination == b.destination && a.gateway != b.gateway
}

/// No two routes of the sequence conflict.
pub open spec fn no_conflicts(routes: Seq<RouteEntryV>) -> bool {
    forall|i: int, j: int|
        0 <= i < routes.len() && 0 <= j < routes.len() && i != j ==> !routes_conflict_v(
            routes[i],
            routes[j],
        )
}

/// What computing routes for a sequence of destination CIDRs yields, in input
/// order: the concatenation of each CIDR's routes, or nothing as soon as one
/// CIDR fails.
pub open spec fn spec_multi_routes(cidrs: Seq<Seq<char>>, gw: IpAddress, iface: Option<Seq<char>>)
    -> Option<Seq<RouteEntryV>>
    decreases cidrs.len(),
{
    if cidrs.len() == 0 {
        Option::Some(Seq::empty())
    } else {
        match spec_calculate_routes(cidrs[0], gw, iface) {
            Option::None => Option::None,
            Option::Some(rs) => match spec_multi_routes(
                cidrs.subrange(1, cidrs.len() as int),
                gw,
                iface,
            ) {
                Option::None => Option::None,
                Option::Some(rest) => Option::Some(rs + rest),
            },
        }
    }
}

/// The default route for the gateway's family: destination `0.0.0.0/0` or
/// `::/0`, metric 200.
pub open spec fn default_route_v(gw: IpAddress) -> RouteEntryV {
    RouteEntryV {
        destination: match gw {
            IpAddress::V4(_) => IpNetwork::V4 { addr: Ipv4Address { bits: 0 }, prefix: 0 },
            IpAddress::V6(_) => IpNetwork::V6 { addr: Ipv6Address { bits: 0 }, prefix: 0 },
        },
        gateway: gw,
        interface: Option::None,
        metric: Option::Some(200u32),
    }
}

/// The host route for one address: destination `host/32` or `host/128`,
/// metric 50.
pub open spec fn host_route_v(host: IpAddress, gw: IpAddress) -> RouteEntryV {
    RouteEntryV {
        destination: match host {
            IpAddress::V4(a) => IpNetwork::V4 { addr: a, prefix: 32 },
            IpAddress::V6(a) => IpNetwork::V6 { addr: a, prefix: 128 },
        },
        gateway: gw,
        interface: Option::None,
        metric: Option::Some(50u32),
    }
}

/// Routing rule calculator: computes and validates route entries and tracks,
/// per container, the routes installed for it.
pub struct RoutingRuleCalculator {
    container_routes: Vec<(String, Vec<RouteEntry>)>,
}

impl RoutingRuleCalculator {
    /// Validate a route: families must agree, the prefix must fit the family,
    /// and a present metric must not be zero.
    pub fn validate_route(&self, route: &RouteEntry) -> (r: Result<(), RouteError>)
        ensures
            r is Ok <==> route@.valid(),
            r matches Err(e) ==> e matches RouteError::InvalidRoute(_),
    {
        match (&route.destination, &route.gateway) {
            (IpNetwork::V4 { .. }, IpAddress::V4(_)) => (),
            (IpNetwork::V6 { .. }, IpAddress::V6(_)) => (),
            _ => {
                return Err(
                    RouteError::InvalidRoute(
                        String::from_str("IP version mismatch between destination and gateway"),
                    ),
                );
            },
        }
        match &route.destination {
            IpNetwork::V4 { prefix, .. } => {
                if *prefix > 32 {
                    return Err(
                        RouteError::InvalidRoute(String::from_str("Invalid IPv4 prefix length")),
                    );
                }
            },
            IpNetwork::V6 { prefix, .. } => {
                if *prefix > 128 {
                    return Err(
                        RouteError::InvalidRoute(String::from_str("Invalid IPv6 prefix length")),
                    );
                }
            },
        }
        if let Some(metric) = route.metric {
            if metric == 0 {
                return Err(RouteError::InvalidRoute(String::from_str("Route metric cannot be zero")));
            }
        }
        Ok(())
    }

    /// Whether two routes conflict: same destination, different gateway.
    fn routes_conflict(&self, route1: &RouteEntry, route2: &RouteEntry) -> (r: bool)
        ensures
            r == routes_conflict_v(route1@, route2@),
    {
        if route1.destination == route2.destination {
            return route1.gateway != route2.gateway;
        }
        false
    }

    /// Report an error exactly when some two routes of the set conflict.
    pub fn detect_route_conflicts(&self, routes: &Vec<RouteEntry>) -> (r: Result<(), RouteError>)
        ensures
            r is Ok <==> no_conflicts(routes@.map_values(|e: RouteEntry| e@)),
            r matches Err(e) ==> e matches RouteError::RouteConflict(_),
    {
        let ghost rv = routes@.map_values(|e: RouteEntry| e@);
        let n = routes.len();
        let mut i: usize = 0;
        while i < n
            invariant
                n == routes@.len(),
                rv == routes@.map_values(|e: RouteEntry| e@),
                i <= n,
                forall|x: int, y: int|
                    0 <= x < i && 0 <= y < n && x != y ==> !routes_conflict_v(rv[x], rv[y]),
            decreases n - i,
        {
            let mut j: usize = 0;
            while j < n
                invariant
                    n == routes@.len(),
                    rv == routes@.map_values(|e: RouteEntry| e@),
                    i < n,
                    j <= n,
                    forall|x: int, y: int|
                        0 <= x < i && 0 <= y < n && x != y ==> !routes_conflict_v(rv[x], rv[y]),
                    forall|y: int| 0 <= y < j && y != i ==> !routes_conflict_v(rv[i as int], rv[y]),
                decreases n - j,
            {
                if i != j && self.routes_conflict(&routes[i], &routes[j]) {
                    proof {
                        assert(rv[i as int] == routes@[i as int]@);
                        assert(rv[j as int] == routes@[j as int]@);
                        assert(routes_conflict_v(rv[i as int], rv[j as int]));
                    }
                    return Err(
                        RouteError::RouteConflict(
                            String::from_str("identical destination with different gateways"),
                        ),
                    );
                }
                j += 1;
            }
            proof {
                assert forall|x: int, y: int|
                    0 <= x < i + 1 && 0 <= y < n && x != y implies !routes_conflict_v(
                    rv[x],
                    rv[y],
                ) by {
                    if x == i {
                    } else if y == i {
                        assert(!routes_conflict_v(rv[y], rv[x]));
                    }
                }
            }
            i += 1;
        }
        Ok(())
    }

    /// Compute the route for one destination CIDR toward the given gateway:
    /// the destination parsed, gateway attached, metric 100, then validated.
    pub fn calculate_routes(
        &self,
        destination_cidr: &str,
        gateway_ip: IpAddress,
        interface: Option<String>,
    ) -> (r: Result<Vec<RouteEntry>, RouteError>)
        ensures
            match r {
                Ok(routes) => spec_calculate_routes(
                    destination_cidr@,
                    gateway_ip,
                    opt_str_view(interface),
                ) == Some(routes@.map_values(|e: RouteEntry| e@)),
                Err(e) => {
                    &&& spec_calculate_routes(
                        destination_cidr@,
                        gateway_ip,
                        opt_str_view(interface),
                    ) is None
                    &&& e matches RouteError::InvalidRoute(_)
                },
            },
    {
        let network = match parse_cidr(destination_cidr) {
            Ok(n) => n,
            Err(m) => {
                return Err(RouteError::InvalidRoute(m));
            },
        };
        let route = RouteEntry {
            destination: network,
            gateway: gateway_ip,
            interface,
            metric: Some(100),
        };
        match self.validate_route(&route) {
            Ok(_) => (),
            Err(e) => {
                return Err(e);
            },
        }
        let mut routes: Vec<RouteEntry> = Vec::new();
        let ghost routev = route@;
        routes.push(route);
        proof {
            assert(routes@.map_values(|e: RouteEntry| e@) =~= seq![routev]);
        }
        Ok(routes)
    }

    /// Compute the routes for several destination CIDRs, in input order, and
    /// report a conflict if two of them name one destination with different
    /// gateways.
    pub fn calculate_multiple_routes(
        &self,
        destination_cidrs: &Vec<String>,
        gateway_ip: IpAddress,
        interface: Option<String>,
    ) -> (r: Result<Vec<RouteEntry>, RouteError>)
        ensures
            match r {
                Ok(routes) => {
                    &&& spec_multi_routes(
                        destination_cidrs@.map_values(|s: String| s@),
                        gateway_ip,
                        opt_str_view(interface),
                    ) == Some(routes@.map_values(|e: RouteEntry| e@))
                    &&& no_conflicts(routes@.map_values(|e: RouteEntry| e@))
                },
                Err(e) => match spec_multi_routes(
                    destination_cidrs@.map_values(|s: String| s@),
                    gateway_ip,
                    opt_str_view(interface),
                ) {
                    Option::None => e matches RouteError::InvalidRoute(_),
                    Option::Some(rs) => !no_conflicts(rs) && e
                        matches RouteError::RouteConflict(_),
                },
            },
    {
        let ghost cidrsv = destination_cidrs@.map_values(|s: String| s@);
        let ghost ifacev = opt_str_view(interface);
        let n = destination_cidrs.len();
        let mut routes: Vec<RouteEntry> = Vec::new();
        let mut i: usize = 0;
        proof {
            assert(cidrsv.subrange(0, cidrsv.len() as int) =~= cidrsv);
            assert(routes@.map_values(|e: RouteEntry| e@) =~= Seq::<RouteEntryV>::empty());
        }
        while i < n
            invariant
                n == destination_cidrs@.len(),
                cidrsv == destination_cidrs@.map_values(|s: String| s@),
                ifacev == opt_str_view(interface),
                i <= n,
                match spec_multi_routes(cidrsv.subrange(i as int, n as int), gateway_ip, ifacev) {
                    Option::None => spec_multi_routes(cidrsv, gateway_ip, ifacev) is None,
                    Option::Some(rest) => spec_multi_routes(cidrsv, gateway_ip, ifacev) == Some(
                        routes@.map_values(|e: RouteEntry| e@) + rest,
                    ),
                },
            decreases n - i,
        {
            let ghost restv = cidrsv.subrange(i as int, n as int);
            let iface_clone = crate::container::clone_opt_string(&interface);
            let mut cidr_routes = match self.calculate_routes(
                destination_cidrs[i].as_str(),
                gateway_ip,
                iface_clone,
            ) {
                Ok(rs) => rs,
                Err(e) => {
                    proof {
                        assert(restv[0] == cidrsv[i as int]);
                    }
                    return Err(e);
                },
            };
            proof {
                assert(restv[0] == cidrsv[i as int]);
                assert(restv.subrange(1, restv.len() as int) =~= cidrsv.subrange(
                    i + 1,
                    n as int,
                ));
            }
            let ghost old_routes = routes@;
            let ghost added = cidr_routes@;
            routes.append(&mut cidr_routes);
            proof {
                assert(routes@ == old_routes + added);
                assert(routes@.map_values(|e: RouteEntry| e@) =~= old_routes.map_values(
                    |e: RouteEntry| e@,
                ) + added.map_values(|e: RouteEntry| e@));
                match spec_multi_routes(cidrsv.subrange(i + 1, n as int), gateway_ip, ifacev) {
                    Option::Some(rest) => {
                        assert(old_routes.map_values(|e: RouteEntry| e@) + (added.map_values(
                            |e: RouteEntry| e@,
                        ) + rest) =~= routes@.map_values(|e: RouteEntry| e@) + rest);
                    },
                    Option::None => {},
                }
            }
            i += 1;
        }
        proof {
            assert(cidrsv.subrange(n as int, n as int) =~= Seq::<Seq<char>>::empty());
            assert(routes@.map_values(|e: RouteEntry| e@) + Seq::<RouteEntryV>::empty()
                =~= routes@.map_values(|e: RouteEntry| e@));
        }
        match self.detect_route_conflicts(&routes) {
            Ok(_) => Ok(routes),
            Err(e) => Err(e),
        }
    }

    /// The default route toward the gateway: destination `0.0.0.0/0` or
    /// `::/0` by the gateway's family, metric 200.
    pub fn calculate_default_route(&self, gateway_ip: IpAddress) -> (r: Result<
        RouteEntry,
        RouteError,
    >)
        ensures
            r matches Ok(route) && route@ == default_route_v(gateway_ip),
    {
        let destination = match gateway_ip {
            IpAddress::V4(_) => IpNetwork::V4 { addr: Ipv4Address { bits: 0 }, prefix: 0 },
            IpAddress::V6(_) => IpNetwork::V6 { addr: Ipv6Address { bits: 0 }, prefix: 0 },
        };
        let route = RouteEntry {
            destination,
            gateway: gateway_ip,
            interface: None,
            metric: Some(200),
        };
        match self.validate_route(&route) {
            Ok(_) => Ok(route),
            Err(e) => {
                proof {
                    assert(false);
                }
                Err(e)
            },
        }
    }

    /// The host route for one address toward the gateway: destination
    /// `host/32` or `host/128`, metric 50.
    pub fn calculate_host_route(&self, host_ip: IpAddress, gateway_ip: IpAddress) -> (r: Result<
        RouteEntry,
        RouteError,
    >)
        ensures
            match r {
                Ok(route) => {
                    &&& host_ip.family() == gateway_ip.family()
                    &&& route@ == host_route_v(host_ip, gateway_ip)
                },
                Err(e) => {
                    &&& host_ip.family() != gateway_ip.family()
                    &&& e matches RouteError::InvalidRoute(_)
                },
            },
    {
        let destination = match host_ip {
            IpAddress::V4(a) => IpNetwork::V4 { addr: a, prefix: 32 },
            IpAddress::V6(a) => IpNetwork::V6 { addr: a, prefix: 128 },
        };
        let route = RouteEntry {
            destination,
            gateway: gateway_ip,
            interface: None,
            metric: Some(50),
        };
        match self.validate_route(&route) {
            Ok(_) => Ok(route),
            Err(e) => Err(e),
        }
    }
}

} // verus!

verus! {

/// The ledger a sequence of (container id, routes) entries denotes: a map
/// from container id to the views of its installed routes.
pub open spec fn ledger_map_of(entries: Seq<(String, Vec<RouteEntry>)>) -> Map<
    Seq<char>,
    Seq<RouteEntryV>,
>
    decreases entries.len(),
{
    if entries.len() == 0 {
        Map::empty()
    } else {
        ledger_map_of(entries.drop_last()).insert(
            entries.last().0@,
            entries.last().1@.map_values(|r: RouteEntry| r@),
        )
    }
}

/// The entries carry pairwise distinct container ids.
pub open spec fn ledger_entries_wf(entries: Seq<(String, Vec<RouteEntry>)>) -> bool {
    forall|i: int, j: int|
        0 <= i < entries.len() && 0 <= j < entries.len() && i != j ==> entries[i].0@
            != entries[j].0@
}

proof fn lemma_ledger_lookup(entries: Seq<(String, Vec<RouteEntry>)>, i: int)
    requires
        ledger_entries_wf(entries),
        0 <= i < entries.len(),
    ensures
        ledger_map_of(entries).contains_key(entries[i].0@),
        ledger_map_of(entries)[entries[i].0@] == entries[i].1@.map_values(|r: RouteEntry| r@),
    decreases entries.len(),
{
    if i < entries.len() - 1 {
        assert(ledger_entries_wf(entries.drop_last()));
        assert(entries.drop_last()[i] == entries[i]);
        lemma_ledger_lookup(entries.drop_last(), i);
        assert(entries.last().0@ != entries[i].0@);
    }
}

proof fn lemma_ledger_absent(entries: Seq<(String, Vec<RouteEntry>)>, key: Seq<char>)
    requires
        forall|i: int| 0 <= i < entries.len() ==> entries[i].0@ != key,
    ensures
        !ledger_map_of(entries).contains_key(key),
    decreases entries.len(),
{
    if entries.len() > 0 {
        assert forall|i: int| 0 <= i < entries.len() - 1 implies entries.drop_last()[i].0@
            != key by {
            assert(entries.drop_last()[i] == entries[i]);
        }
        lemma_ledger_absent(entries.drop_last(), key);
    }
}

/// A key is in the ledger map exactly when some entry carries it.
proof fn lemma_ledger_dom(entries: Seq<(String, Vec<RouteEntry>)>, key: Seq<char>)
    ensures
        ledger_map_of(entries).contains_key(key) <==> exists|i: int|
            0 <= i < entries.len() && entries[i].0@ == key,
    decreases entries.len(),
{
    if entries.len() > 0 {
        lemma_ledger_dom(entries.drop_last(), key);
        if entries.last().0@ == key {
            assert(entries[entries.len() - 1].0@ == key);
        } else {
            if ledger_map_of(entries).contains_key(key) {
                let w = choose|i: int|
                    0 <= i < entries.len() - 1 && entries.drop_last()[i].0@ == key;
                assert(entries[w].0@ == key);
            }
            if exists|i: int| 0 <= i < entries.len() && entries[i].0@ == key {
                let w = choose|i: int| 0 <= i < entries.len() && entries[i].0@ == key;
                assert(w < entries.len() - 1);
                assert(entries.drop_last()[w].0@ == key);
            }
        }
    }
}

proof fn lemma_ledger_remove_at(entries: Seq<(String, Vec<RouteEntry>)>, i: int)
    requires
        ledger_entries_wf(entries),
        0 <= i < entries.len(),
    ensures
        ledger_map_of(entries.remove(i)) =~= ledger_map_of(entries).remove(entries[i].0@),
    decreases entries.len(),
{
    let key = entries[i].0@;
    if i == entries.len() - 1 {
        assert(entries.remove(i) =~= entries.drop_last());
        assert forall|j: int| 0 <= j < entries.drop_last().len() implies entries.drop_last()[j].0@
            != key by {
            assert(entries.drop_last()[j] == entries[j]);
        }
        lemma_ledger_absent(entries.drop_last(), key);
    } else {
        let shorter = entries.drop_last();
        assert(ledger_entries_wf(shorter));
        assert(shorter[i] == entries[i]);
        lemma_ledger_remove_at(shorter, i);
        assert(entries.remove(i).drop_last() =~= shorter.remove(i));
        assert(entries.remove(i).last() == entries.last());
        assert(entries.last().0@ != key);
    }
}

/// Get routes for cleanup, the ledger and its operations.
impl RoutingRuleCalculator {
    /// The ledger: container id to the routes installed for it.
    pub closed spec fn ledger(self) -> Map<Seq<char>, Seq<RouteEntryV>> {
        ledger_map_of(self.container_routes@)
    }

    /// Well-formedness: ledger entries carry pairwise distinct ids.
    pub closed spec fn wf(self) -> bool {
        ledger_entries_wf(self.container_routes@)
    }

    /// A calculator with an empty ledger.
    pub fn new() -> (r: Self)
        ensures
            r.wf(),
            r.ledger() == Map::<Seq<char>, Seq<RouteEntryV>>::empty(),
    {
        RoutingRuleCalculator { container_routes: Vec::new() }
    }

    /// Index of the entry with this id, if one exists.
    fn find_entry(&self, container_id: &str) -> (r: Option<usize>)
        ensures
            match r {
                Some(i) => i < self.container_routes@.len()
                    && self.container_routes@[i as int].0@ == container_id@,
                None => forall|j: int|
                    0 <= j < self.container_routes@.len() ==> self.container_routes@[j].0@
                        != container_id@,
            },
    {
        let n = self.container_routes.len();
        let mut i: usize = 0;
        while i < n
            invariant
                n == self.container_routes@.len(),
                i <= n,
                forall|j: int| 0 <= j < i ==> self.container_routes@[j].0@ != container_id@,
            decreases n - i,
        {
            if crate::text::str_eq(self.container_routes[i].0.as_str(), container_id) {
                return Some(i);
            }
            i += 1;
        }
        None
    }

    /// Record the routes installed for a container, replacing any earlier
    /// record for the same id.
    pub fn track_container_routes(&mut self, container_id: String, routes: Vec<RouteEntry>)
        requires
            old(self).wf(),
        ensures
            final(self).wf(),
            final(self).ledger() == old(self).ledger().insert(
                container_id@,
                routes@.map_values(|r: RouteEntry| r@),
            ),
    {
        let ghost oldseq = self.container_routes@;
        match self.find_entry(container_id.as_str()) {
            Some(i) => {
                proof {
                    lemma_ledger_remove_at(oldseq, i as int);
                }
                let _ = self.container_routes.remove(i);
                let ghost midseq = self.container_routes@;
                proof {
                    assert forall|x: int, y: int|
                        0 <= x < midseq.len() && 0 <= y < midseq.len() && x != y implies midseq[x].0@ != midseq[y].0@ by {
                        assert(midseq =~= oldseq.remove(i as int));
                    }
                    assert forall|j: int| 0 <= j < midseq.len() implies midseq[j].0@
                        != container_id@ by {
                        assert(midseq =~= oldseq.remove(i as int));
                        if j < i {
                            assert(midseq[j] == oldseq[j]);
                        } else {
                            assert(midseq[j] == oldseq[j + 1]);
                        }
                    }
                }
                self.container_routes.push((container_id, routes));
                proof {
                    assert(self.container_routes@.drop_last() =~= midseq);
                    assert(ledger_map_of(self.container_routes@) =~= ledger_map_of(
                        oldseq,
                    ).insert(container_id@, routes@.map_values(|r: RouteEntry| r@)));
                }
            },
            None => {
                self.container_routes.push((container_id, routes));
                proof {
                    assert(self.container_routes@.drop_last() =~= oldseq);
                }
            },
        }
    }

    /// The routes recorded for a container, or an empty list when none are.
    pub fn get_container_routes_for_cleanup(&self, container_id: &str) -> (r: Vec<RouteEntry>)
        requires
            self.wf(),
        ensures
            self.ledger().contains_key(container_id@) ==> r@.map_values(|e: RouteEntry| e@)
                == self.ledger()[container_id@],
            !self.ledger().contains_key(container_id@) ==> r@.len() == 0,
    {
        proof {
            lemma_ledger_dom(self.container_routes@, container_id@);
        }
        match self.find_entry(container_id) {
            Some(i) => {
                proof {
                    lemma_ledger_lookup(self.container_routes@, i as int);
                }
                let src = &self.container_routes[i].1;
                let n = src.len();
                let mut out: Vec<RouteEntry> = Vec::new();
                let mut k: usize = 0;
                while k < n
                    invariant
                        n == src@.len(),
                        k <= n,
                        out@.len() == k,
                        forall|j: int| 0 <= j < k ==> out@[j]@ == src@[j]@,
                    decreases n - k,
                {
                    let e = &src[k];
                    out.push(
                        RouteEntry {
                            destination: e.destination,
                            gateway: e.gateway,
                            interface: crate::container::clone_opt_string(&e.interface),
                            metric: e.metric,
                        },
                    );
                    k += 1;
                }
                proof {
                    assert(out@.map_values(|e: RouteEntry| e@) =~= src@.map_values(
                        |e: RouteEntry| e@,
                    ));
                }
                out
            },
            None => Vec::new(),
        }
    }

    /// Take the routes recorded for a container out of the ledger, if any.
    pub fn remove_container_routes(&mut self, container_id: &str) -> (r: Option<Vec<RouteEntry>>)
        requires
            old(self).wf(),
        ensures
            final(self).wf(),
            final(self).ledger() == old(self).ledger().remove(container_id@),
            match r {
                Some(v) => old(self).ledger().contains_key(container_id@) && v@.map_values(
                    |e: RouteEntry| e@,
                ) == old(self).ledger()[container_id@],
                None => !old(self).ledger().contains_key(container_id@),
            },
    {
        let ghost oldseq = self.container_routes@;
        proof {
            lemma_ledger_dom(oldseq, container_id@);
        }
        match self.find_entry(container_id) {
            Some(i) => {
                proof {
                    lemma_ledger_lookup(oldseq, i as int);
                    lemma_ledger_remove_at(oldseq, i as int);
                }
                let entry = self.container_routes.remove(i);
                proof {
                    assert forall|x: int, y: int|
                        0 <= x < self.container_routes@.len() && 0 <= y
                            < self.container_routes@.len() && x != y implies self.container_routes@[x].0@ != self.container_routes@[y].0@ by {
                        assert(self.container_routes@ =~= oldseq.remove(i as int));
                    }
                }
                Some(entry.1)
            },
            None => {
                proof {
                    lemma_ledger_absent(oldseq, container_id@);
                    assert(ledger_map_of(oldseq).remove(container_id@) =~= ledger_map_of(oldseq));
                }
                None
            },
        }
    }

    /// The ids of all containers with recorded routes, each exactly once.
    pub fn get_tracked_containers(&self) -> (r: Vec<String>)
        requires
            self.wf(),
        ensures
            forall|i: int| 0 <= i < r@.len() ==> self.ledger().contains_key(r@[i]@),
            forall|key: Seq<char>|
                self.ledger().contains_key(key) ==> exists|i: int| 0 <= i < r@.len() && r@[i]@ == key,
            forall|i: int, j: int| 0 <= i < r@.len() && 0 <= j < r@.len() && i != j ==> r@[i]@ != r@[j]@,
    {
        let n = self.container_routes.len();
        let mut out: Vec<String> = Vec::new();
        let mut i: usize = 0;
        while i < n
            invariant
                self.wf(),
                n == self.container_routes@.len(),
                i <= n,
                out@.len() == i,
                forall|j: int| 0 <= j < i ==> out@[j]@ == self.container_routes@[j].0@,
            decreases n - i,
        {
            out.push(self.container_routes[i].0.clone());
            i += 1;
        }
        proof {
            assert forall|i2: int| 0 <= i2 < out@.len() implies self.ledger().contains_key(
                out@[i2]@,
            ) by {
                lemma_ledger_lookup(self.container_routes@, i2);
            }
            assert forall|key: Seq<char>| self.ledger().contains_key(key) implies exists|i2: int|
                0 <= i2 < out@.len() && out@[i2]@ == key by {
                lemma_ledger_dom(self.container_routes@, key);
                let w = choose|i2: int|
                    0 <= i2 < self.container_routes@.len() && self.container_routes@[i2].0@ == key;
                assert(out@[w]@ == key);
            }
        }
        out
    }
}

impl Default for RoutingRuleCalculator {
    /// An empty calculator, as `new` gives it.
    fn default() -> (r: Self)
        ensures
            r.wf(),
            r.ledger() == Map::<Seq<char>, Seq<RouteEntryV>>::empty(),
    {
        RoutingRuleCalculator::new()
    }
}

} // verus!

verus! {

/// Route family law: every route the rule engine computes keeps the
/// gateway it was given, shares the gateway's address family in its
/// destination, and has its prefix within the family's bound.
pub proof fn lemma_route_family_law(cidrs: Seq<Seq<char>>, gw: IpAddress, iface: Option<Seq<char>>)
    ensures
        spec_multi_routes(cidrs, gw, iface) matches Some(rs) ==> forall|i: int|
            0 <= i < rs.len() ==> {
                &&& (#[trigger] rs[i]).gateway == gw
                &&& rs[i].destination.family() == gw.family()
                &&& rs[i].destination.prefix_in_bounds()
                &&& rs[i].valid()
            },
    decreases cidrs.len(),
{
    if cidrs.len() > 0 {
        lemma_route_family_law(cidrs.subrange(1, cidrs.len() as int), gw, iface);
        match spec_multi_routes(cidrs, gw, iface) {
            Option::Some(rs) => {
                let head = spec_calculate_routes(cidrs[0], gw, iface);
                let rest = spec_multi_routes(cidrs.subrange(1, cidrs.len() as int), gw, iface);
                assert forall|i: int| 0 <= i < rs.len() implies {
                    &&& (#[trigger] rs[i]).gateway == gw
                    &&& rs[i].destination.family() == gw.family()
                    &&& rs[i].destination.prefix_in_bounds()
                    &&& rs[i].valid()
                } by {
                    let hd = head->Some_0;
                    let rt = rest->Some_0;
                    if i < hd.len() {
                        assert(rs[i] == hd[0]);
                    } else {
                        assert(rs[i] == rt[i - hd.len()]);
                    }
                }
            },
            Option::None => {},
        }
    }
}

/// Rule ordering law: when the rule engine computes routes for a sequence of
/// destination CIDRs, it yields exactly one route per CIDR, in input order,
/// each with its own CIDR's parsed network as destination.
pub proof fn lemma_rule_order(cidrs: Seq<Seq<char>>, gw: IpAddress, iface: Option<Seq<char>>)
    ensures
        spec_multi_routes(cidrs, gw, iface) matches Some(rs) ==> {
            &&& rs.len() == cidrs.len()
            &&& forall|i: int|
                0 <= i < rs.len() ==> parsed_cidr(cidrs[i]) == Some(
                    (#[trigger] rs[i]).destination,
                )
        },
    decreases cidrs.len(),
{
    if cidrs.len() > 0 {
        lemma_rule_order(cidrs.subrange(1, cidrs.len() as int), gw, iface);
        match spec_multi_routes(cidrs, gw, iface) {
            Option::Some(rs) => {
                let head = spec_calculate_routes(cidrs[0], gw, iface)->Some_0;
                let rest = spec_multi_routes(cidrs.subrange(1, cidrs.len() as int), gw, iface)
                    ->Some_0;
                assert forall|i: int| 0 <= i < rs.len() implies parsed_cidr(cidrs[i]) == Some(
                    (#[trigger] rs[i]).destination,
                ) by {
                    if i == 0 {
                        assert(rs[0] == head[0]);
                    } else {
                        assert(rs[i] == rest[i - 1]);
                        assert(cidrs.subrange(1, cidrs.len() as int)[i - 1] == cidrs[i]);
                    }
                }
            },
            Option::None => {},
        }
    }
}

/// The default and host routes also satisfy the family law.
pub proof fn lemma_fixed_routes_family(host: IpAddress, gw: IpAddress)
    ensures
        default_route_v(gw).gateway == gw,
        default_route_v(gw).destination.family() == gw.family(),
        default_route_v(gw).valid(),
        host.family() == gw.family() ==> host_route_v(host, gw).destination.family()
            == gw.family() && host_route_v(host, gw).valid(),
{
}

/// Ledger idempotence law: recording routes for a container and then taking
/// them out leaves the ledger without an entry for it, and what was recorded
/// is exactly what comes out for removal.
pub proof fn lemma_ledger_install_remove(
    m: Map<Seq<char>, Seq<RouteEntryV>>,
    id: Seq<char>,
    routes: Seq<RouteEntryV>,
)
    ensures
        !m.insert(id, routes).remove(id).contains_key(id),
        m.insert(id, routes)[id] == routes,
{
}

} // verus!

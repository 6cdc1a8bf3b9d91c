//! The routing table: which interface, and which gateway, leads to an
//! address.

use crate::addr::{Interface, Ipv4Addr, Ipv4Network};
use vstd::prelude::*;

verus! {

/// One way out: packets for `net` leave through `interface`, directly or by
/// way of the gateway `gw`.
#[derive(Debug)]
pub struct Route {
    pub net: Ipv4Network,
    pub gw: Option<Ipv4Addr>,
    pub interface: Interface,
}

/// Whether the route at `index` is the one to take for `ip`: it contains
/// `ip`, no route that contains `ip` has a longer prefix, and of those with
/// an equally long prefix it was added first.
pub open spec fn is_best_route(routes: Seq<Route>, ip: Ipv4Addr, index: int) -> bool {
    &&& 0 <= index < routes.len()
    &&& routes[index].net.spec_contains(ip)
    &&& forall|j: int|
        0 <= j < routes.len() && (#[trigger] routes[j]).net.spec_contains(ip)
            ==> routes[j].net.spec_prefix() <= routes[index].net.spec_prefix()
    &&& forall|j: int|
        0 <= j < index && (#[trigger] routes[j]).net.spec_contains(ip)
            ==> routes[j].net.spec_prefix() < routes[index].net.spec_prefix()
}

/// The index of the route to take for `ip`, where there is one.
pub open spec fn best_route(routes: Seq<Route>, ip: Ipv4Addr) -> int {
    choose|index: int| is_best_route(routes, ip, index)
}

/// At most one route is the one to take.
pub proof fn lemma_best_route_unique(routes: Seq<Route>, ip: Ipv4Addr, i: int, j: int)
    requires
        is_best_route(routes, ip, i),
        is_best_route(routes, ip, j),
    ensures
        i == j,
        best_route(routes, ip) == i,
{
    assert(routes[i].net.spec_prefix() <= routes[j].net.spec_prefix());
    assert(routes[j].net.spec_prefix() <= routes[i].net.spec_prefix());
    if i < j {
        assert(false);
    }
    if j < i {
        assert(false);
    }
    let k = best_route(routes, ip);
    assert(is_best_route(routes, ip, k));
    assert(routes[i].net.spec_prefix() <= routes[k].net.spec_prefix());
    assert(routes[k].net.spec_prefix() <= routes[i].net.spec_prefix());
    if i < k {
        assert(false);
    }
    if k < i {
        assert(false);
    }
}

/// Whether any route leads to `ip`.
pub open spec fn has_route(routes: Seq<Route>, ip: Ipv4Addr) -> bool {
    exists|j: int| 0 <= j < routes.len() && (#[trigger] routes[j]).net.spec_contains(ip)
}

/// What adding a route for `net` means for the question whether something
/// leads to an address: from `pre` to `post`, where `added` says whether the
/// route was added at all.
pub open spec fn route_added(
    pre: Seq<Route>,
    post: Seq<Route>,
    net: Ipv4Network,
    added: bool,
) -> bool {
    forall|ip: Ipv4Addr|
        #[trigger] has_route(post, ip) == (has_route(pre, ip) || (added && net.spec_contains(ip)))
}

/// A route that alone leads to `ip` is the one to take.
pub proof fn lemma_only_route(routes: Seq<Route>, ip: Ipv4Addr, index: int)
    requires
        0 <= index < routes.len(),
        routes[index].net.spec_contains(ip),
        forall|j: int|
            0 <= j < routes.len() && j != index ==> !(#[trigger] routes[j]).net.spec_contains(ip),
    ensures
        has_route(routes, ip),
        is_best_route(routes, ip, index),
        best_route(routes, ip) == index,
{
    lemma_best_route_unique(routes, ip, index, index);
}

/// Longest-prefix match over the routes added so far.
#[derive(Debug)]
pub struct RoutingTable {
    routes: Vec<Route>,
}

impl RoutingTable {
    /// The routes, in the order in which they were added.
    pub closed spec fn routes(&self) -> Seq<Route> {
        self.routes@
    }

    /// Every network in the table has a valid prefix.
    pub open spec fn wf(&self) -> bool {
        forall|j: int| 0 <= j < self.routes().len() ==> (#[trigger] self.routes()[j]).net.wf()
    }

    pub fn new() -> (table: RoutingTable)
        ensures
            table.wf(),
            table.routes() == Seq::<Route>::empty(),
    {
        RoutingTable { routes: Vec::new() }
    }

    /// Adds a route to the table, behind those already there.
    pub fn add_route(&mut self, net: Ipv4Network, gw: Option<Ipv4Addr>, interface: Interface)
        requires
            old(self).wf(),
            net.wf(),
        ensures
            final(self).wf(),
            final(self).routes() == old(self).routes().push(Route { net, gw, interface }),
            route_added(old(self).routes(), final(self).routes(), net, true),
    {
        self.routes.push(Route { net, gw, interface });
        proof {
            let before = old(self).routes();
            let after = self.routes();
            assert forall|ip: Ipv4Addr| #[trigger] has_route(after, ip) == (has_route(before, ip)
                || net.spec_contains(ip)) by {
                if has_route(after, ip) {
                    let j = choose|j: int|
                        0 <= j < after.len() && (#[trigger] after[j]).net.spec_contains(ip);
                    if j < before.len() {
                        assert(before[j].net.spec_contains(ip));
                    }
                }
                if has_route(before, ip) {
                    let j = choose|j: int|
                        0 <= j < before.len() && (#[trigger] before[j]).net.spec_contains(ip);
                    assert(after[j].net.spec_contains(ip));
                }
                if net.spec_contains(ip) {
                    assert(after[after.len() - 1].net.spec_contains(ip));
                }
            }
        }
    }

    /// Looks up the route to `ip`: the gateway, if the way leads through
    /// one, and the interface to send on.
    pub fn route(&self, ip: Ipv4Addr) -> (found: Option<(Option<Ipv4Addr>, Interface)>)
        requires
            self.wf(),
        ensures
            found.is_some() == has_route(self.routes(), ip),
            found matches Some((gw, interface)) ==> {
                &&& is_best_route(self.routes(), ip, best_route(self.routes(), ip))
                &&& gw == self.routes()[best_route(self.routes(), ip)].gw
                &&& interface.same(&self.routes()[best_route(self.routes(), ip)].interface)
            },
    {
        let mut best: Option<usize> = None;
        let mut i: usize = 0;
        while i < self.routes.len()
            invariant
                i <= self.routes@.len(),
                self.wf(),
                best.is_some() == has_route(self.routes@.take(i as int), ip),
                best matches Some(b) ==> b < i && is_best_route(
                    self.routes@.take(i as int),
                    ip,
                    b as int,
                ),
            decreases self.routes@.len() - i,
        {
            let ghost seen = self.routes@.take(i as int);
            let ghost next = self.routes@.take(i + 1);
            assert(forall|j: int| 0 <= j < i ==> next[j] == seen[j]);
            assert(next[i as int] == self.routes@[i as int]);
            let hit: bool = self.routes[i].net.contains(ip);
            let better: bool = hit && match best {
                Some(b) => self.routes[b].net.prefix() < self.routes[i].net.prefix(),
                None => true,
            };
            proof {
                if has_route(seen, ip) {
                    let j = choose|j: int|
                        0 <= j < seen.len() && (#[trigger] seen[j]).net.spec_contains(ip);
                    assert(next[j].net.spec_contains(ip));
                }
                if has_route(next, ip) && !hit {
                    let j = choose|j: int|
                        0 <= j < next.len() && (#[trigger] next[j]).net.spec_contains(ip);
                    assert(seen[j].net.spec_contains(ip));
                }
                if hit {
                    assert(next[i as int].net.spec_contains(ip));
                }
            }
            if better {
                best = Some(i);
            }
            i += 1;
        }
        assert(self.routes@.take(i as int) =~= self.routes@);
        match best {
            None => None,
            Some(b) => {
                proof {
                    lemma_best_route_unique(self.routes@, ip, b as int, b as int);
                }
                Some((self.routes[b].gw, self.routes[b].interface.clone()))
            },
        }
    }
}

} // verus!

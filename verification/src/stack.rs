//! The stack itself: the interfaces, the routes between them, and the calls
//! that bind addresses, listeners and senders.

pub use crate::interface::{
    Delivery, EthernetChannel, Ipv4Data, Received, Resolution, StackInterface,
    StackInterfaceData, StackInterfaceMsg, StackInterfaceView,
};

use crate::addr::{Interface, Ipv4Addr, Ipv4Network, SocketAddr, SocketAddrV4};
use crate::error::{StackError, StackResult};
use crate::ethernet::EthernetTxImpl;
use crate::icmp::{IcmpTx, IcmpType};
use crate::interface::{
    data_index, data_keys, data_position, icmp_listening, ipv4_tx_outcome, is_new_interface,
    udp_listener_bound,
};
use crate::ipv4::Ipv4TxImpl;
use crate::listener::ListenerId;
use crate::routing::{best_route, has_route, route_added, Route, RoutingTable};
use crate::tx::TxImpl;
use crate::udp::{UdpListenerLookup, UdpTx};
use crate::util::{first_n, position};
use vstd::prelude::*;

verus! {

/// MTU of an interface until `set_mtu` says otherwise.
pub const DEFAULT_MTU: usize = 1500;

/// First port that `udp_listen` may pick by itself.
pub const LOCAL_PORT_RANGE_START: u16 = 32768;

/// First port behind those that `udp_listen` may pick by itself.
pub const LOCAL_PORT_RANGE_END: u16 = 61000;

/// How often `udp_listen` draws a port before it looks for a free one in
/// order.
pub const LOCAL_PORT_DRAWS: usize = 64;

/// Whether `port` is one that `udp_listen` may pick by itself.
pub open spec fn in_local_port_range(port: u16) -> bool {
    LOCAL_PORT_RANGE_START <= port < LOCAL_PORT_RANGE_END
}

/// Whether some port that `udp_listen` may pick by itself is still free.
pub open spec fn has_free_local_port(bound: Map<u16, ListenerId>) -> bool {
    exists|port: u16| in_local_port_range(port) && !#[trigger] bound.contains_key(port)
}

/// Calls `rand::random_range` for a number in `low..high`, drawn by the
/// thread-local generator.
///
/// Trusted: the number lies in the range; nothing is known of it beyond
/// that. The range must not be empty, or the call panics.
#[verifier::external_body]
fn random_port(low: u16, high: u16) -> (port: u16)
    requires
        low < high,
    ensures
        low <= port < high,
{
    rand::random_range(low..high)
}

/// Takes the drawn port `candidate` if nobody holds it.
pub fn accept_port(listeners: &UdpListenerLookup, candidate: u16) -> (port: Option<u16>)
    ensures
        port == if listeners.bound().contains_key(candidate) {
            None
        } else {
            Some(candidate)
        },
{
    if listeners.contains_key(candidate) {
        None
    } else {
        Some(candidate)
    }
}

/// The first free port of the local range at or behind `from`, in order.
pub fn first_free_port(listeners: &UdpListenerLookup, from: u16) -> (port: Option<u16>)
    requires
        LOCAL_PORT_RANGE_START <= from <= LOCAL_PORT_RANGE_END,
    ensures
        match port {
            Some(p) => {
                &&& from <= p < LOCAL_PORT_RANGE_END
                &&& !listeners.bound().contains_key(p)
                &&& forall|q: u16| from <= q < p ==> #[trigger] listeners.bound().contains_key(q)
            },
            None => forall|q: u16|
                from <= q < LOCAL_PORT_RANGE_END ==> #[trigger] listeners.bound().contains_key(q),
        },
{
    let mut candidate: u16 = from;
    while candidate < LOCAL_PORT_RANGE_END
        invariant
            from <= candidate <= LOCAL_PORT_RANGE_END,
            forall|q: u16| from <= q < candidate ==> #[trigger] listeners.bound().contains_key(q),
        decreases LOCAL_PORT_RANGE_END - candidate,
    {
        if !listeners.contains_key(candidate) {
            return Some(candidate);
        }
        candidate += 1;
    }
    None
}

/// Whether the stack interface at `index` is on `interface`.
pub open spec fn is_interface_index(
    interfaces: Seq<StackInterface>,
    interface: Interface,
    index: int,
) -> bool {
    0 <= index < interfaces.len() && interfaces[index]@.interface.same(&interface)
}

/// Whether the stack has an interface on `interface`.
pub open spec fn has_interface(interfaces: Seq<StackInterface>, interface: Interface) -> bool {
    exists|i: int| is_interface_index(interfaces, interface, i)
}

/// The index of the interface among `interfaces` that is on `interface`,
/// where there is one.
pub open spec fn interface_index(interfaces: Seq<StackInterface>, interface: Interface) -> int {
    choose|i: int| is_interface_index(interfaces, interface, i)
}

/// The same devices have interfaces in `post` as in `pre`, each at the same
/// index.
pub open spec fn same_devices(pre: Seq<StackInterface>, post: Seq<StackInterface>) -> bool {
    &&& forall|x: Interface| #[trigger] has_interface(post, x) == has_interface(pre, x)
    &&& forall|x: Interface|
        has_interface(pre, x) ==> #[trigger] interface_index(post, x) == interface_index(pre, x)
}

/// The devices of `pre` have their interfaces in `post` where they had them,
/// and `added` has the one behind them.
pub open spec fn device_added(
    pre: Seq<StackInterface>,
    post: Seq<StackInterface>,
    added: Interface,
) -> bool {
    &&& forall|x: Interface|
        #[trigger] has_interface(post, x) == (has_interface(pre, x) || x.same(&added))
    &&& forall|x: Interface|
        has_interface(pre, x) ==> #[trigger] interface_index(post, x) == interface_index(pre, x)
    &&& forall|x: Interface| x.same(&added) ==> #[trigger] interface_index(post, x) == pre.len()
}

/// `post` is `pre` with one more route at the end: to `net`, through
/// `interface`, without a gateway.
pub open spec fn routed_through(
    pre: Seq<Route>,
    post: Seq<Route>,
    net: Ipv4Network,
    interface: Interface,
) -> bool {
    &&& post.len() == pre.len() + 1
    &&& post.drop_last() == pre
    &&& post.last().net == net
    &&& post.last().gw.is_none()
    &&& post.last().interface.same(&interface)
}

/// The index of the first interface at or behind `from` that has a bundle
/// for the local address `ip`.
pub open spec fn first_owner(
    interfaces: Seq<StackInterface>,
    ip: Ipv4Addr,
    from: int,
) -> Option<int>
    decreases interfaces.len() - from,
{
    if from < 0 || from >= interfaces.len() {
        None
    } else if data_keys(interfaces[from]@.datas).contains(ip) {
        Some(from)
    } else {
        first_owner(interfaces, ip, from + 1)
    }
}

/// The index of the first interface at or behind `from` whose device is
/// called `name`.
pub open spec fn first_named(
    interfaces: Seq<StackInterface>,
    name: Seq<char>,
    from: int,
) -> Option<int>
    decreases interfaces.len() - from,
{
    if from < 0 || from >= interfaces.len() {
        None
    } else if interfaces[from]@.interface.name@ == name {
        Some(from)
    } else {
        first_named(interfaces, name, from + 1)
    }
}

/// Whether some interface has the local address `ip`.
pub open spec fn some_interface_has(interfaces: Seq<StackInterface>, ip: Ipv4Addr) -> bool {
    exists|i: int| 0 <= i < interfaces.len() && (#[trigger] interfaces[i])@.addresses.contains(ip)
}

/// `post` is `pre` but for the interface at `index`.
pub open spec fn only_interface_changed(
    pre: NetworkStackView,
    post: NetworkStackView,
    index: int,
) -> bool {
    &&& post.routing_table == pre.routing_table
    &&& post.interfaces.len() == pre.interfaces.len()
    &&& forall|i: int|
        0 <= i < pre.interfaces.len() && i != index ==> #[trigger] post.interfaces[i]
            == pre.interfaces[i]
}

/// The state of the stack.
pub struct NetworkStackView {
    /// The interfaces, in the order in which they were added.
    pub interfaces: Seq<StackInterface>,
    pub routing_table: RoutingTable,
}

/// What `NetworkStack::ipv4_tx` comes to, from the state `pre` to `post`:
/// `NoRouteToHost` without a route, `IllegalArgument` where the route names a
/// device without an interface, else what the interface of the route makes
/// of it.
pub open spec fn routed_ipv4_tx(
    pre: NetworkStackView,
    post: NetworkStackView,
    dst: Ipv4Addr,
    result: StackResult<Resolution<Ipv4TxImpl<EthernetTxImpl<TxImpl>>>>,
) -> bool {
    let routes = pre.routing_table.routes();
    if !has_route(routes, dst) {
        &&& result matches Err(StackError::NoRouteToHost)
        &&& post == pre
    } else {
        let route = routes[best_route(routes, dst)];
        if !has_interface(pre.interfaces, route.interface) {
            &&& result matches Err(StackError::IllegalArgument)
            &&& post == pre
        } else {
            let index = interface_index(pre.interfaces, route.interface);
            &&& only_interface_changed(pre, post, index)
            &&& ipv4_tx_outcome(
                pre.interfaces[index]@,
                post.interfaces[index]@,
                dst,
                route.gw,
                result,
            )
        }
    }
}

/// The IPv4 outcome underneath the outcome of `udp_tx`.
pub open spec fn under_udp(
    result: StackResult<Resolution<UdpTx<Ipv4TxImpl<EthernetTxImpl<TxImpl>>>>>,
) -> StackResult<Resolution<Ipv4TxImpl<EthernetTxImpl<TxImpl>>>> {
    match result {
        Ok(Resolution::Ready(udp)) => Ok(Resolution::Ready(udp.inner())),
        Ok(Resolution::Waiting(waiter)) => Ok(Resolution::Waiting(waiter)),
        Err(e) => Err(e),
    }
}

/// The IPv4 outcome underneath the outcome of `icmp_tx`.
pub open spec fn under_icmp(
    result: StackResult<Resolution<IcmpTx<Ipv4TxImpl<EthernetTxImpl<TxImpl>>>>>,
) -> StackResult<Resolution<Ipv4TxImpl<EthernetTxImpl<TxImpl>>>> {
    match result {
        Ok(Resolution::Ready(icmp)) => Ok(Resolution::Ready(icmp.inner())),
        Ok(Resolution::Waiting(waiter)) => Ok(Resolution::Waiting(waiter)),
        Err(e) => Err(e),
    }
}

/// What `NetworkStack::udp_listen` on an IPv4 address comes to, from the
/// state `pre` to `post`.
///
/// The unspecified address is refused with `AddrNotAvailable`, an address
/// that no interface has with `InvalidInput`. Else the first interface that
/// has the address binds the port: the one asked for, or, asked for port 0,
/// a free one of the local range. A port that somebody holds, or a local
/// range without a free port, gives `AddrInUse`.
pub open spec fn udp_listening(
    pre: NetworkStackView,
    post: NetworkStackView,
    addr: SocketAddrV4,
    listener: ListenerId,
    result: StackResult<SocketAddr>,
) -> bool {
    if addr.ip.spec_is_unspecified() {
        &&& result matches Err(StackError::AddrNotAvailable)
        &&& post == pre
    } else {
        match first_owner(pre.interfaces, addr.ip, 0) {
            None => {
                &&& result matches Err(StackError::InvalidInput)
                &&& post == pre
            },
            Some(index) => {
                let datas = pre.interfaces[index]@.datas;
                let at = data_position(datas, addr.ip);
                let bound = datas[at].udp().bound();
                match result {
                    Ok(SocketAddr::V4(got)) => {
                        &&& got.ip == addr.ip
                        &&& if addr.port != 0 {
                            got.port == addr.port
                        } else {
                            in_local_port_range(got.port)
                        }
                        &&& !bound.contains_key(got.port)
                        &&& only_interface_changed(pre, post, index)
                        &&& post.interfaces[index]@ == (StackInterfaceView {
                            datas: post.interfaces[index]@.datas,
                            ..pre.interfaces[index]@
                        })
                        &&& udp_listener_bound(
                            datas,
                            post.interfaces[index]@.datas,
                            at,
                            got.port,
                            listener,
                        )
                    },
                    Err(StackError::AddrInUse) => {
                        &&& post == pre
                        &&& if addr.port != 0 {
                            bound.contains_key(addr.port)
                        } else {
                            !has_free_local_port(bound)
                        }
                    },
                    _ => false,
                }
            },
        }
    }
}

/// The main struct of this library, managing an entire TCP/IP stack: the
/// interfaces and the routes between them.
#[derive(Debug)]
pub struct NetworkStack {
    interfaces: Vec<StackInterface>,
    routing_table: RoutingTable,
}

impl View for NetworkStack {
    type V = NetworkStackView;

    closed spec fn view(&self) -> NetworkStackView {
        NetworkStackView { interfaces: self.interfaces@, routing_table: self.routing_table }
    }
}

impl Default for NetworkStack {
    fn default() -> (stack: NetworkStack)
        ensures
            stack.wf(),
            stack@.interfaces == Seq::<StackInterface>::empty(),
            stack@.routing_table.routes() == Seq::<Route>::empty(),
    {
        NetworkStack::new()
    }
}

impl NetworkStack {
    /// The invariant of the stack: every interface and the routing table are
    /// consistent, and no device has two interfaces.
    pub open spec fn wf(&self) -> bool {
        &&& self@.routing_table.wf()
        &&& forall|i: int|
            0 <= i < self@.interfaces.len() ==> (#[trigger] self@.interfaces[i]).wf()
        &&& forall|i: int, j: int|
            0 <= i < j < self@.interfaces.len() ==> !(
            #[trigger] self@.interfaces[i])@.interface.same(
                &(#[trigger] self@.interfaces[j])@.interface,
            )
    }

    /// In a consistent stack the interface on a device is found at one
    /// index only.
    pub proof fn lemma_interface_index_unique(&self, interface: Interface, index: int)
        requires
            self.wf(),
            is_interface_index(self@.interfaces, interface, index),
        ensures
            interface_index(self@.interfaces, interface) == index,
    {
        let k = interface_index(self@.interfaces, interface);
        assert(is_interface_index(self@.interfaces, interface, k));
        if k < index {
            assert(!self@.interfaces[k]@.interface.same(&self@.interfaces[index]@.interface));
        }
        if index < k {
            assert(!self@.interfaces[index]@.interface.same(&self@.interfaces[k]@.interface));
        }
    }

    /// Two names for one device find the same interface.
    proof fn lemma_same_device(&self, a: Interface, b: Interface)
        requires
            self.wf(),
            a.same(&b),
        ensures
            has_interface(self@.interfaces, a) == has_interface(self@.interfaces, b),
            has_interface(self@.interfaces, a) ==> interface_index(self@.interfaces, a)
                == interface_index(self@.interfaces, b),
    {
        if has_interface(self@.interfaces, a) {
            let i = interface_index(self@.interfaces, a);
            assert(is_interface_index(self@.interfaces, b, i));
            self.lemma_interface_index_unique(b, i);
        }
        if has_interface(self@.interfaces, b) {
            let i = interface_index(self@.interfaces, b);
            assert(is_interface_index(self@.interfaces, a, i));
        }
    }

    /// Interfaces that stay on their devices are found as before.
    proof fn lemma_same_devices(pre: NetworkStack, post: NetworkStack)
        requires
            pre.wf(),
            post.wf(),
            post@.interfaces.len() == pre@.interfaces.len(),
            forall|i: int|
                0 <= i < pre@.interfaces.len() ==> (#[trigger] post@.interfaces[i])@.interface
                    == pre@.interfaces[i]@.interface,
        ensures
            same_devices(pre@.interfaces, post@.interfaces),
    {
        let before = pre@.interfaces;
        let after = post@.interfaces;
        assert forall|x: Interface| #[trigger] has_interface(after, x) == has_interface(
            before,
            x,
        ) by {
            if has_interface(after, x) {
                let i = interface_index(after, x);
                assert(is_interface_index(before, x, i));
            }
            if has_interface(before, x) {
                let i = interface_index(before, x);
                assert(is_interface_index(after, x, i));
            }
        }
        assert forall|x: Interface| has_interface(before, x) implies #[trigger] interface_index(
            after,
            x,
        ) == interface_index(before, x) by {
            let i = interface_index(before, x);
            assert(is_interface_index(after, x, i));
            post.lemma_interface_index_unique(x, i);
        }
    }

    /// A stack stays consistent when one interface changes into a consistent
    /// interface on the same device, and finds its interfaces as before.
    proof fn lemma_one_changed_keeps_wf(pre: NetworkStack, post: NetworkStack, index: int)
        requires
            pre.wf(),
            0 <= index < pre@.interfaces.len(),
            only_interface_changed(pre@, post@, index),
            post@.interfaces[index].wf(),
            post@.interfaces[index]@.interface == pre@.interfaces[index]@.interface,
        ensures
            post.wf(),
            same_devices(pre@.interfaces, post@.interfaces),
    {
        let before = pre@.interfaces;
        let after = post@.interfaces;
        assert forall|i: int| 0 <= i < after.len() implies (#[trigger] after[i]).wf() by {
            if i != index {
                assert(before[i].wf());
            }
        }
        assert forall|i: int, j: int| 0 <= i < j < after.len() implies !(
        #[trigger] after[i])@.interface.same(&(#[trigger] after[j])@.interface) by {
            assert(!before[i]@.interface.same(&before[j]@.interface));
            assert(after[i]@.interface == before[i]@.interface);
            assert(after[j]@.interface == before[j]@.interface);
        }
        assert forall|i: int| 0 <= i < before.len() implies (#[trigger] after[i])@.interface
            == before[i]@.interface by {
            if i != index {
                assert(after[i] == before[i]);
            }
        }
        Self::lemma_same_devices(pre, post);
    }

    /// A stack without interfaces or routes.
    pub fn new() -> (stack: NetworkStack)
        ensures
            stack.wf(),
            stack@.interfaces == Seq::<StackInterface>::empty(),
            stack@.routing_table.routes() == Seq::<Route>::empty(),
            forall|x: Interface| !#[trigger] has_interface(stack@.interfaces, x),
            forall|ip: Ipv4Addr| !#[trigger] has_route(stack@.routing_table.routes(), ip),
    {
        NetworkStack { interfaces: Vec::new(), routing_table: RoutingTable::new() }
    }

    /// The index of the interface on `interface`, if the stack has one.
    fn find_interface(&self, interface: &Interface) -> (found: Option<usize>)
        requires
            self.wf(),
        ensures
            found.is_some() == has_interface(self@.interfaces, *interface),
            found matches Some(index) ==> index == interface_index(self@.interfaces, *interface)
                && is_interface_index(self@.interfaces, *interface, index as int),
    {
        let mut i: usize = 0;
        while i < self.interfaces.len()
            invariant
                i <= self.interfaces@.len(),
                self.wf(),
                forall|j: int| 0 <= j < i ==> !is_interface_index(self@.interfaces, *interface, j),
            decreases self.interfaces@.len() - i,
        {
            if self.interfaces[i].interface().is_same(interface) {
                proof {
                    self.lemma_interface_index_unique(*interface, i as int);
                }
                return Some(i);
            }
            i += 1;
        }
        None
    }

    /// The index of the first interface whose device is called `name`.
    fn find_named(&self, name: &str) -> (found: Option<usize>)
        ensures
            match found {
                Some(index) => first_named(self@.interfaces, name@, 0) == Some(index as int)
                    && index < self@.interfaces.len(),
                None => first_named(self@.interfaces, name@, 0).is_none(),
            },
    {
        let wanted: String = name.to_owned();
        let mut i: usize = 0;
        while i < self.interfaces.len()
            invariant
                i <= self.interfaces@.len(),
                wanted@ == name@,
                first_named(self@.interfaces, name@, 0) == first_named(
                    self@.interfaces,
                    name@,
                    i as int,
                ),
            decreases self.interfaces@.len() - i,
        {
            if self.interfaces[i].interface().name == wanted {
                return Some(i);
            }
            i += 1;
        }
        None
    }

    /// The index of the first interface that has the local address `ip`, and
    /// the index of the bundle for `ip` on that interface.
    fn find_owner(&self, ip: Ipv4Addr) -> (found: Option<(usize, usize)>)
        requires
            self.wf(),
        ensures
            match found {
                Some((index, at)) => {
                    &&& first_owner(self@.interfaces, ip, 0) == Some(index as int)
                    &&& index < self@.interfaces.len()
                    &&& at == data_position(self@.interfaces[index as int]@.datas, ip)
                    &&& data_index(self@.interfaces[index as int]@.datas, ip, at as int)
                },
                None => first_owner(self@.interfaces, ip, 0).is_none(),
            },
    {
        let mut i: usize = 0;
        while i < self.interfaces.len()
            invariant
                i <= self.interfaces@.len(),
                self.wf(),
                first_owner(self@.interfaces, ip, 0) == first_owner(self@.interfaces, ip, i as int),
            decreases self.interfaces@.len() - i,
        {
            match self.interfaces[i].find_data(ip) {
                Some(at) => {
                    proof {
                        assert(self@.interfaces[i as int].wf());
                        self@.interfaces[i as int].lemma_data_position_unique(ip, at as int);
                    }
                    return Some((i, at));
                },
                None => {},
            }
            i += 1;
        }
        None
    }

    /// Adds the interface on `interface`, sending through `channel`. A
    /// device that the stack already has an interface on is refused with
    /// `InvalidInterface`.
    pub fn add_interface(&mut self, interface: Interface, channel: EthernetChannel) -> (result:
        StackResult<()>)
        requires
            old(self).wf(),
        ensures
            final(self).wf(),
            has_interface(old(self)@.interfaces, interface) ==> {
                &&& result == Err::<(), StackError>(StackError::InvalidInterface)
                &&& final(self)@ == old(self)@
            },
            !has_interface(old(self)@.interfaces, interface) ==> {
                &&& result == Ok::<(), StackError>(())
                &&& final(self)@.routing_table == old(self)@.routing_table
                &&& final(self)@.interfaces.drop_last() == old(self)@.interfaces
                &&& final(self)@.interfaces.len() == old(self)@.interfaces.len() + 1
                &&& final(self)@.interfaces.last()@.interface.same(&interface)
                &&& is_new_interface(final(self)@.interfaces.last()@, channel)
                &&& device_added(old(self)@.interfaces, final(self)@.interfaces, interface)
            },
    {
        match self.find_interface(&interface) {
            Some(_) => Err(StackError::InvalidInterface),
            None => {
                let added = StackInterface::new(interface.clone(), channel);
                self.interfaces.push(added);
                proof {
                    let before = old(self)@.interfaces;
                    let after = self@.interfaces;
                    assert(after.drop_last() =~= before);
                    assert forall|i: int| 0 <= i < after.len() implies (
                    #[trigger] after[i]).wf() by {
                        if i < before.len() {
                            assert(before[i].wf());
                        }
                    }
                    assert forall|i: int, j: int| 0 <= i < j < after.len() implies !(
                    #[trigger] after[i])@.interface.same(&(#[trigger] after[j])@.interface) by {
                        assert(before[i] == after[i]);
                        if j < before.len() {
                            assert(before[j] == after[j]);
                        } else {
                            assert(!is_interface_index(before, interface, i));
                        }
                    }
                    assert forall|x: Interface|
                        #[trigger] has_interface(after, x) == (has_interface(before, x) || x.same(
                            &interface,
                        )) by {
                        if has_interface(after, x) {
                            let i = interface_index(after, x);
                            if i < before.len() {
                                assert(is_interface_index(before, x, i));
                            }
                        }
                        if has_interface(before, x) {
                            let i = interface_index(before, x);
                            assert(is_interface_index(after, x, i));
                        }
                        if x.same(&interface) {
                            assert(is_interface_index(after, x, after.len() - 1));
                        }
                    }
                    assert forall|x: Interface| has_interface(before, x) implies
                        #[trigger] interface_index(after, x) == interface_index(before, x) by {
                        let i = interface_index(before, x);
                        assert(is_interface_index(after, x, i));
                        self.lemma_interface_index_unique(x, i);
                    }
                    assert forall|x: Interface| x.same(&interface) implies
                        #[trigger] interface_index(after, x) == before.len() by {
                        assert(is_interface_index(after, x, after.len() - 1));
                        self.lemma_interface_index_unique(x, after.len() - 1);
                    }
                }
                Ok(())
            },
        }
    }

    /// The devices that the stack has an interface on, in the order in which
    /// they were added.
    pub fn interfaces(&self) -> (interfaces: Vec<Interface>)
        ensures
            interfaces@.len() == self@.interfaces.len(),
            forall|i: int|
                0 <= i < interfaces@.len() ==> (#[trigger] interfaces@[i]).same(
                    &self@.interfaces[i]@.interface,
                ),
    {
        let mut interfaces: Vec<Interface> = Vec::new();
        let mut i: usize = 0;
        while i < self.interfaces.len()
            invariant
                i <= self.interfaces@.len(),
                interfaces@.len() == i,
                forall|j: int|
                    0 <= j < i ==> (#[trigger] interfaces@[j]).same(
                        &self@.interfaces[j]@.interface,
                    ),
            decreases self.interfaces@.len() - i,
        {
            interfaces.push(self.interfaces[i].interface().clone());
            i += 1;
        }
        interfaces
    }

    /// The interface on `interface`, open to changes. What the caller leaves
    /// behind is the stack's interface from then on. A device without an
    /// interface gives `InvalidInterface`.
    pub fn interface(&mut self, interface: &Interface) -> (result: StackResult<&mut StackInterface>)
        requires
            old(self).wf(),
        ensures
            match result {
                Ok(stack_interface) => {
                    let index = interface_index(old(self)@.interfaces, *interface);
                    &&& is_interface_index(old(self)@.interfaces, *interface, index)
                    &&& *stack_interface == old(self)@.interfaces[index]
                    &&& final(self)@ == (NetworkStackView {
                        interfaces: old(self)@.interfaces.update(index, *final(stack_interface)),
                        ..old(self)@
                    })
                },
                Err(e) => {
                    &&& e == StackError::InvalidInterface
                    &&& !has_interface(old(self)@.interfaces, *interface)
                    &&& final(self)@ == old(self)@
                },
            },
    {
        match self.find_interface(interface) {
            Some(index) => Ok(&mut self.interfaces[index]),
            None => Err(StackError::InvalidInterface),
        }
    }

    /// The first interface whose device is called `name`, open to changes.
    /// A name that no device has gives `InvalidInterface`.
    pub fn interface_from_name(&mut self, name: &str) -> (result: StackResult<&mut StackInterface>)
        ensures
            match result {
                Ok(stack_interface) => {
                    &&& first_named(old(self)@.interfaces, name@, 0) matches Some(index)
                    &&& *stack_interface == old(self)@.interfaces[index]
                    &&& final(self)@ == (NetworkStackView {
                        interfaces: old(self)@.interfaces.update(index, *final(stack_interface)),
                        ..old(self)@
                    })
                },
                Err(e) => {
                    &&& e == StackError::InvalidInterface
                    &&& first_named(old(self)@.interfaces, name@, 0).is_none()
                    &&& final(self)@ == old(self)@
                },
            },
    {
        match self.find_named(name) {
            Some(index) => Ok(&mut self.interfaces[index]),
            None => Err(StackError::InvalidInterface),
        }
    }

    /// The routing table, open to changes.
    pub fn routing_table(&mut self) -> (table: &mut RoutingTable)
        ensures
            *table == old(self)@.routing_table,
            final(self)@ == (NetworkStackView { routing_table: *final(table), ..old(self)@ }),
    {
        &mut self.routing_table
    }

    /// Attach an IPv4 network to an interface, and route the network through
    /// that interface, without a gateway.
    pub fn add_ipv4(&mut self, interface: &Interface, ip_net: Ipv4Network) -> (result: StackResult<
        (),
    >)
        requires
            old(self).wf(),
            ip_net.wf(),
        ensures
            final(self).wf(),
            same_devices(old(self)@.interfaces, final(self)@.interfaces),
            route_added(
                old(self)@.routing_table.routes(),
                final(self)@.routing_table.routes(),
                ip_net,
                result is Ok,
            ),
            !has_interface(old(self)@.interfaces, *interface) ==> {
                &&& result == Err::<(), StackError>(StackError::InvalidInterface)
                &&& final(self)@ == old(self)@
            },
            has_interface(old(self)@.interfaces, *interface) ==> ({
                let index = interface_index(old(self)@.interfaces, *interface);
                let pre = old(self)@.interfaces[index]@;
                let post = final(self)@.interfaces[index]@;
                &&& final(self)@.interfaces.len() == old(self)@.interfaces.len()
                &&& forall|i: int|
                    0 <= i < old(self)@.interfaces.len() && i != index
                        ==> #[trigger] final(self)@.interfaces[i] == old(self)@.interfaces[i]
                &&& if pre.addresses.contains(ip_net.spec_ip()) {
                    &&& result == Err::<(), StackError>(StackError::IllegalArgument)
                    &&& post == pre
                    &&& final(self)@.routing_table == old(self)@.routing_table
                } else {
                    &&& result == Ok::<(), StackError>(())
                    &&& post == (StackInterfaceView {
                        addresses: pre.addresses.insert(ip_net.spec_ip()),
                        datas: post.datas,
                        ..pre
                    })
                    &&& post.datas.drop_last() == pre.datas
                    &&& post.datas.len() == pre.datas.len() + 1
                    &&& post.datas.last().is_fresh(ip_net)
                    &&& routed_through(
                        old(self)@.routing_table.routes(),
                        final(self)@.routing_table.routes(),
                        ip_net,
                        *interface,
                    )
                }
            }),
    {
        let index: usize = match self.find_interface(interface) {
            Some(index) => index,
            None => {
                return Err(StackError::InvalidInterface);
            },
        };
        let result = self.interfaces[index].add_ipv4(ip_net);
        proof {
            Self::lemma_one_changed_keeps_wf(*old(self), *self, index as int);
        }
        match result {
            Err(e) => Err(e),
            Ok(()) => {
                self.routing_table.add_route(ip_net, None, interface.clone());
                assert(self@.routing_table.routes().drop_last() =~= old(
                    self,
                )@.routing_table.routes());
                Ok(())
            },
        }
    }

    /// A sender of IPv4 packets to `dst`, on the interface and by way of the
    /// gateway that the routing table names.
    pub fn ipv4_tx(&mut self, dst: Ipv4Addr) -> (result: StackResult<
        Resolution<Ipv4TxImpl<EthernetTxImpl<TxImpl>>>,
    >)
        requires
            old(self).wf(),
        ensures
            final(self).wf(),
            same_devices(old(self)@.interfaces, final(self)@.interfaces),
            routed_ipv4_tx(old(self)@, final(self)@, dst, result),
    {
        match self.routing_table.route(dst) {
            None => Err(StackError::NoRouteToHost),
            Some((gw, interface)) => {
                proof {
                    let routes = self@.routing_table.routes();
                    self.lemma_same_device(interface, routes[best_route(routes, dst)].interface);
                }
                match self.find_interface(&interface) {
                    None => Err(StackError::IllegalArgument),
                    Some(index) => {
                        let result = self.interfaces[index].ipv4_tx(dst, gw);
                        proof {
                            Self::lemma_one_changed_keeps_wf(*old(self), *self, index as int);
                        }
                        result
                    },
                }
            },
        }
    }

    /// A sender of ICMP messages to `dst_ip`.
    pub fn icmp_tx(&mut self, dst_ip: Ipv4Addr) -> (result: StackResult<
        Resolution<IcmpTx<Ipv4TxImpl<EthernetTxImpl<TxImpl>>>>,
    >)
        requires
            old(self).wf(),
        ensures
            final(self).wf(),
            same_devices(old(self)@.interfaces, final(self)@.interfaces),
            routed_ipv4_tx(old(self)@, final(self)@, dst_ip, under_icmp(result)),
    {
        match self.ipv4_tx(dst_ip) {
            Ok(Resolution::Ready(ipv4_tx)) => Ok(Resolution::Ready(IcmpTx::new(ipv4_tx))),
            Ok(Resolution::Waiting(waiter)) => Ok(Resolution::Waiting(waiter)),
            Err(e) => Err(e),
        }
    }

    /// Registers `listener` for ICMP messages of type `icmp_type` that arrive
    /// for `local_ip`, on every interface that has that address. The
    /// unspecified address, and one that no interface has, are refused with
    /// `InvalidInput`.
    pub fn icmp_listen(
        &mut self,
        local_ip: Ipv4Addr,
        icmp_type: IcmpType,
        listener: ListenerId,
    ) -> (result: StackResult<()>)
        requires
            old(self).wf(),
        ensures
            final(self).wf(),
            same_devices(old(self)@.interfaces, final(self)@.interfaces),
            local_ip.spec_is_unspecified() ==> {
                &&& result == Err::<(), StackError>(StackError::InvalidInput)
                &&& final(self)@ == old(self)@
            },
            !local_ip.spec_is_unspecified() ==> {
                &&& final(self)@.routing_table == old(self)@.routing_table
                &&& final(self)@.interfaces.len() == old(self)@.interfaces.len()
                &&& forall|i: int|
                    0 <= i < old(self)@.interfaces.len() ==> icmp_listening(
                        (#[trigger] old(self)@.interfaces[i])@,
                        final(self)@.interfaces[i]@,
                        local_ip,
                        icmp_type,
                        listener,
                    )
                &&& result == if some_interface_has(old(self)@.interfaces, local_ip) {
                    Ok::<(), StackError>(())
                } else {
                    Err::<(), StackError>(StackError::InvalidInput)
                }
            },
    {
        if local_ip.is_unspecified() {
            return Err(StackError::InvalidInput);
        }
        let mut added_to_interface: bool = false;
        let mut i: usize = 0;
        while i < self.interfaces.len()
            invariant
                i <= self.interfaces@.len(),
                old(self).wf(),
                self.routing_table == old(self).routing_table,
                self.interfaces@.len() == old(self).interfaces@.len(),
                forall|j: int|
                    i <= j < self.interfaces@.len() ==> #[trigger] self.interfaces@[j] == old(
                        self,
                    ).interfaces@[j],
                forall|j: int|
                    0 <= j < i ==> (#[trigger] self.interfaces@[j]).wf()
                        && self.interfaces@[j]@.interface == old(self).interfaces@[j]@.interface,
                forall|j: int|
                    0 <= j < i ==> icmp_listening(
                        (#[trigger] old(self).interfaces@[j])@,
                        self.interfaces@[j]@,
                        local_ip,
                        icmp_type,
                        listener,
                    ),
                added_to_interface == some_interface_has(
                    first_n(old(self).interfaces@, i),
                    local_ip,
                ),
            decreases self.interfaces@.len() - i,
        {
            let ghost before = self.interfaces@;
            assert(old(self)@.interfaces[position(i)].wf());
            let result = self.interfaces[i].icmp_listen(local_ip, icmp_type, listener);
            added_to_interface = added_to_interface || result.is_ok();
            proof {
                let seen = first_n(old(self).interfaces@, i);
                let next = old(self).interfaces@.take(i + 1);
                assert(forall|j: int| 0 <= j < i ==> next[j] == seen[j]);
                assert(next[position(i)] == old(self).interfaces@[position(i)]);
                if some_interface_has(seen, local_ip) {
                    let j = choose|j: int|
                        0 <= j < seen.len() && (#[trigger] seen[j])@.addresses.contains(local_ip);
                    assert(next[j]@.addresses.contains(local_ip));
                }
                if some_interface_has(next, local_ip) && !result.is_ok() {
                    let j = choose|j: int|
                        0 <= j < next.len() && (#[trigger] next[j])@.addresses.contains(local_ip);
                    assert(seen[j]@.addresses.contains(local_ip));
                }
                if result.is_ok() {
                    assert(next[position(i)]@.addresses.contains(local_ip));
                }
                assert forall|j: int| i + 1 <= j < self.interfaces@.len() implies
                    #[trigger] self.interfaces@[j] == old(self).interfaces@[j] by {
                    assert(before[j] == old(self).interfaces@[j]);
                }
            }
            i += 1;
        }
        proof {
            assert(first_n(old(self).interfaces@, i) =~= old(self).interfaces@);
            let after = self@.interfaces;
            let origin = old(self)@.interfaces;
            assert forall|a: int, b: int| 0 <= a < b < after.len() implies !(
            #[trigger] after[a])@.interface.same(&(#[trigger] after[b])@.interface) by {
                assert(!origin[a]@.interface.same(&origin[b]@.interface));
            }
            Self::lemma_same_devices(*old(self), *self);
        }
        if added_to_interface {
            Ok(())
        } else {
            Err(StackError::InvalidInput)
        }
    }

    /// A sender of UDP datagrams from port `src` to `dst_port` on `dst_ip`.
    pub fn udp_tx(&mut self, dst_ip: Ipv4Addr, src: u16, dst_port: u16) -> (result: StackResult<
        Resolution<UdpTx<Ipv4TxImpl<EthernetTxImpl<TxImpl>>>>,
    >)
        requires
            old(self).wf(),
        ensures
            final(self).wf(),
            same_devices(old(self)@.interfaces, final(self)@.interfaces),
            routed_ipv4_tx(old(self)@, final(self)@, dst_ip, under_udp(result)),
            result matches Ok(Resolution::Ready(udp)) ==> udp.spec_src_port() == src
                && udp.spec_dst_port() == dst_port,
    {
        match self.ipv4_tx(dst_ip) {
            Ok(Resolution::Ready(ipv4_tx)) => Ok(
                Resolution::Ready(UdpTx::new(ipv4_tx, src, dst_port)),
            ),
            Ok(Resolution::Waiting(waiter)) => Ok(Resolution::Waiting(waiter)),
            Err(e) => Err(e),
        }
    }

    /// Binds `listener` to the UDP port of `addr`. IPv6 addresses are
    /// refused with `InvalidInput`; for IPv4 see `udp_listening`.
    pub fn udp_listen(&mut self, addr: SocketAddr, listener: ListenerId) -> (result: StackResult<
        SocketAddr,
    >)
        requires
            old(self).wf(),
        ensures
            final(self).wf(),
            same_devices(old(self)@.interfaces, final(self)@.interfaces),
            match addr {
                SocketAddr::V4(v4) => udp_listening(old(self)@, final(self)@, v4, listener, result),
                SocketAddr::V6(_) => {
                    &&& result matches Err(StackError::InvalidInput)
                    &&& final(self)@ == old(self)@
                },
            },
    {
        match addr {
            SocketAddr::V4(addr) => self.udp_listen_ipv4(addr, listener),
            SocketAddr::V6(_) => Err(StackError::InvalidInput),
        }
    }

    fn udp_listen_ipv4(&mut self, addr: SocketAddrV4, listener: ListenerId) -> (result: StackResult<
        SocketAddr,
    >)
        requires
            old(self).wf(),
        ensures
            final(self).wf(),
            same_devices(old(self)@.interfaces, final(self)@.interfaces),
            udp_listening(old(self)@, final(self)@, addr, listener, result),
    {
        let local_ip: Ipv4Addr = addr.ip();
        let mut local_port: u16 = addr.port();
        if local_ip.is_unspecified() {
            return Err(StackError::AddrNotAvailable);
        }
        let (index, at): (usize, usize) = match self.find_owner(local_ip) {
            Some(found) => found,
            None => {
                return Err(StackError::InvalidInput);
            },
        };
        assert(self@.interfaces[index as int].wf());
        if local_port == 0 {
            match self.get_random_port(self.interfaces[index].udp_listeners(at)) {
                Some(port) => {
                    local_port = port;
                },
                None => {
                    return Err(StackError::AddrInUse);
                },
            }
        }
        if !self.interfaces[index].udp_listeners(at).contains_key(local_port) {
            self.interfaces[index].udp_bind(at, local_port, listener);
            proof {
                Self::lemma_one_changed_keeps_wf(*old(self), *self, index as int);
            }
            Ok(SocketAddr::V4(SocketAddrV4::new(local_ip, local_port)))
        } else {
            Err(StackError::AddrInUse)
        }
    }

    /// Picks a port of the local range that `listeners` has free: drawn at
    /// random, and drawn again on a collision; after `LOCAL_PORT_DRAWS`
    /// collisions the first free port in order. `None` where every port of
    /// the range is held.
    fn get_random_port(&self, listeners: &UdpListenerLookup) -> (port: Option<u16>)
        ensures
            match port {
                Some(p) => in_local_port_range(p) && !listeners.bound().contains_key(p),
                None => !has_free_local_port(listeners.bound()),
            },
    {
        let mut draws: usize = 0;
        while draws < LOCAL_PORT_DRAWS
            invariant
                draws <= LOCAL_PORT_DRAWS,
            decreases LOCAL_PORT_DRAWS - draws,
        {
            let n: u16 = random_port(LOCAL_PORT_RANGE_START, LOCAL_PORT_RANGE_END);
            match accept_port(listeners, n) {
                Some(port) => {
                    return Some(port);
                },
                None => {},
            }
            draws += 1;
        }
        first_free_port(listeners, LOCAL_PORT_RANGE_START)
    }
}

} // verus!

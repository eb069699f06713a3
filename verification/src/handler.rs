//! The state of all connections and of the scan.
use vstd::pervasive::unreached;
use vstd::prelude::*;

use crate::address_map::AddressMap;
use crate::connection::{fresh_connection, Connection, ConnectionView};
use crate::error::{outcome, texts, BleError, ErrorView};
use crate::models::{AdapterId, LinkId, LinkState, LockId, LockName, PeripheralId, TaskId};
use crate::resolve::{default_ignores_order, default_of, resolve_default_address, text_outcome};

verus! {

/// The devices that were discovered, the connections, and what else the operations share.
/// `S` and `A` are the types of disconnect callbacks, `C` that of subscription callbacks, and
/// `T` that of the channels that take updates.
pub struct Handler<S, A, C, T> {
    devices: AddressMap<PeripheralId>,
    connections: AddressMap<Connection<S, A, C>>,
    links: AddressMap<LinkState>,
    connected: bool,
    connection_update_channel: Vec<T>,
    scan_update_channel: Vec<T>,
    scan_task: Option<TaskId>,
    adapter: Option<AdapterId>,
    held: Vec<LockName>,
    write_timeout_in_ms: u32,
    skip_waiting_for_write_to_complete: bool,
    next_token: u64,
}

/// The mathematical model of [`Handler`].
#[verifier::ext_equal]
pub struct HandlerView<S, A, C, T> {
    /// The peripherals that were discovered, by address.
    pub devices: Map<Seq<char>, PeripheralId>,
    /// The connections, by address.
    pub connections: Map<Seq<char>, ConnectionView<S, A, C>>,
    /// The links, by address. An address keeps its link when its connection ends.
    pub links: Map<Seq<char>, LinkState>,
    /// Whether a device is connected, as last announced.
    pub connected: bool,
    pub connection_update_channel: Seq<T>,
    pub scan_update_channel: Seq<T>,
    /// The task of the scan that was started last.
    pub scan_task: Option<TaskId>,
    /// The adapter, once it was initialized.
    pub adapter: Option<AdapterId>,
    /// The locks that operations and notifications hold from one step to another.
    pub held: Set<LockName>,
    pub write_timeout_in_ms: u32,
    pub skip_waiting_for_write_to_complete: bool,
    /// Locks, links and tasks below this number have been given out.
    pub next_token: u64,
}

/// `s` lists the elements of `dom`, each once.
pub open spec fn enumerates(s: Seq<Seq<char>>, dom: Set<Seq<char>>) -> bool {
    s.no_duplicates() && s.to_set() =~= dom
}

impl<S, A, C, T> HandlerView<S, A, C, T> {
    /// Whether there is a connection for the address.
    #[verifier::inline]
    pub open spec fn tracks(self, address: Seq<char>) -> bool {
        self.connections.dom().contains(address)
    }

    /// Each connection has a lock of its own, and each address a link of its own, which is
    /// that of its connection if there is one and was told last whether that is connected.
    pub open spec fn inv(self) -> bool {
        &&& self.connections.dom().finite()
        &&& forall|a: Seq<char>|
            #[trigger] self.tracks(a) ==> self.connections[a].lock < self.next_token
                && self.connections[a].link < self.next_token
        &&& forall|a: Seq<char>, b: Seq<char>|
            #[trigger] self.tracks(a) && #[trigger] self.tracks(b) && self.connections[a].lock
                == self.connections[b].lock ==> a == b
        &&& forall|a: Seq<char>, b: Seq<char>|
            #[trigger] self.tracks(a) && #[trigger] self.tracks(b) && self.connections[a].link
                == self.connections[b].link ==> a == b
        &&& forall|a: Seq<char>| #[trigger]
            self.links.dom().contains(a) ==> self.links[a].link < self.next_token
        &&& forall|a: Seq<char>, b: Seq<char>| #[trigger]
            self.links.dom().contains(a) && #[trigger] self.links.dom().contains(b)
                && self.links[a].link == self.links[b].link ==> a == b
        &&& forall|a: Seq<char>| #[trigger]
            self.tracks(a) ==> self.links.dom().contains(a) && self.links[a] == (LinkState {
                link: self.connections[a].link,
                told: self.connections[a].connected,
            })
    }

    /// A few more locks, links and tasks can be given out.
    pub open spec fn has_tokens(self) -> bool {
        self.next_token <= u64::MAX - 2
    }

    /// One more lock, link or task is given out.
    pub open spec fn with_token(self) -> Self {
        HandlerView { next_token: (self.next_token + 1) as u64, ..self }
    }

    /// The address has a link: the one that it had before, else a new one.
    pub open spec fn with_link(self, address: Seq<char>) -> Self {
        if self.links.dom().contains(address) {
            self
        } else {
            HandlerView {
                links: self.links.insert(address, LinkState { link: self.next_token, told: false }),
                ..self.with_token()
            }
        }
    }

    /// A connection for the address is begun, unless there is one. It is not connected yet.
    pub open spec fn with_connection(self, address: Seq<char>, peripheral: PeripheralId) -> Self {
        if self.tracks(address) {
            self
        } else {
            let h = self.with_link(address);
            let link = h.links[address].link;
            HandlerView {
                connections: h.connections.insert(
                    address,
                    fresh_connection(peripheral, h.next_token, link),
                ),
                links: h.links.insert(address, LinkState { link, told: false }),
                ..h.with_token()
            }
        }
    }

    /// The connection for the address is connected, and its link is told so.
    pub open spec fn marked(self, address: Seq<char>) -> Self {
        let c = self.connections[address];
        HandlerView {
            connections: self.connections.insert(address, ConnectionView { connected: true, ..c }),
            links: self.links.insert(address, LinkState { link: c.link, told: true }),
            ..self
        }
    }

    /// The connection for the address is given up.
    pub open spec fn without(self, address: Seq<char>) -> Self {
        HandlerView { connections: self.connections.remove(address), ..self }
    }

    /// The link is told that its device is not connected.
    pub open spec fn silenced(self, link: LinkId) -> Self {
        HandlerView {
            links: self.links.map_values(
                |s: LinkState|
                    if s.link == link {
                        LinkState { link, told: false }
                    } else {
                        s
                    },
            ),
            ..self
        }
    }

    /// The lock is taken.
    pub open spec fn holding(self, name: LockName) -> Self {
        HandlerView { held: self.held.insert(name), ..self }
    }

    /// The lock is given back.
    pub open spec fn releasing(self, name: LockName) -> Self {
        HandlerView { held: self.held.remove(name), ..self }
    }

    /// A notification of the connection with the lock is being handed out.
    pub open spec fn is_notifying(self, lock: LockId) -> bool {
        self.held.contains(LockName::Listeners(lock))
    }

    /// The address is that of the connection that has the lock.
    pub open spec fn holds_lock(self, address: Seq<char>, lock: LockId) -> bool {
        self.tracks(address) && self.connections[address].lock == lock
    }

    /// There is a connection that has the lock.
    pub open spec fn lock_in_use(self, lock: LockId) -> bool {
        exists|a: Seq<char>| self.holds_lock(a, lock)
    }

    /// The link is that of the connection for the address.
    pub open spec fn holds_link(self, address: Seq<char>, link: LinkId) -> bool {
        self.tracks(address) && self.connections[address].link == link
    }

    /// The link is that of a connection.
    pub open spec fn link_in_use(self, link: LinkId) -> bool {
        exists|a: Seq<char>| self.holds_link(a, link)
    }

    /// Whether the device at the address is connected.
    pub open spec fn is_connected_at(self, address: Seq<char>) -> bool {
        self.tracks(address) && self.connections[address].connected
    }

    /// The addresses of the connected devices.
    pub open spec fn connected_set(self) -> Set<Seq<char>> {
        self.connections.dom().filter(|a: Seq<char>| self.connections[a].connected)
    }

    /// Whether any device is connected.
    pub open spec fn any_connected(self) -> bool {
        exists|a: Seq<char>| self.is_connected_at(a)
    }

    /// The flag says again whether any device is connected.
    pub open spec fn refreshed(self) -> Self {
        HandlerView { connected: self.any_connected(), ..self }
    }

    /// What is announced when the flag is refreshed: its new value if that changed.
    pub open spec fn refresh_news(self) -> Option<bool> {
        if self.connected != self.any_connected() {
            Some(self.any_connected())
        } else {
            None
        }
    }

    /// The connection for the address, or the error that there is none.
    pub open spec fn connection_at(self, address: Seq<char>) -> Result<ConnectionView<S, A, C>, ErrorView> {
        if self.tracks(address) {
            Ok(self.connections[address])
        } else {
            Err(ErrorView::NoDeviceConnected)
        }
    }

    /// The peripheral of the connection for the address, or the error that there is none.
    pub open spec fn peripheral_at(self, address: Seq<char>) -> Result<PeripheralId, ErrorView> {
        match self.connection_at(address) {
            Ok(c) => Ok(c.peripheral),
            Err(e) => Err(e),
        }
    }

    /// How long a write may take, in milliseconds, and whether to wait until it is complete, are
    /// set. No limit counts as zero.
    pub open spec fn with_write_behaviour(self, timeout_in_ms: Option<u32>, skip: bool) -> Self {
        HandlerView {
            write_timeout_in_ms: match timeout_in_ms {
                Some(ms) => ms,
                None => 0,
            },
            skip_waiting_for_write_to_complete: skip,
            ..self
        }
    }

    /// How long a write may take, and whether to wait until it is complete.
    pub open spec fn write_behaviour(self) -> (u32, bool) {
        (self.write_timeout_in_ms, self.skip_waiting_for_write_to_complete)
    }

    /// Whether a scan is running, where `finished` says whether the task of the last one has
    /// ended.
    pub open spec fn scanning(self, finished: bool) -> bool {
        self.scan_task is Some && !finished
    }

    /// The link of the connection for the address, or the error that there is none.
    pub open spec fn link_at(self, address: Seq<char>) -> Result<LinkId, ErrorView> {
        match self.connection_at(address) {
            Ok(c) => Ok(c.link),
            Err(e) => Err(e),
        }
    }

    /// The address meant by a call without one.
    pub open spec fn default_address(self) -> Result<Seq<char>, ErrorView> {
        default_of(choose|s: Seq<Seq<char>>| enumerates(s, self.connections.dom()))
    }
}

impl<S, A, C, T> View for Handler<S, A, C, T> {
    type V = HandlerView<S, A, C, T>;

    closed spec fn view(&self) -> HandlerView<S, A, C, T> {
        HandlerView {
            devices: self.devices@,
            connections: self.connections@,
            links: self.links@,
            connected: self.connected,
            connection_update_channel: self.connection_update_channel@,
            scan_update_channel: self.scan_update_channel@,
            scan_task: self.scan_task,
            adapter: self.adapter,
            held: self.held@.to_set(),
            write_timeout_in_ms: self.write_timeout_in_ms,
            skip_waiting_for_write_to_complete: self.skip_waiting_for_write_to_complete,
            next_token: self.next_token,
        }
    }
}

/// The test whether the device at an address is connected.
pub open spec fn is_connected_in<S, A, C, T>(h: HandlerView<S, A, C, T>) -> spec_fn(Seq<char>) -> bool {
    |a: Seq<char>| h.connections[a].connected
}

proof fn connected_are_enumerated<S, A, C, T>(h: HandlerView<S, A, C, T>, list: Seq<Seq<char>>)
    requires
        enumerates(list, h.connections.dom()),
    ensures
        enumerates(list.filter(is_connected_in(h)), h.connected_set()),
{
    let p = is_connected_in(h);
    let kept = list.filter(p);
    broadcast use {Seq::lemma_filter_pred, Seq::lemma_filter_contains_rev};

    filter_keeps_distinct(list, p);
    assert forall|a: Seq<char>| kept.to_set().contains(a) == h.connected_set().contains(a) by {
        if kept.contains(a) {
            let i = choose|i: int| 0 <= i < kept.len() && kept[i] == a;
            assert(p(kept[i]));
            assert(list.contains(a));
            assert(list.to_set().contains(a));
        }
        if h.connected_set().contains(a) {
            assert(list.to_set().contains(a));
            let i = choose|i: int| 0 <= i < list.len() && list[i] == a;
            assert(p(list[i]));
            list.lemma_filter_contains(p, i);
            assert(kept.contains(a));
        }
    }
    assert(kept.to_set() =~= h.connected_set());
}

proof fn pushed_contains(s: Seq<LockName>, x: LockName, y: LockName)
    ensures
        s.push(x).contains(y) == (s.contains(y) || y == x),
{
    if s.contains(y) {
        let i = choose|i: int| 0 <= i < s.len() && s[i] == y;
        assert(s.push(x)[i] == y);
    }
    if y == x {
        assert(s.push(x)[s.len() as int] == y);
    }
}

proof fn filter_keeps_distinct(s: Seq<Seq<char>>, p: spec_fn(Seq<char>) -> bool)
    requires
        s.no_duplicates(),
    ensures
        s.filter(p).no_duplicates(),
    decreases s.len(),
{
    reveal(Seq::filter);
    if s.len() > 0 {
        broadcast use Seq::lemma_filter_contains_rev;

        let rest = s.drop_last().filter(p);
        filter_keeps_distinct(s.drop_last(), p);
        assert forall|i: int| 0 <= i < rest.len() implies rest[i] != s.last() by {
            assert(rest.contains(rest[i]));
            assert(s.drop_last().contains(rest[i]));
        }
    }
}

proof fn enumerations_agree(a: Seq<Seq<char>>, b: Seq<Seq<char>>, dom: Set<Seq<char>>)
    requires
        enumerates(a, dom),
        enumerates(b, dom),
    ensures
        a.to_multiset() == b.to_multiset(),
{
    broadcast use {vstd::seq_lib::group_to_multiset_ensures, vstd::multiset::group_multiset_axioms};

    a.lemma_multiset_has_no_duplicates();
    b.lemma_multiset_has_no_duplicates();
    assert forall|x: Seq<char>| a.to_multiset().count(x) == b.to_multiset().count(x) by {
        assert(a.contains(x) == a.to_set().contains(x));
        assert(b.contains(x) == b.to_set().contains(x));
        assert(a.contains(x) == (a.to_multiset().count(x) > 0));
        assert(b.contains(x) == (b.to_multiset().count(x) > 0));
    }
    assert(a.to_multiset() =~= b.to_multiset());
}

/// The address meant by a call without one is the one that any list of the connected devices
/// gives.
pub proof fn default_address_of_list<S, A, C, T>(h: HandlerView<S, A, C, T>, list: Seq<Seq<char>>)
    requires
        enumerates(list, h.connections.dom()),
    ensures
        h.default_address() == default_of(list),
{
    let s = choose|s: Seq<Seq<char>>| enumerates(s, h.connections.dom());
    enumerations_agree(s, list, h.connections.dom());
    default_ignores_order(s, list);
}

impl<S, A, C, T> Handler<S, A, C, T> {
    /// No address is listed twice among the devices, the connections or the links.
    pub closed spec fn maps_wf(self) -> bool {
        self.devices.wf() && self.connections.wf() && self.links.wf()
    }

    /// The invariant of the handler.
    pub open spec fn wf(self) -> bool {
        self.maps_wf() && self@.inv()
    }

    /// A handler that knows no device.
    pub fn new() -> (r: Self)
        ensures
            r.wf(),
            r@ == (HandlerView::<S, A, C, T> {
                devices: Map::empty(),
                connections: Map::empty(),
                links: Map::empty(),
                connected: false,
                connection_update_channel: Seq::empty(),
                scan_update_channel: Seq::empty(),
                scan_task: None,
                adapter: None,
                held: Set::empty(),
                write_timeout_in_ms: 0,
                skip_waiting_for_write_to_complete: false,
                next_token: 0,
            }),
    {
        let r = Handler {
            devices: AddressMap::new(),
            connections: AddressMap::new(),
            links: AddressMap::new(),
            connected: false,
            connection_update_channel: Vec::new(),
            scan_update_channel: Vec::new(),
            scan_task: None,
            adapter: None,
            held: Vec::new(),
            write_timeout_in_ms: 0,
            skip_waiting_for_write_to_complete: false,
            next_token: 0,
        };
        assert(r@.held =~= Set::empty());
        r
    }

    /// Sets how long a write may take, in milliseconds, and whether to wait until it is
    /// complete. No limit counts as zero.
    pub fn set_write_behaviour(&mut self, timeout_in_ms: Option<u32>, skip_waiting_on_success: bool)
        requires
            old(self).wf(),
        ensures
            final(self).wf(),
            final(self)@ == (HandlerView {
                write_timeout_in_ms: match timeout_in_ms {
                    Some(ms) => ms,
                    None => 0,
                },
                skip_waiting_for_write_to_complete: skip_waiting_on_success,
                ..old(self)@
            }),
            final(self)@ == old(self)@.with_write_behaviour(timeout_in_ms, skip_waiting_on_success),
    {
        self.write_timeout_in_ms = timeout_in_ms.unwrap_or(0);
        self.skip_waiting_for_write_to_complete = skip_waiting_on_success;
    }

    /// What was set by [`Handler::set_write_behaviour`].
    pub fn get_write_behaviour(&self) -> (r: (u32, bool))
        ensures
            r == (self@.write_timeout_in_ms, self@.skip_waiting_for_write_to_complete),
            r == self@.write_behaviour(),
    {
        (self.write_timeout_in_ms, self.skip_waiting_for_write_to_complete)
    }

    /// Whether at least one device is connected.
    pub fn is_connected(&self) -> (r: bool)
        ensures
            r == self@.connected,
    {
        self.connected
    }

    /// Whether the device at the address is connected.
    pub fn is_connected_to(&self, address: &str) -> (r: bool)
        requires
            self.wf(),
        ensures
            r == (self@.tracks(address@) && self@.connections[address@].connected),
    {
        match self.connections.get(address) {
            Some(c) => c.connected,
            None => false,
        }
    }

    /// Whether there is a connection for the address, be it that the device is connected or is
    /// still being connected.
    pub fn has_connection(&self, address: &str) -> (r: bool)
        requires
            self.wf(),
        ensures
            r == self@.tracks(address@),
    {
        self.connections.contains_key(address)
    }

    /// The addresses of the connected devices, each once.
    pub fn connected_addresses(&self) -> (r: Vec<String>)
        requires
            self.wf(),
        ensures
            enumerates(texts(r@), self@.connected_set()),
    {
        let ghost list = self.connections.key_seq();
        proof {
            self.connections.key_seq_is_domain();
        }
        let mut out: Vec<String> = Vec::new();
        let mut i: usize = 0;
        while i < self.connections.len()
            invariant
                self.wf(),
                list == self.connections.key_seq(),
                list.no_duplicates(),
                list.to_set() =~= self@.connections.dom(),
                i <= list.len(),
                texts(out@) == list.take(i as int).filter(is_connected_in(self@)),
            decreases list.len() - i,
        {
            proof {
                assert(list.take(i + 1).drop_last() =~= list.take(i as int));
                reveal(Seq::filter);
                assert(list.to_set().contains(list[i as int]));
            }
            let ghost before = out@;
            if self.connections.value(i).connected {
                out.push(self.connections.key(i).clone());
                assert(texts(out@) =~= texts(before).push(list[i as int]));
            }
            i = i + 1;
        }
        proof {
            assert(list.take(i as int) =~= list);
            connected_are_enumerated(self@, list);
        }
        out
    }

    /// The device meant by a call without an address: the only one that has a connection. With
    /// none the error is `NoDeviceConnected`, with several it is `AmbiguousDevice`. A device
    /// that is still being connected counts.
    pub fn default_address(&self) -> (r: Result<String, BleError>)
        requires
            self.wf(),
        ensures
            text_outcome(r) == self@.default_address(),
    {
        let addresses = self.connections.keys();
        proof {
            self.connections.key_seq_is_domain();
            default_address_of_list(self@, texts(addresses@));
        }
        resolve_default_address(&addresses)
    }

    /// The peripheral that was discovered under the address.
    pub fn device(&self, address: &str) -> (r: Option<PeripheralId>)
        requires
            self.wf(),
        ensures
            r == (if self@.devices.dom().contains(address@) {
                Some(self@.devices[address@])
            } else {
                None
            }),
    {
        match self.devices.get(address) {
            Some(p) => Some(*p),
            None => None,
        }
    }

    /// Whether no device was discovered.
    pub fn has_no_devices(&self) -> (r: bool)
        requires
            self.wf(),
        ensures
            r == (self@.devices.dom() =~= Set::<Seq<char>>::empty()),
    {
        self.devices.is_empty()
    }

    /// The connection for the address.
    pub fn connection(&self, address: &str) -> (r: Option<&Connection<S, A, C>>)
        requires
            self.wf(),
        ensures
            match r {
                Some(c) => self@.tracks(address@) && c@ == self@.connections[address@],
                None => !self@.tracks(address@),
            },
    {
        self.connections.get(address)
    }

    /// The peripheral of the connection for the address.
    fn peripheral_of(&self, address: &str) -> (r: Result<PeripheralId, BleError>)
        requires
            self.wf(),
        ensures
            outcome(r) == self@.peripheral_at(address@),
    {
        match self.connections.get(address) {
            Some(c) => Ok(c.peripheral),
            None => Err(BleError::NoDeviceConnected),
        }
    }

    /// The peripheral of the only connected device.
    fn default_peripheral(&self) -> (r: Result<PeripheralId, BleError>)
        requires
            self.wf(),
        ensures
            outcome(r) == match self@.default_address() {
                Ok(a) => self@.peripheral_at(a),
                Err(e) => Err(e),
            },
    {
        match self.default_address() {
            Ok(address) => self.peripheral_of(address.as_str()),
            Err(e) => Err(e),
        }
    }

    /// The peripheral whose MTU is that of the device at the address.
    pub fn mtu_of(&self, address: &str) -> (r: Result<PeripheralId, BleError>)
        requires
            self.wf(),
        ensures
            outcome(r) == self@.peripheral_at(address@),
    {
        self.peripheral_of(address)
    }

    /// The peripheral whose MTU is that of the only connected device.
    pub fn mtu(&self) -> (r: Result<PeripheralId, BleError>)
        requires
            self.wf(),
        ensures
            outcome(r) == match self@.default_address() {
                Ok(a) => self@.peripheral_at(a),
                Err(e) => Err(e),
            },
    {
        self.default_peripheral()
    }

    /// The peripheral of the device that is connected at the address.
    pub fn connected_device_at(&self, address: &str) -> (r: Result<PeripheralId, BleError>)
        requires
            self.wf(),
        ensures
            outcome(r) == self@.peripheral_at(address@),
    {
        self.peripheral_of(address)
    }

    /// The peripheral of the only connected device.
    pub fn connected_device(&self) -> (r: Result<PeripheralId, BleError>)
        requires
            self.wf(),
        ensures
            outcome(r) == match self@.default_address() {
                Ok(a) => self@.peripheral_at(a),
                Err(e) => Err(e),
            },
    {
        self.default_peripheral()
    }

    /// The peripherals of all connected devices: for each of them one.
    pub fn connected_devices(&self) -> (r: Vec<PeripheralId>)
        requires
            self.wf(),
        ensures
            exists|list: Seq<Seq<char>>| #[trigger]
                enumerates(list, self@.connected_set()) && r@ =~= list.map_values(
                    |a: Seq<char>| self@.connections[a].peripheral,
                ),
            forall|p: PeripheralId|
                #[trigger] r@.contains(p) == exists|a: Seq<char>|
                    self@.is_connected_at(a) && self@.connections[a].peripheral == p,
    {
        let addresses = self.connected_addresses();
        let ghost list = texts(addresses@);
        let mut out: Vec<PeripheralId> = Vec::new();
        let mut i: usize = 0;
        while i < addresses.len()
            invariant
                self.wf(),
                list == texts(addresses@),
                enumerates(list, self@.connected_set()),
                i <= addresses@.len(),
                out@.len() == i,
                forall|j: int|
                    0 <= j < i ==> #[trigger] out@[j] == self@.connections[list[j]].peripheral,
            decreases addresses@.len() - i,
        {
            assert(list[i as int] == addresses@[i as int]@);
            assert(list.to_set().contains(list[i as int]));
            match self.connections.get(addresses[i].as_str()) {
                Some(c) => {
                    out.push(c.peripheral);
                },
                None => unreached(),
            }
            i = i + 1;
        }
        assert(out@ =~= list.map_values(|a: Seq<char>| self@.connections[a].peripheral));
        assert(enumerates(list, self@.connected_set()));
        assert forall|p: PeripheralId|
            #[trigger] out@.contains(p) == exists|a: Seq<char>|
                self@.is_connected_at(a) && self@.connections[a].peripheral == p by {
            if out@.contains(p) {
                let j = choose|j: int| 0 <= j < out@.len() && out@[j] == p;
                assert(list.to_set().contains(list[j]));
                assert(self@.is_connected_at(list[j]));
            }
            if exists|a: Seq<char>| self@.is_connected_at(a) && self@.connections[a].peripheral == p {
                let a = choose|a: Seq<char>|
                    self@.is_connected_at(a) && self@.connections[a].peripheral == p;
                assert(list.to_set().contains(a));
                let j = choose|j: int| 0 <= j < list.len() && list[j] == a;
                assert(out@[j] == p);
            }
        }
        out
    }

    /// The link that carries the connection state of the device at the address.
    pub fn connection_update_receiver(&self, address: &str) -> (r: Result<LinkId, BleError>)
        requires
            self.wf(),
        ensures
            outcome(r) == match self@.connection_at(address@) {
                Ok(c) => Ok(c.link),
                Err(e) => Err(e),
            },
            outcome(r) == self@.link_at(address@),
    {
        match self.connections.get(address) {
            Some(c) => Ok(c.link),
            None => Err(BleError::NoDeviceConnected),
        }
    }

    /// Whether a scan is running. `finished` says whether the task of the last scan has
    /// ended.
    pub fn is_scanning(&self, finished: bool) -> (r: bool)
        ensures
            r == (self@.scan_task is Some && !finished),
            r == self@.scanning(finished),
    {
        match self.scan_task {
            Some(_) => !finished,
            None => false,
        }
    }

    /// The task of the scan that was started last.
    pub fn scan_task(&self) -> (r: Option<TaskId>)
        ensures
            r == self@.scan_task,
    {
        self.scan_task
    }

    /// Takes a channel for changes of the scanning status.
    pub fn set_scanning_update_channel(&mut self, tx: T)
        requires
            old(self).wf(),
        ensures
            final(self).wf(),
            final(self)@ == (HandlerView {
                scan_update_channel: old(self)@.scan_update_channel.push(tx),
                ..old(self)@
            }),
    {
        self.scan_update_channel.push(tx);
    }

    /// The channels for changes of the scanning status, in the order in which they came.
    pub fn scanning_update_channels(&self) -> (r: &Vec<T>)
        ensures
            r@ == self@.scan_update_channel,
    {
        &self.scan_update_channel
    }

    /// Takes a channel for changes of whether any device is connected.
    pub fn set_connection_update_channel(&mut self, tx: T)
        requires
            old(self).wf(),
        ensures
            final(self).wf(),
            final(self)@ == (HandlerView {
                connection_update_channel: old(self)@.connection_update_channel.push(tx),
                ..old(self)@
            }),
    {
        self.connection_update_channel.push(tx);
    }

    /// The channels for changes of whether any device is connected, in the order in which
    /// they came.
    pub fn connection_update_channels(&self) -> (r: &Vec<T>)
        ensures
            r@ == self@.connection_update_channel,
    {
        &self.connection_update_channel
    }

    fn any_device_connected(&self) -> (r: bool)
        requires
            self.wf(),
        ensures
            r == self@.any_connected(),
    {
        let ghost list = self.connections.key_seq();
        proof {
            self.connections.key_seq_is_domain();
        }
        let mut i: usize = 0;
        while i < self.connections.len()
            invariant
                self.wf(),
                list == self.connections.key_seq(),
                list.to_set() =~= self@.connections.dom(),
                i <= list.len(),
                forall|j: int| 0 <= j < i ==> !self@.connections[#[trigger] list[j]].connected,
            decreases list.len() - i,
        {
            if self.connections.value(i).connected {
                assert(list.to_set().contains(list[i as int]));
                assert(self@.is_connected_at(list[i as int]));
                return true;
            }
            i = i + 1;
        }
        assert forall|a: Seq<char>| !self@.is_connected_at(a) by {
            if self@.tracks(a) {
                assert(list.to_set().contains(a));
                let j = choose|j: int| 0 <= j < list.len() && list[j] == a;
                assert(!self@.connections[list[j]].connected);
            }
        }
        false
    }

    /// Recomputes whether any device is connected. The result is the new value if it changed:
    /// it is to be announced.
    pub fn refresh_aggregate_connected(&mut self) -> (r: Option<bool>)
        requires
            old(self).wf(),
        ensures
            final(self).wf(),
            final(self)@ == old(self)@.refreshed(),
            r == old(self)@.refresh_news(),
    {
        let any = self.any_device_connected();
        if self.connected != any {
            self.connected = any;
            Some(any)
        } else {
            None
        }
    }

    /// Whether a few more locks, links and tasks can be given out.
    pub fn can_continue(&self) -> (r: bool)
        ensures
            r == self@.has_tokens(),
    {
        self.next_token <= u64::MAX - 2
    }

    /// Gives out a number that was not given out before.
    pub(crate) fn fresh_token(&mut self) -> (r: u64)
        requires
            old(self).wf(),
            old(self)@.next_token < u64::MAX,
        ensures
            final(self).wf(),
            r == old(self)@.next_token,
            final(self)@ == old(self)@.with_token(),
    {
        let token = self.next_token;
        self.next_token = token + 1;
        token
    }

    /// Begins a connection for the address, unless there is one.
    pub(crate) fn track(&mut self, address: &str, peripheral: PeripheralId)
        requires
            old(self).wf(),
            old(self)@.has_tokens(),
        ensures
            final(self).wf(),
            final(self)@ == old(self)@.with_connection(address@, peripheral),
    {
        if !self.connections.contains_key(address) {
            let ghost before = self@;
            let link = match self.links.get(address) {
                Some(s) => s.link,
                None => {
                    let link = self.next_token;
                    self.next_token = link + 1;
                    link
                },
            };
            let lock = self.next_token;
            self.next_token = lock + 1;
            self.links.insert(address.to_owned(), LinkState { link, told: false });
            self.connections.insert(address.to_owned(), Connection::new(peripheral, lock, link));
            assert(self@ =~= before.with_connection(address@, peripheral));
            assert forall|a: Seq<char>| #[trigger] self@.tracks(a) && a != address@ implies before.tracks(a)
                && self@.connections[a] == before.connections[a] by {}
            assert forall|a: Seq<char>| #[trigger] self@.links.dom().contains(a) && a != address@ implies
                before.links.dom().contains(a) && self@.links[a] == before.links[a] by {}
        }
    }

    /// Marks the device at the address as connected.
    pub(crate) fn mark(&mut self, address: &str)
        requires
            old(self).wf(),
            old(self)@.tracks(address@),
        ensures
            final(self).wf(),
            final(self)@ == old(self)@.marked(address@),
    {
        let ghost before = self@;
        match self.connections.remove(address) {
            None => unreached(),
            Some(c) => {
                let mut c = c;
                c.connected = true;
                self.links.insert(address.to_owned(), LinkState { link: c.link, told: true });
                self.connections.insert(address.to_owned(), c);
                assert(self@ =~= before.marked(address@));
                assert forall|a: Seq<char>| #[trigger] self@.tracks(a) implies before.tracks(a)
                    && self@.connections[a].lock == before.connections[a].lock
                    && self@.connections[a].link == before.connections[a].link && (a != address@
                    ==> self@.connections[a] == before.connections[a]) by {}
                assert forall|a: Seq<char>| #[trigger] self@.links.dom().contains(a) implies
                    before.links.dom().contains(a) && self@.links[a].link == before.links[a].link && (a
                    != address@ ==> self@.links[a] == before.links[a]) by {}
            },
        }
    }

    /// Notes that the link is told that its device is not connected.
    pub(crate) fn silence(&mut self, link: LinkId)
        requires
            old(self).wf(),
            !old(self)@.link_in_use(link),
        ensures
            final(self).wf(),
            final(self)@ == old(self)@.silenced(link),
    {
        let ghost before = self@;
        let ghost list = self.links.key_seq();
        proof {
            self.links.key_seq_is_domain();
        }
        let mut i: usize = 0;
        while i < self.links.len()
            invariant
                self.wf(),
                self@ == before,
                before == old(self)@,
                !before.link_in_use(link),
                list == self.links.key_seq(),
                list.to_set() =~= before.links.dom(),
                i <= list.len(),
                forall|j: int| 0 <= j < i ==> before.links[#[trigger] list[j]].link != link,
            decreases list.len() - i,
        {
            if self.links.value(i).link == link {
                let address = self.links.key(i).clone();
                assert(list.to_set().contains(list[i as int]));
                self.links.insert(address, LinkState { link, told: false });
                assert(self@.links =~= before.silenced(link).links);
                assert forall|a: Seq<char>| #[trigger] self@.tracks(a) implies a != address@ by {
                    if a == address@ {
                        assert(before.holds_link(a, link));
                    }
                }
                assert forall|a: Seq<char>| #[trigger] self@.links.dom().contains(a) implies
                    before.links.dom().contains(a) && self@.links[a].link == before.links[a].link && (a
                    != address@ ==> self@.links[a] == before.links[a]) by {}
                return;
            }
            i = i + 1;
        }
        assert forall|a: Seq<char>| #[trigger] before.links.dom().contains(a) implies before.links[a].link
            != link by {
            assert(list.to_set().contains(a));
            let j = choose|j: int| 0 <= j < list.len() && list[j] == a;
            assert(before.links[list[j]].link != link);
        }
        assert(self@.links =~= before.silenced(link).links);
    }

    /// Whether the link is that of a connection.
    pub(crate) fn is_link_in_use(&self, link: LinkId) -> (r: bool)
        requires
            self.wf(),
        ensures
            r == self@.link_in_use(link),
    {
        let ghost list = self.connections.key_seq();
        proof {
            self.connections.key_seq_is_domain();
        }
        let mut i: usize = 0;
        while i < self.connections.len()
            invariant
                self.wf(),
                list == self.connections.key_seq(),
                list.to_set() =~= self@.connections.dom(),
                i <= list.len(),
                forall|j: int| 0 <= j < i ==> self@.connections[#[trigger] list[j]].link != link,
            decreases list.len() - i,
        {
            if self.connections.value(i).link == link {
                assert(list.to_set().contains(list[i as int]));
                assert(self@.holds_link(list[i as int], link));
                return true;
            }
            i = i + 1;
        }
        assert forall|a: Seq<char>| !self@.holds_link(a, link) by {
            if self@.tracks(a) {
                assert(list.to_set().contains(a));
                let j = choose|j: int| 0 <= j < list.len() && list[j] == a;
                assert(self@.connections[list[j]].link != link);
            }
        }
        false
    }

    /// The link of the address, with what it was told last.
    pub fn link(&self, address: &str) -> (r: Option<LinkState>)
        requires
            self.wf(),
        ensures
            r == (if self@.links.dom().contains(address@) {
                Some(self@.links[address@])
            } else {
                None
            }),
    {
        match self.links.get(address) {
            Some(s) => Some(*s),
            None => None,
        }
    }

    /// Gives up the connection for the address.
    pub(crate) fn untrack(&mut self, address: &str) -> (r: Option<Connection<S, A, C>>)
        requires
            old(self).wf(),
        ensures
            final(self).wf(),
            final(self)@ == old(self)@.without(address@),
            match r {
                Some(c) => old(self)@.tracks(address@) && c@ == old(self)@.connections[address@],
                None => !old(self)@.tracks(address@),
            },
    {
        let ghost before = self@;
        let r = self.connections.remove(address);
        assert forall|a: Seq<char>| #[trigger] self@.tracks(a) implies before.tracks(a)
            && self@.connections[a] == before.connections[a] by {}
        r
    }

    /// Gives up the connection for the address. If the device was connected, the result is its
    /// link, which is to be told that it is not any more.
    pub(crate) fn give_up_connection(&mut self, address: &str) -> (r: Option<LinkId>)
        requires
            old(self).wf(),
        ensures
            final(self).wf(),
            r == (if old(self)@.is_connected_at(address@) {
                Some(old(self)@.connections[address@].link)
            } else {
                None
            }),
            final(self)@ == match r {
                Some(link) => old(self)@.without(address@).silenced(link),
                None => old(self)@.without(address@),
            },
    {
        let ghost before = self@;
        match self.untrack(address) {
            Some(c) => {
                if c.connected {
                    assert(!self@.link_in_use(c.link)) by {
                        assert forall|a: Seq<char>| !self@.holds_link(a, c.link) by {
                            if self@.tracks(a) {
                                assert(before.tracks(a));
                            }
                        }
                    }
                    self.silence(c.link);
                    Some(c.link)
                } else {
                    None
                }
            },
            None => None,
        }
    }

    /// Puts a connection back that was changed, with the lock, the link and the state that it
    /// had.
    pub(crate) fn put_back(&mut self, address: &str, connection: Connection<S, A, C>)
        requires
            old(self).wf(),
            connection@.lock < old(self)@.next_token,
            old(self)@.links.dom().contains(address@),
            old(self)@.links[address@] == (LinkState {
                link: connection@.link,
                told: connection@.connected,
            }),
            forall|a: Seq<char>|
                #[trigger] old(self)@.tracks(a) && a != address@ ==> old(self)@.connections[a].lock
                    != connection@.lock,
        ensures
            final(self).wf(),
            final(self)@ == (HandlerView {
                connections: old(self)@.connections.insert(address@, connection@),
                ..old(self)@
            }),
    {
        let ghost before = self@;
        self.connections.insert(address.to_owned(), connection);
        assert forall|a: Seq<char>| #[trigger] self@.tracks(a) && a != address@ implies before.tracks(a)
            && self@.connections[a] == before.connections[a] by {}
    }

    /// The address of a connection with the peripheral.
    pub(crate) fn address_of(&self, peripheral: PeripheralId) -> (r: Option<String>)
        requires
            self.wf(),
        ensures
            match r {
                Some(a) => self@.tracks(a@) && self@.connections[a@].peripheral == peripheral,
                None => forall|a: Seq<char>|
                    #[trigger] self@.tracks(a) ==> self@.connections[a].peripheral != peripheral,
            },
    {
        let ghost list = self.connections.key_seq();
        proof {
            self.connections.key_seq_is_domain();
        }
        let mut i: usize = 0;
        while i < self.connections.len()
            invariant
                self.wf(),
                list == self.connections.key_seq(),
                i <= list.len(),
                forall|j: int| 0 <= j < i ==> self@.connections[#[trigger] list[j]].peripheral != peripheral,
            decreases list.len() - i,
        {
            if self.connections.value(i).peripheral == peripheral {
                return Some(self.connections.key(i).clone());
            }
            i = i + 1;
        }
        assert forall|a: Seq<char>| #[trigger] self@.tracks(a) implies self@.connections[a].peripheral
            != peripheral by {
            assert(list.to_set().contains(a));
            let j = choose|j: int| 0 <= j < list.len() && list[j] == a;
            assert(self@.connections[list[j]].peripheral != peripheral);
        }
        None
    }

    /// The address of the connection that has the lock.
    pub(crate) fn address_of_lock(&self, lock: LockId) -> (r: Option<String>)
        requires
            self.wf(),
        ensures
            match r {
                Some(a) => self@.tracks(a@) && self@.connections[a@].lock == lock,
                None => forall|a: Seq<char>|
                    #[trigger] self@.tracks(a) ==> self@.connections[a].lock != lock,
            },
    {
        let ghost list = self.connections.key_seq();
        proof {
            self.connections.key_seq_is_domain();
        }
        let mut i: usize = 0;
        while i < self.connections.len()
            invariant
                self.wf(),
                list == self.connections.key_seq(),
                i <= list.len(),
                forall|j: int| 0 <= j < i ==> self@.connections[#[trigger] list[j]].lock != lock,
            decreases list.len() - i,
        {
            if self.connections.value(i).lock == lock {
                return Some(self.connections.key(i).clone());
            }
            i = i + 1;
        }
        assert forall|a: Seq<char>| #[trigger] self@.tracks(a) implies self@.connections[a].lock != lock by {
            assert(list.to_set().contains(a));
            let j = choose|j: int| 0 <= j < list.len() && list[j] == a;
            assert(self@.connections[list[j]].lock != lock);
        }
        None
    }

    /// Whether there is a connection that has the lock.
    pub(crate) fn is_lock_in_use(&self, lock: LockId) -> (r: bool)
        requires
            self.wf(),
        ensures
            r == self@.lock_in_use(lock),
    {
        match self.address_of_lock(lock) {
            Some(address) => {
                assert(self@.holds_lock(address@, lock));
                true
            },
            None => {
                assert forall|a: Seq<char>| !self@.holds_lock(a, lock) by {}
                false
            },
        }
    }

    /// Forgets the discovered devices.
    pub(crate) fn clear_devices(&mut self)
        requires
            old(self).wf(),
        ensures
            final(self).wf(),
            final(self)@ == (HandlerView { devices: Map::empty(), ..old(self)@ }),
    {
        self.devices.clear();
    }

    /// Remembers a discovered device.
    pub(crate) fn add_device(&mut self, address: String, peripheral: PeripheralId)
        requires
            old(self).wf(),
        ensures
            final(self).wf(),
            final(self)@ == (HandlerView {
                devices: old(self)@.devices.insert(address@, peripheral),
                ..old(self)@
            }),
    {
        self.devices.insert(address, peripheral);
    }

    /// Sets the task of the scan and gives the one that was set before.
    pub(crate) fn replace_scan_task(&mut self, task: Option<TaskId>) -> (r: Option<TaskId>)
        requires
            old(self).wf(),
        ensures
            final(self).wf(),
            final(self)@ == (HandlerView { scan_task: task, ..old(self)@ }),
            r == old(self)@.scan_task,
    {
        let before = self.scan_task;
        self.scan_task = task;
        before
    }

    /// The adapter, once it was initialized.
    pub fn adapter(&self) -> (r: Option<AdapterId>)
        ensures
            r == self@.adapter,
    {
        self.adapter
    }

    /// Whether the lock is held.
    pub fn is_held(&self, name: LockName) -> (r: bool)
        ensures
            r == self@.held.contains(name),
    {
        let mut i: usize = 0;
        while i < self.held.len()
            invariant
                i <= self.held@.len(),
                forall|j: int| 0 <= j < i ==> self.held@[j] != name,
            decreases self.held@.len() - i,
        {
            if self.held[i] == name {
                assert(self.held@.to_set().contains(self.held@[i as int]));
                return true;
            }
            i = i + 1;
        }
        false
    }

    /// Notes that the lock is held.
    pub(crate) fn hold(&mut self, name: LockName)
        requires
            old(self).wf(),
        ensures
            final(self).wf(),
            final(self)@ == old(self)@.holding(name),
    {
        let ghost before = self.held@;
        self.held.push(name);
        assert(self.held@.to_set() =~= before.to_set().insert(name)) by {
            assert forall|x: LockName| self.held@.to_set().contains(x) == before.to_set().insert(
                name,
            ).contains(x) by {
                pushed_contains(before, name, x);
            }
        }
    }

    /// Notes that the lock is not held any more. Operations do so themselves; this is for one
    /// that is abandoned, and for the end of a notification.
    pub fn release(&mut self, name: LockName)
        requires
            old(self).wf(),
        ensures
            final(self).wf(),
            final(self)@ == old(self)@.releasing(name),
    {
        let ghost before = self.held@;
        let mut rest: Vec<LockName> = Vec::new();
        let mut i: usize = 0;
        while i < self.held.len()
            invariant
                self.held@ == before,
                i <= before.len(),
                forall|x: LockName| #[trigger]
                    rest@.contains(x) == (x != name && before.take(i as int).contains(x)),
            decreases before.len() - i,
        {
            let x = self.held[i];
            let ghost rest0 = rest@;
            if x != name {
                rest.push(x);
            }
            proof {
                let t0 = before.take(i as int);
                let t1 = before.take(i + 1);
                assert(t1 =~= t0.push(x));
                assert forall|y: LockName| #[trigger]
                    rest@.contains(y) == (y != name && t1.contains(y)) by {
                    pushed_contains(t0, x, y);
                    pushed_contains(rest0, x, y);
                    assert(rest0.contains(y) == (y != name && t0.contains(y)));
                }
            }
            i = i + 1;
        }
        assert(before.take(i as int) =~= before);
        self.held = rest;
        assert(self.held@.to_set() =~= before.to_set().remove(name));
    }

    /// Notes that a notification of the connection with the lock is being handed out. Until
    /// [`Handler::release`] is called with the lock of its listeners, they stay as they are.
    pub fn begin_notification(&mut self, lock: LockId)
        requires
            old(self).wf(),
            !old(self)@.is_notifying(lock),
        ensures
            final(self).wf(),
            final(self)@ == old(self)@.holding(LockName::Listeners(lock)),
    {
        self.hold(LockName::Listeners(lock));
    }

    /// Sets the adapter.
    pub(crate) fn set_adapter(&mut self, adapter: AdapterId)
        requires
            old(self).wf(),
        ensures
            final(self).wf(),
            final(self)@ == (HandlerView { adapter: Some(adapter), ..old(self)@ }),
    {
        self.adapter = Some(adapter);
    }
}

} // verus!

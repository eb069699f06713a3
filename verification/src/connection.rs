//! The state of one connection.
use vstd::prelude::*;

use crate::callbacks::OnDisconnectHandler;
use crate::error::{outcome, BleError, ErrorView};
use crate::models::{hyphenated, Characteristic, LinkId, LockId, PeripheralId, Service, TaskId, Uuid};

verus! {

/// A callback for the notifications of one characteristic.
#[derive(Debug)]
pub struct Listener<C> {
    pub uuid: Uuid,
    pub service: Uuid,
    pub callback: C,
}

/// What belongs to one connected device.
#[derive(Debug)]
pub struct Connection<S, A, C> {
    pub peripheral: PeripheralId,
    pub characs: Vec<Characteristic>,
    /// The task that hands out notifications.
    pub listen_task: Option<TaskId>,
    pub on_disconnect: OnDisconnectHandler<S, A>,
    pub listeners: Vec<Listener<C>>,
    /// Serializes the GATT operations of this device. No other connection has it, so
    /// operations of different devices do not wait for each other.
    pub lock: LockId,
    /// Carries the connection state of this device.
    pub link: LinkId,
    /// Whether the device is connected. A connection is begun before the adapter has connected
    /// the device.
    pub connected: bool,
}

/// The mathematical model of [`Connection`].
#[verifier::ext_equal]
pub struct ConnectionView<S, A, C> {
    pub peripheral: PeripheralId,
    pub characs: Seq<Characteristic>,
    pub listen_task: Option<TaskId>,
    pub on_disconnect: OnDisconnectHandler<S, A>,
    pub listeners: Seq<Listener<C>>,
    pub lock: LockId,
    pub link: LinkId,
    pub connected: bool,
}

impl<S, A, C> View for Connection<S, A, C> {
    type V = ConnectionView<S, A, C>;

    open spec fn view(&self) -> ConnectionView<S, A, C> {
        ConnectionView {
            peripheral: self.peripheral,
            characs: self.characs@,
            listen_task: self.listen_task,
            on_disconnect: self.on_disconnect,
            listeners: self.listeners@,
            lock: self.lock,
            link: self.link,
            connected: self.connected,
        }
    }
}

/// Whether `c` has the identifier, and is of the service if one is given.
pub open spec fn is_wanted(c: Characteristic, uuid: Uuid, service: Option<Uuid>) -> bool {
    c.uuid == uuid && (service matches Some(s) ==> c.service_uuid == s)
}

/// The first characteristic that is wanted.
pub open spec fn find_charac(
    characs: Seq<Characteristic>,
    uuid: Uuid,
    service: Option<Uuid>,
) -> Result<Characteristic, ErrorView>
    decreases characs.len(),
{
    if characs.len() == 0 {
        Err(ErrorView::CharacNotAvailable(hyphenated(uuid.value)))
    } else if is_wanted(characs[0], uuid, service) {
        Ok(characs[0])
    } else {
        find_charac(characs.drop_first(), uuid, service)
    }
}

/// What is found is one of the characteristics and is wanted, and something is found exactly
/// when one of them is wanted.
pub proof fn what_is_found_is_wanted(characs: Seq<Characteristic>, uuid: Uuid, service: Option<Uuid>)
    ensures
        find_charac(characs, uuid, service) matches Ok(c) ==> characs.contains(c) && is_wanted(c, uuid, service),
        find_charac(characs, uuid, service) is Ok == exists|i: int|
            0 <= i < characs.len() && is_wanted(#[trigger] characs[i], uuid, service),
        find_charac(characs, uuid, service) matches Err(e) ==> e == ErrorView::CharacNotAvailable(
            hyphenated(uuid.value),
        ),
    decreases characs.len(),
{
    if characs.len() > 0 {
        if is_wanted(characs[0], uuid, service) {
            assert(characs.contains(characs[0]));
        } else {
            let rest = characs.drop_first();
            what_is_found_is_wanted(rest, uuid, service);
            assert forall|i: int| 0 <= i < rest.len() implies #[trigger] rest[i] == characs[i + 1] by {}
            if let Ok(c) = find_charac(rest, uuid, service) {
                let i = choose|i: int| 0 <= i < rest.len() && rest[i] == c;
                assert(characs[i + 1] == c);
            }
            if exists|i: int| 0 <= i < characs.len() && is_wanted(#[trigger] characs[i], uuid, service) {
                let i = choose|i: int|
                    0 <= i < characs.len() && is_wanted(#[trigger] characs[i], uuid, service);
                assert(rest[i - 1] == characs[i]);
            }
        }
    }
}

/// The characteristics of all services, in order.
pub open spec fn all_characs(services: Seq<Service>) -> Seq<Characteristic>
    decreases services.len(),
{
    if services.len() == 0 {
        Seq::empty()
    } else {
        all_characs(services.drop_last()) + services.last().characteristics@
    }
}

/// Whether the callback of `l` is for the notifications of the characteristic.
pub open spec fn listens_to<C>(l: Listener<C>, uuid: Uuid, service: Uuid) -> bool {
    l.uuid == uuid && l.service == service
}

/// The callbacks that a notification runs, in the order of their subscription.
pub open spec fn callbacks_for<C>(listeners: Seq<Listener<C>>, uuid: Uuid, service: Uuid) -> Seq<C>
    decreases listeners.len(),
{
    if listeners.len() == 0 {
        Seq::empty()
    } else {
        let rest = callbacks_for(listeners.drop_last(), uuid, service);
        if listens_to(listeners.last(), uuid, service) {
            rest.push(listeners.last().callback)
        } else {
            rest
        }
    }
}

/// The listeners for other characteristics than `uuid`, in order.
pub open spec fn without_uuid<C>(listeners: Seq<Listener<C>>, uuid: Uuid) -> Seq<Listener<C>> {
    listeners.filter(|l: Listener<C>| l.uuid != uuid)
}

impl<S, A, C> Connection<S, A, C> {
    /// A connection that was just begun.
    pub fn new(peripheral: PeripheralId, lock: LockId, link: LinkId) -> (r: Self)
        ensures
            r@ == fresh_connection::<S, A, C>(peripheral, lock, link),
    {
        Connection {
            peripheral,
            characs: Vec::new(),
            listen_task: None,
            on_disconnect: OnDisconnectHandler::Unset,
            listeners: Vec::new(),
            lock,
            link,
            connected: false,
        }
    }

    fn find(&self, uuid: Uuid, service: Option<Uuid>) -> (r: Result<Characteristic, BleError>)
        ensures
            outcome(r) == find_charac(self.characs@, uuid, service),
    {
        let mut i: usize = 0;
        assert(self.characs@.skip(0) =~= self.characs@);
        while i < self.characs.len()
            invariant
                i <= self.characs@.len(),
                find_charac(self.characs@, uuid, service) == find_charac(
                    self.characs@.skip(i as int),
                    uuid,
                    service,
                ),
            decreases self.characs@.len() - i,
        {
            let c = self.characs[i];
            let in_service = match service {
                Some(s) => c.service_uuid == s,
                None => true,
            };
            assert(self.characs@.skip(i as int)[0] == c);
            if c.uuid == uuid && in_service {
                return Ok(c);
            }
            assert(self.characs@.skip(i as int).drop_first() =~= self.characs@.skip(i + 1));
            i = i + 1;
        }
        Err(BleError::CharacNotAvailable(uuid.to_text()))
    }

    /// The first characteristic with the identifier.
    pub fn get_charac(&self, uuid: Uuid) -> (r: Result<Characteristic, BleError>)
        ensures
            outcome(r) == find_charac(self.characs@, uuid, None),
    {
        self.find(uuid, None)
    }

    /// The first characteristic of the service with the identifier.
    pub fn get_charac_from_service(&self, uuid: Uuid, service: Uuid) -> (r: Result<
        Characteristic,
        BleError,
    >)
        ensures
            outcome(r) == find_charac(self.characs@, uuid, Some(service)),
    {
        self.find(uuid, Some(service))
    }

    /// The callbacks that a notification of the characteristic runs, in order.
    pub fn callbacks(&self, uuid: Uuid, service: Uuid) -> (r: Vec<&C>)
        ensures
            r@.len() == callbacks_for(self.listeners@, uuid, service).len(),
            forall|i: int|
                0 <= i < r@.len() ==> *(#[trigger] r@[i]) == callbacks_for(
                    self.listeners@,
                    uuid,
                    service,
                )[i],
    {
        let mut out: Vec<&C> = Vec::new();
        let mut i: usize = 0;
        while i < self.listeners.len()
            invariant
                i <= self.listeners@.len(),
                out@.len() == callbacks_for(self.listeners@.take(i as int), uuid, service).len(),
                forall|j: int|
                    0 <= j < out@.len() ==> *(#[trigger] out@[j]) == callbacks_for(
                        self.listeners@.take(i as int),
                        uuid,
                        service,
                    )[j],
            decreases self.listeners@.len() - i,
        {
            let l = &self.listeners[i];
            proof {
                let t = self.listeners@.take(i + 1);
                assert(t.drop_last() =~= self.listeners@.take(i as int));
                assert(t.last() == *l);
            }
            if l.uuid == uuid && l.service == service {
                out.push(&l.callback);
            }
            i = i + 1;
        }
        assert(self.listeners@.take(i as int) =~= self.listeners@);
        out
    }

    /// Takes out the listeners for the characteristic `uuid`, of whatever service.
    pub fn drop_listeners(&mut self, uuid: Uuid)
        ensures
            final(self)@ == (ConnectionView {
                listeners: without_uuid(old(self).listeners@, uuid),
                ..old(self)@
            }),
    {
        let ghost before = self.listeners@;
        let ghost other = |l: Listener<C>| l.uuid != uuid;
        let mut rest: Vec<Listener<C>> = Vec::new();
        core::mem::swap(&mut rest, &mut self.listeners);
        let mut kept: Vec<Listener<C>> = Vec::new();
        let ghost mut done: Seq<Listener<C>> = Seq::empty();
        proof {
            reveal(Seq::filter);
            assert(before =~= rest@ + done);
        }
        while rest.len() > 0
            invariant
                before == rest@ + done,
                other == |l: Listener<C>| l.uuid != uuid,
                kept@ == done.filter(other),
            decreases rest.len(),
        {
            let ghost rest0 = rest@;
            let ghost kept0 = kept@;
            let l = rest.pop().unwrap();
            if l.uuid != uuid {
                kept.insert(0, l);
            }
            proof {
                let one = seq![l];
                Seq::filter_distributes_over_add(one, done, other);
                reveal_with_fuel(Seq::filter, 2);
                assert(one.drop_last() =~= Seq::<Listener<C>>::empty());
                if other(l) {
                    assert(one.filter(other) =~= one);
                } else {
                    assert(one.filter(other) =~= Seq::<Listener<C>>::empty());
                }
                assert(kept@ =~= one.filter(other) + kept0);
                done = one + done;
                assert(rest0 =~= rest@ + one);
                assert(before =~= rest@ + done);
            }
        }
        assert(done =~= before);
        self.listeners = kept;
    }
}

/// The model of a connection that was just begun.
pub open spec fn fresh_connection<S, A, C>(
    peripheral: PeripheralId,
    lock: LockId,
    link: LinkId,
) -> ConnectionView<S, A, C> {
    ConnectionView {
        peripheral,
        characs: Seq::empty(),
        listen_task: None,
        on_disconnect: OnDisconnectHandler::Unset,
        listeners: Seq::empty(),
        lock,
        link,
        connected: false,
    }
}

/// The characteristics of all services, in order.
pub fn collect_characs(services: &Vec<Service>) -> (r: Vec<Characteristic>)
    ensures
        r@ == all_characs(services@),
{
    let mut characs: Vec<Characteristic> = Vec::new();
    let mut i: usize = 0;
    while i < services.len()
        invariant
            i <= services@.len(),
            characs@ == all_characs(services@.take(i as int)),
        decreases services@.len() - i,
    {
        let s = &services[i];
        let ghost before = characs@;
        let mut j: usize = 0;
        while j < s.characteristics.len()
            invariant
                j <= s.characteristics@.len(),
                characs@ == before + s.characteristics@.take(j as int),
            decreases s.characteristics@.len() - j,
        {
            characs.push(s.characteristics[j]);
            j = j + 1;
            assert(characs@ =~= before + s.characteristics@.take(j as int));
        }
        proof {
            let t = services@.take(i + 1);
            assert(t.drop_last() =~= services@.take(i as int));
            assert(t.last() == *s);
            assert(s.characteristics@.take(j as int) =~= s.characteristics@);
        }
        i = i + 1;
    }
    assert(services@.take(i as int) =~= services@);
    characs
}

} // verus!

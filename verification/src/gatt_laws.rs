//! What operations on characteristics ask for, and what comes of them.
use vstd::prelude::*;

use crate::connect_laws::asks;
use crate::connection::{
    all_characs, callbacks_for, find_charac, without_uuid, ConnectionView, Listener,
};
use crate::error::{adapter_outcome, timed_outcome, ErrorView};
use crate::gatt::{
    recv_begin, recv_end, send_begin, subscribe_begin, subscribe_step, unsubscribe_begin, unsubscribe_step,
    RecvData, SendData, Subscribe, SubscribeStage, SubscribeStep, Target, UnsubscribeStage,
    UnsubscribeStep, UnsubscribeView,
};
use crate::handler::HandlerView;
use crate::models::{hyphenated, Characteristic, LockId, LockName, Service, Uuid, WriteType};
use crate::step::{Action, Reply, Step};

verus! {

/// All characteristics of the listed services are those of the services, and no others.
pub proof fn listed_characteristics(services: Seq<Service>, charac: Characteristic)
    ensures
        all_characs(services).contains(charac) == exists|i: int|
            0 <= i < services.len() && (#[trigger] services[i]).characteristics@.contains(charac),
    decreases services.len(),
{
    if services.len() > 0 {
        let rest = services.drop_last();
        let last = services.last().characteristics@;
        let all = all_characs(services);
        listed_characteristics(rest, charac);
        assert forall|i: int| 0 <= i < rest.len() implies #[trigger] rest[i] == services[i] by {}
        if all.contains(charac) {
            let j = choose|j: int| 0 <= j < all.len() && all[j] == charac;
            if j < all_characs(rest).len() {
                assert(all_characs(rest)[j] == charac);
                let i = choose|i: int|
                    0 <= i < rest.len() && (#[trigger] rest[i]).characteristics@.contains(charac);
                assert(services[i].characteristics@.contains(charac));
            } else {
                assert(last[j - all_characs(rest).len()] == charac);
                assert(services[services.len() - 1].characteristics@.contains(charac));
            }
        }
        if exists|i: int|
            0 <= i < services.len() && (#[trigger] services[i]).characteristics@.contains(charac) {
            let i = choose|i: int|
                0 <= i < services.len() && (#[trigger] services[i]).characteristics@.contains(charac);
            if i < rest.len() {
                assert(rest[i].characteristics@.contains(charac));
                let j = choose|j: int| 0 <= j < all_characs(rest).len() && all_characs(rest)[j] == charac;
                assert(all[j] == charac);
            } else {
                let j = choose|j: int| 0 <= j < last.len() && last[j] == charac;
                assert(all[all_characs(rest).len() + j] == charac);
            }
        }
    }
}

/// The characteristics of several services come in the order of the services, and those of one
/// service in its order.
pub proof fn characteristics_keep_their_order(first: Seq<Service>, second: Seq<Service>, service: Service)
    ensures
        all_characs(first + second) == all_characs(first) + all_characs(second),
        all_characs(seq![service]) == service.characteristics@,
        all_characs(Seq::empty()).len() == 0,
    decreases second.len(),
{
    reveal_with_fuel(all_characs, 2);
    assert(seq![service].drop_last() =~= Seq::<Service>::empty());
    assert(all_characs(seq![service]) =~= service.characteristics@);
    if second.len() == 0 {
        assert(first + second =~= first);
        assert(all_characs(first) + all_characs(second) =~= all_characs(first));
    } else {
        characteristics_keep_their_order(first, second.drop_last(), service);
        assert((first + second).drop_last() =~= first + second.drop_last());
        assert((first + second).last() == second.last());
        assert(all_characs(first + second) =~= all_characs(first) + all_characs(second));
    }
}

/// The characteristic that is found has the identifier that was asked for and is of the service
/// that was named, if one was, and no earlier one has and is. If none has and is, the error names
/// the identifier.
pub proof fn the_first_that_fits_is_found(
    characs: Seq<Characteristic>,
    uuid: Uuid,
    service: Option<Uuid>,
)
    ensures
        match find_charac(characs, uuid, service) {
            Ok(c) => exists|i: int|
                0 <= i < characs.len() && #[trigger] characs[i] == c && c.uuid == uuid && (service matches Some(
                    s,
                ) ==> c.service_uuid == s) && forall|j: int|
                    0 <= j < i ==> (#[trigger] characs[j]).uuid != uuid || (service matches Some(s)
                        && characs[j].service_uuid != s),
            Err(e) => e == ErrorView::CharacNotAvailable(hyphenated(uuid.value)) && forall|j: int|
                0 <= j < characs.len() ==> (#[trigger] characs[j]).uuid != uuid || (service matches Some(s)
                    && characs[j].service_uuid != s),
        },
    decreases characs.len(),
{
    if characs.len() > 0 {
        let rest = characs.drop_first();
        let fits = characs[0].uuid == uuid && (service matches Some(s) ==> characs[0].service_uuid == s);
        if fits {
            assert(find_charac(characs, uuid, service) == Ok::<Characteristic, ErrorView>(characs[0]));
        } else {
            the_first_that_fits_is_found(rest, uuid, service);
            match find_charac(rest, uuid, service) {
                Ok(c) => {
                    let i = choose|i: int|
                        0 <= i < rest.len() && #[trigger] rest[i] == c && c.uuid == uuid && (
                        service matches Some(s) ==> c.service_uuid == s) && forall|j: int|
                            0 <= j < i ==> (#[trigger] rest[j]).uuid != uuid || (service matches Some(s)
                                && rest[j].service_uuid != s);
                    assert(characs[i + 1] == c);
                    assert forall|j: int| 0 <= j < i + 1 implies (#[trigger] characs[j]).uuid != uuid || (
                    service matches Some(s) && characs[j].service_uuid != s) by {
                        if j > 0 {
                            assert(rest[j - 1] == characs[j]);
                        }
                    }
                },
                Err(_) => {
                    assert forall|j: int| 0 <= j < characs.len() implies (#[trigger] characs[j]).uuid
                        != uuid || (service matches Some(s) && characs[j].service_uuid != s) by {
                        if j > 0 {
                            assert(rest[j - 1] == characs[j]);
                        }
                    }
                },
            }
        }
    }
}

/// Whether the device at the address has a characteristic with the identifier, of the service if
/// one is named.
pub open spec fn has_charac<S, A, C, T>(
    h: HandlerView<S, A, C, T>,
    address: Seq<char>,
    c: Uuid,
    service: Option<Uuid>,
) -> bool {
    h.tracks(address) && exists|i: int|
        0 <= i < h.connections[address].characs.len() && (#[trigger] h.connections[address].characs[i]).uuid
            == c && (service matches Some(s) ==> h.connections[address].characs[i].service_uuid == s)
}

/// An operation is for a characteristic of the device at its address: with the peripheral and the
/// lock of the connection, and with one of its characteristics that has the identifier and is of
/// the named service. It finds one exactly when there is one.
pub proof fn a_target_is_of_the_device<S, A, C, T>(
    h: HandlerView<S, A, C, T>,
    address: Seq<char>,
    c: Uuid,
    service: Option<Uuid>,
)
    ensures
        h.target(address, c, service) is Ok == has_charac(h, address, c, service),
        h.target(address, c, service) matches Ok(t) ==> {
            &&& t.peripheral == h.connections[address].peripheral
            &&& t.lock == h.connections[address].lock
            &&& h.connections[address].characs.contains(t.charac)
            &&& t.charac.uuid == c
            &&& service matches Some(s) ==> t.charac.service_uuid == s
        },
        h.target(address, c, service) matches Err(e) ==> e == if h.tracks(address) {
            ErrorView::CharacNotAvailable(hyphenated(c.value))
        } else {
            ErrorView::NoDeviceConnected
        },
{
    let characs = h.connections[address].characs;
    the_first_that_fits_is_found(characs, c, service);
    if h.tracks(address) {
        if let Ok(charac) = find_charac(characs, c, service) {
            let i = choose|i: int|
                0 <= i < characs.len() && #[trigger] characs[i] == charac && charac.uuid == c && (
                service matches Some(s) ==> charac.service_uuid == s) && forall|j: int|
                    0 <= j < i ==> (#[trigger] characs[j]).uuid != c || (service matches Some(s)
                        && characs[j].service_uuid != s);
            assert(characs[i] == charac);
            assert(h.connections[address].characs[i].uuid == c);
        }
    }
}

/// Sending asks to write, if the device has the characteristic: the given data, in the given way,
/// to the device at the address, under the lock of its connection, and to a characteristic with
/// the identifier and of the named service. Else it ends with an error.
pub proof fn what_is_sent_is_what_was_given<S, A, C, T>(
    h: HandlerView<S, A, C, T>,
    address: Seq<char>,
    c: Uuid,
    service: Option<Uuid>,
    data: Vec<u8>,
    write_type: WriteType,
)
    ensures
        match send_begin::<S, A>(h.target(address, c, service), data, write_type) {
            Step::Do(_, Action::Write { peripheral, lock, charac, data: d, write_type: w }) => {
                &&& has_charac(h, address, c, service)
                &&& peripheral == h.connections[address].peripheral
                &&& lock == h.connections[address].lock
                &&& h.connections[address].characs.contains(charac)
                &&& charac.uuid == c
                &&& service matches Some(s) ==> charac.service_uuid == s
                &&& d@ == data@
                &&& w == write_type
            },
            Step::Do(_, _) => false,
            Step::Done(r) => {
                &&& !has_charac(h, address, c, service)
                &&& r == Err::<(), ErrorView>(
                    if h.tracks(address) {
                        ErrorView::CharacNotAvailable(hyphenated(c.value))
                    } else {
                        ErrorView::NoDeviceConnected
                    },
                )
            },
        },
{
    a_target_is_of_the_device(h, address, c, service);
}

/// Whatever the target, sending asks to write there what was given and as it was given: with a
/// response exactly if that was asked for.
pub proof fn sending_keeps_data_and_kind<S, A>(
    target: Result<Target, ErrorView>,
    data: Vec<u8>,
    write_type: WriteType,
)
    ensures
        match target {
            Ok(t) => send_begin::<S, A>(target, data, write_type) matches Step::Do(
                _,
                Action::Write { peripheral, lock, charac, data: d, write_type: w },
            ) && {
                &&& peripheral == t.peripheral
                &&& lock == t.lock
                &&& charac == t.charac
                &&& d@ == data@
                &&& (w is WithResponse) == (write_type is WithResponse)
            },
            Err(e) => send_begin::<S, A>(target, data, write_type) == Step::<
                SendData,
                S,
                A,
                Result<(), ErrorView>,
            >::Done(Err(e)),
        },
{
}

/// Receiving asks to read, if the device has the characteristic: from the device at the address,
/// under the lock of its connection, and from a characteristic with the identifier and of the
/// named service. Else it ends with an error.
pub proof fn data_are_received_from_the_device<S, A, C, T>(
    h: HandlerView<S, A, C, T>,
    address: Seq<char>,
    c: Uuid,
    service: Option<Uuid>,
)
    ensures
        match recv_begin::<S, A>(h.target(address, c, service)) {
            Step::Do(_, Action::Read { peripheral, lock, charac }) => {
                &&& has_charac(h, address, c, service)
                &&& peripheral == h.connections[address].peripheral
                &&& lock == h.connections[address].lock
                &&& h.connections[address].characs.contains(charac)
                &&& charac.uuid == c
                &&& service matches Some(s) ==> charac.service_uuid == s
            },
            Step::Do(_, _) => false,
            Step::Done(r) => {
                &&& !has_charac(h, address, c, service)
                &&& r == Err::<Vec<u8>, ErrorView>(
                    if h.tracks(address) {
                        ErrorView::CharacNotAvailable(hyphenated(c.value))
                    } else {
                        ErrorView::NoDeviceConnected
                    },
                )
            },
        },
{
    a_target_is_of_the_device(h, address, c, service);
}

/// Sending and reading work with the same characteristic, of the same device and under the same
/// lock.
pub proof fn sending_and_receiving_meet<S, A>(
    target: Result<Target, ErrorView>,
    data: Vec<u8>,
    write_type: WriteType,
)
    ensures
        send_begin::<S, A>(target, data, write_type) is Do == recv_begin::<S, A>(target) is Do,
        target matches Err(e) ==> recv_begin::<S, A>(target) == Step::<
            RecvData,
            S,
            A,
            Result<Vec<u8>, ErrorView>,
        >::Done(Err(e)),
        send_begin::<S, A>(target, data, write_type) matches Step::Do(
            _,
            Action::Write { peripheral, lock, charac, .. },
        ) ==> asks(recv_begin::<S, A>(target), Action::<S, A>::Read { peripheral, lock, charac }),
{
}

/// What an operation of the adapter comes to is its value or its error, and with a time limit
/// that has passed, a timeout under the name of the operation.
pub proof fn results_of_the_adapter_are_kept<R>(v: R, e: btleplug::Error, name: Seq<char>)
    ensures
        adapter_outcome(Ok::<R, btleplug::Error>(v)) == Ok::<R, ErrorView>(v),
        adapter_outcome(Err::<R, btleplug::Error>(e)) == Err::<R, ErrorView>(ErrorView::Btleplug(e)),
        timed_outcome(Some(Ok::<R, btleplug::Error>(v)), name) == Ok::<R, ErrorView>(v),
        timed_outcome(Some(Err::<R, btleplug::Error>(e)), name) == Err::<R, ErrorView>(
            ErrorView::Btleplug(e),
        ),
        timed_outcome(None::<Result<R, btleplug::Error>>, name) == Err::<R, ErrorView>(
            ErrorView::Timeout(name),
        ),
{
}

/// What was received is what the adapter has read, or its error, or a timeout under the name of
/// the operation.
pub proof fn what_was_read_is_received(data: Vec<u8>, e: btleplug::Error)
    ensures
        recv_end(Some(Ok(data))) == Ok::<Vec<u8>, ErrorView>(data),
        recv_end(Some(Err(e))) == Err::<Vec<u8>, ErrorView>(ErrorView::Btleplug(e)),
        recv_end(None) == Err::<Vec<u8>, ErrorView>(ErrorView::Timeout("read"@)),
{
}

/// The two differ at most in the connections and in which locks are held.
pub open spec fn differs_in_listeners<S, A, C, T>(
    h: HandlerView<S, A, C, T>,
    h2: HandlerView<S, A, C, T>,
) -> bool {
    h2 == HandlerView { connections: h2.connections, held: h2.held, ..h }
}

/// Subscribing takes the lock of the connection and then asks the adapter to subscribe: to the
/// peripheral of the connection at the address, and to the characteristic that was found there.
/// It keeps the callback. Without the characteristic it ends with the error.
pub proof fn subscribing_asks_the_device<S, A, C, T>(
    h: HandlerView<S, A, C, T>,
    address: Seq<char>,
    c: Uuid,
    service: Option<Uuid>,
    callback: C,
    later: HandlerView<S, A, C, T>,
)
    ensures
        match h.target(address, c, service) {
            Err(e) => subscribe_begin::<S, A, C>(h.target(address, c, service), callback)
                == SubscribeStep::<S, A, C>::Done(Err(e)),
            Ok(t) => {
                let begun = subscribe_begin::<S, A, C>(h.target(address, c, service), callback);
                let (h2, step) = subscribe_step(later, begun->Do_0, Reply::Acknowledged);
                let lock = LockName::Device(h.connections[address].lock);
                &&& asks(begun, Action::<S, A>::Lock(lock))
                &&& begun->Do_0.callback == callback
                &&& begun->Do_0.target == t
                &&& h2 == (HandlerView { held: later.held.insert(lock), ..later })
                &&& step == SubscribeStep::<S, A, C>::Do(
                    Subscribe { target: t, callback, stage: SubscribeStage::Asking },
                    Action::Subscribe {
                        peripheral: h.connections[address].peripheral,
                        charac: t.charac,
                    },
                )
                &&& t.charac.uuid == c
                &&& service matches Some(s) ==> t.charac.service_uuid == s
            },
        },
{
    a_target_is_of_the_device(h, address, c, service);
}

/// When the adapter has subscribed, the callbacks that are running end, and then the connection
/// with the lock has one more listener, its last: the callback, for the characteristic and its
/// service. The lock is given back, and the operation has succeeded. Every other connection stays
/// as it is.
pub proof fn a_subscription_adds_one_listener<S, A, C, T>(
    h: HandlerView<S, A, C, T>,
    op: Subscribe<C>,
    later: HandlerView<S, A, C, T>,
    address: Seq<char>,
)
    requires
        op.stage is Asking,
        later.tracks(address),
    ensures
        ({
            let lock = op.target.lock;
            let (h2, asked) = subscribe_step(h, op, Reply::Timed(Some(Ok(()))));
            let (h3, ended) = subscribe_step(later, asked->Do_0, Reply::Acknowledged);
            let c = later.connections[address];
            &&& h2 == h
            &&& asks(asked, Action::<S, A>::Quiet(lock))
            &&& ended == SubscribeStep::<S, A, C>::Done(Ok(()))
            &&& h3.held == later.held.remove(LockName::Device(lock))
            &&& differs_in_listeners(later, h3)
            &&& h3.connections.dom() == later.connections.dom()
            &&& c.lock != lock ==> h3.connections[address] == c
            &&& c.lock == lock ==> h3.connections[address] == (ConnectionView {
                listeners: c.listeners.push(
                    Listener {
                        uuid: op.target.charac.uuid,
                        service: op.target.charac.service_uuid,
                        callback: op.callback,
                    },
                ),
                ..c
            })
        }),
{
    let asked = subscribe_step(h, op, Reply::Timed(Some(Ok(())))).1;
    let h3 = subscribe_step(later, asked->Do_0, Reply::Acknowledged).0;
    assert(h3.connections.dom() =~= later.connections.dom());
}

/// When the adapter could not subscribe, no listener is added. The lock is given back, and the
/// result is the adapter's error, or a timeout under the name of the operation.
pub proof fn a_failed_subscription_adds_nothing<S, A, C, T>(
    h: HandlerView<S, A, C, T>,
    op: Subscribe<C>,
    e: btleplug::Error,
)
    requires
        op.stage is Asking,
    ensures
        ({
            let h2 = HandlerView { held: h.held.remove(LockName::Device(op.target.lock)), ..h };
            &&& subscribe_step(h, op, Reply::Timed(Some(Err(e)))) == (
                h2,
                SubscribeStep::<S, A, C>::Done(Err(ErrorView::Btleplug(e))),
            )
            &&& subscribe_step(h, op, Reply::Timed(None)) == (
                h2,
                SubscribeStep::<S, A, C>::Done(Err(ErrorView::Timeout("subscribe"@))),
            )
        }),
{
}

/// Unsubscribing takes the lock of the connection and then asks the adapter to unsubscribe: from
/// the peripheral of the connection at the address, and from its first characteristic with the
/// identifier, of whatever service. Without one it ends with the error.
pub proof fn unsubscribing_asks_the_device<S, A, C, T>(
    h: HandlerView<S, A, C, T>,
    address: Seq<char>,
    c: Uuid,
    later: HandlerView<S, A, C, T>,
)
    ensures
        match h.target(address, c, None) {
            Err(e) => unsubscribe_begin(h, address, c) == UnsubscribeStep::<S, A>::Done(Err(e)),
            Ok(t) => {
                let begun = unsubscribe_begin(h, address, c);
                let (h2, step) = unsubscribe_step(later, begun->Do_0, Reply::Acknowledged);
                let lock = LockName::Device(h.connections[address].lock);
                &&& asks(begun, Action::<S, A>::Lock(lock))
                &&& begun->Do_0.address == address
                &&& begun->Do_0.target == t
                &&& h2 == (HandlerView { held: later.held.insert(lock), ..later })
                &&& step == UnsubscribeStep::<S, A>::Do(
                    UnsubscribeView { address, target: t, stage: UnsubscribeStage::Asking },
                    Action::Unsubscribe {
                        peripheral: h.connections[address].peripheral,
                        charac: t.charac,
                    },
                )
                &&& t.charac.uuid == c
            },
        },
{
    a_target_is_of_the_device(h, address, c, None);
}

/// When the adapter has unsubscribed, the callbacks of the connection that the address has then
/// end, and then that connection has no listener for the characteristic, of whatever service, and
/// all its other ones. The lock is given back, and the operation has succeeded. Every other
/// connection stays as it is.
pub proof fn an_unsubscription_takes_listeners_out<S, A, C, T>(
    h: HandlerView<S, A, C, T>,
    op: UnsubscribeView,
    later: HandlerView<S, A, C, T>,
    address: Seq<char>,
    l: Listener<C>,
)
    requires
        op.stage is Asking,
        h.tracks(op.address),
        later.tracks(address),
    ensures
        ({
            let lock = h.connections[op.address].lock;
            let (h2, asked) = unsubscribe_step(h, op, Reply::Timed(Some(Ok(()))));
            let (h3, ended) = unsubscribe_step(later, asked->Do_0, Reply::Acknowledged);
            let c = later.connections[address];
            let c3 = h3.connections[address];
            &&& h2 == h
            &&& asks(asked, Action::<S, A>::Quiet(lock))
            &&& ended == UnsubscribeStep::<S, A>::Done(Ok(()))
            &&& h3.held == later.held.remove(LockName::Device(op.target.lock))
            &&& differs_in_listeners(later, h3)
            &&& h3.connections.dom() == later.connections.dom()
            &&& c.lock != lock ==> c3 == c
            &&& c.lock == lock ==> {
                &&& c3 == (ConnectionView { listeners: c3.listeners, ..c })
                &&& c3.listeners.contains(l) == (c.listeners.contains(l) && l.uuid
                    != op.target.charac.uuid)
            }
        }),
{
    let lock = h.connections[op.address].lock;
    let asked = unsubscribe_step(h, op, Reply::Timed(Some(Ok(())))).1;
    let h3 = unsubscribe_step(later, asked->Do_0, Reply::Acknowledged).0;
    assert(h3.connections.dom() =~= later.connections.dom());
    let c = later.connections[address];
    let keep = |l: Listener<C>| l.uuid != op.target.charac.uuid;
    if c.lock == lock {
        broadcast use {Seq::lemma_filter_pred, Seq::lemma_filter_contains_rev};

        assert(h3.connections[address].listeners == without_uuid(c.listeners, op.target.charac.uuid));
        assert(without_uuid(c.listeners, op.target.charac.uuid) == c.listeners.filter(keep));
        if c.listeners.contains(l) && keep(l) {
            let i = choose|i: int| 0 <= i < c.listeners.len() && c.listeners[i] == l;
            c.listeners.lemma_filter_contains(keep, i);
        }
        let kept = c.listeners.filter(keep);
        if kept.contains(l) {
            let i = choose|i: int| 0 <= i < kept.len() && kept[i] == l;
            assert(keep(kept[i]));
        }
    }
}

/// When the adapter could not unsubscribe, or the device has no connection any more, the listeners
/// stay. The lock is given back, and the result is the adapter's error, a timeout under the name
/// of the operation, or that no such device is connected.
pub proof fn a_failed_unsubscription_takes_nothing_out<S, A, C, T>(
    h: HandlerView<S, A, C, T>,
    op: UnsubscribeView,
    e: btleplug::Error,
)
    requires
        op.stage is Asking,
    ensures
        ({
            let h2 = HandlerView { held: h.held.remove(LockName::Device(op.target.lock)), ..h };
            &&& unsubscribe_step(h, op, Reply::Timed(Some(Err(e)))) == (
                h2,
                UnsubscribeStep::<S, A>::Done(Err(ErrorView::Btleplug(e))),
            )
            &&& unsubscribe_step(h, op, Reply::Timed(None)) == (
                h2,
                UnsubscribeStep::<S, A>::Done(Err(ErrorView::Timeout("unsubscribe"@))),
            )
            &&& !h.tracks(op.address) ==> unsubscribe_step(h, op, Reply::Timed(Some(Ok(())))) == (
                h2,
                UnsubscribeStep::<S, A>::Done(Err(ErrorView::NoDeviceConnected)),
            )
        }),
{
}

/// Subscribing and unsubscribing go on with every answer to what they ask for: with the lock once
/// no other holds it, and with the rest while they hold it and no notification is being handed
/// out.
pub proof fn subscriptions_take_every_answer<S, A, C, T>(
    h: HandlerView<S, A, C, T>,
    subscription: Subscribe<C>,
    unsubscription: UnsubscribeView,
    done: Option<Result<(), btleplug::Error>>,
)
    ensures
        ({
            let held = h.held.contains(LockName::Device(subscription.target.lock));
            let notifying = h.held.contains(LockName::Listeners(subscription.target.lock));
            &&& subscription.stage is Locking ==> subscription.awaits(h, Reply::Acknowledged) == !held
            &&& subscription.stage is Asking ==> subscription.awaits(h, Reply::Timed(done)) == held
            &&& subscription.stage is Quieting ==> subscription.awaits(h, Reply::Acknowledged) == (held
                && !notifying)
        }),
        ({
            let held = h.held.contains(LockName::Device(unsubscription.target.lock));
            &&& unsubscription.stage is Locking ==> unsubscription.awaits(h, Reply::Acknowledged) == !held
            &&& unsubscription.stage is Asking ==> unsubscription.awaits(h, Reply::Timed(done)) == held
            &&& unsubscription.stage matches UnsubscribeStage::Quieting(lock) ==> unsubscription.awaits(
                h,
                Reply::Acknowledged,
            ) == (held && !h.held.contains(LockName::Listeners(lock)))
        }),
{
}

/// A notification runs a callback for each listener of the characteristic and of its service, in
/// the order of the subscriptions, and no others.
pub proof fn a_notification_runs_the_callbacks_of_its_characteristic<C>(
    listeners: Seq<Listener<C>>,
    l: Listener<C>,
    uuid: Uuid,
    service: Uuid,
)
    ensures
        callbacks_for(Seq::<Listener<C>>::empty(), uuid, service).len() == 0,
        callbacks_for(listeners.push(l), uuid, service) == if l.uuid == uuid && l.service == service {
            callbacks_for(listeners, uuid, service).push(l.callback)
        } else {
            callbacks_for(listeners, uuid, service)
        },
{
    assert(listeners.push(l).drop_last() =~= listeners);
}

/// The listeners of a lock are those of the connection that has it, and there are none if no
/// connection has it.
pub proof fn a_notification_is_for_the_connection_with_the_lock<S, A, C, T>(
    h: HandlerView<S, A, C, T>,
    lock: LockId,
    address: Seq<char>,
)
    requires
        h.inv(),
    ensures
        h.tracks(address) && h.connections[address].lock == lock ==> h.listeners_of(lock)
            == h.connections[address].listeners,
        (forall|a: Seq<char>| #[trigger] h.tracks(a) ==> h.connections[a].lock != lock)
            ==> h.listeners_of(lock).len() == 0,
{
    if h.tracks(address) && h.connections[address].lock == lock {
        assert(h.holds_lock(address, lock));
        let a = choose|a: Seq<char>| h.holds_lock(a, lock);
        assert(h.holds_lock(a, lock));
        assert(h.tracks(a) && h.tracks(address));
    }
    if forall|a: Seq<char>| #[trigger] h.tracks(a) ==> h.connections[a].lock != lock {
        assert forall|a: Seq<char>| !h.holds_lock(a, lock) by {}
    }
}

/// A call of a front-end that names an address is for this address, and one that names a service
/// is for a characteristic of this service: whatever it then asks for, be it to write, to read or
/// to subscribe, is what the same call on the handler asks for. A call without an address is for
/// the only device.
pub proof fn calls_keep_address_and_service<S, A, C, T>(
    h: HandlerView<S, A, C, T>,
    address: Option<String>,
    c: Uuid,
    service: Option<Uuid>,
)
    ensures
        address matches Some(a) ==> {
            &&& h.address_for(address) == Ok::<Seq<char>, ErrorView>(a@)
            &&& h.target_for(address, c, service) == h.target(a@, c, service)
        },
        address is None ==> {
            &&& h.address_for(address) == h.default_address()
            &&& h.target_for(address, c, service) == h.default_target(c, service)
        },
        h.target_for(address, c, service) matches Ok(t) ==> {
            &&& t.charac.uuid == c
            &&& service matches Some(s) ==> t.charac.service_uuid == s
        },
{
    if let Some(a) = address {
        a_target_is_of_the_device(h, a@, c, service);
    } else if let Ok(a) = h.default_address() {
        a_target_is_of_the_device(h, a, c, service);
    }
}

/// A call of a front-end that names a service acts on a characteristic of this service, with the
/// identifier that it names.
pub proof fn calls_act_on_the_named_service<S, A, C, T>(
    h: HandlerView<S, A, C, T>,
    address: Option<String>,
    c: Uuid,
    service: Uuid,
    data: Vec<u8>,
    write_type: WriteType,
    callback: C,
    later: HandlerView<S, A, C, T>,
)
    ensures
        ({
            let target = h.target_for(address, c, Some(service));
            let subscribing = subscribe_begin::<S, A, C>(target, callback);
            let asked = subscribe_step(later, subscribing->Do_0, Reply::Acknowledged).1;
            &&& send_begin::<S, A>(target, data, write_type) matches Step::Do(_, action) ==> {
                action matches Action::Write { charac, .. } && charac.service_uuid == service && charac.uuid
                    == c
            }
            &&& recv_begin::<S, A>(target) matches Step::Do(_, action) ==> {
                action matches Action::Read { charac, .. } && charac.service_uuid == service && charac.uuid
                    == c
            }
            &&& subscribing is Do ==> (asked matches Step::Do(_, Action::Subscribe { charac, .. })
                && charac.service_uuid == service && charac.uuid == c)
        }),
{
    calls_keep_address_and_service(h, address, c, Some(service));
}

} // verus!

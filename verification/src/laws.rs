//! What holds of the library as a whole.
use vstd::prelude::*;

use crate::adapter::{init_adapter_begin, init_adapter_step, InitAdapter};
use crate::callbacks::OnDisconnectHandler;
use crate::connect::{connect_begin, connect_step, ConnectStageView, ConnectView, RETRIES};
use crate::connect_device::{connect_device_step, ConnectDeviceView, DeviceStep};
use crate::connection::{all_characs, callbacks_for, without_uuid, ConnectionView, Listener};
use crate::disconnect::{
    disconnect_begin, disconnect_default_begin, disconnect_step, DisconnectDevice, DisconnectStep,
};
use crate::error::{BleError, ErrorView};
use crate::event::{
    handle_event_begin, handle_event_step, is_address_of, CentralEvent, EventStep, HandleEvent,
};
use crate::gatt::{
    subscribe_step, unsubscribe_begin, unsubscribe_default_begin, unsubscribe_step, Subscribe, Target,
    UnsubscribeStage, UnsubscribeStep, UnsubscribeView,
};
use crate::handler::{default_address_of_list, enumerates, HandlerView};
use crate::models::{
    AdapterId, LinkId, LinkState, LockId, LockName, PeripheralId, Service, TaskId, Uuid,
};
use crate::resolve::{ascending, ascending_is_sorted, default_of};
use crate::scan::{
    discover_step, rounds_of, scan_task_begin, scan_task_step, spawned, stop_scan_step, Discover,
    ScanStageView, ScanTaskStep, ScanTaskView, StopScan,
};
use crate::services::{services_begin, services_step, DiscoverServicesView, ServicesStep};
use crate::step::{Action, Reply, Step};
use crate::text::text_le;

verus! {

/// The connection for the address is the same in both, or there is none in either.
pub open spec fn same_at<S, A, C, T>(
    h: HandlerView<S, A, C, T>,
    h2: HandlerView<S, A, C, T>,
    address: Seq<char>,
) -> bool {
    h2.tracks(address) == h.tracks(address) && (h.tracks(address) ==> h2.connections[address]
        == h.connections[address])
}

/// Connecting a device touches no other device: each step leaves the connections for all other
/// addresses as they are, and none asks the adapter to disconnect anything.
pub proof fn connecting_touches_no_other_device<S, A, C, T>(
    h: HandlerView<S, A, C, T>,
    op: ConnectView<S, A>,
    reply: Reply,
    other: Seq<char>,
)
    requires
        op.awaits(h, reply),
        other != op.address,
    ensures
        same_at(h, connect_step(h, op, reply).0, other),
        connect_step(h, op, reply).1 matches Step::Do(_, action) ==> !(action is Disconnect),
{
}

/// Discovering the services of a device touches no other device.
pub proof fn discovering_services_touches_no_other_device<S, A, C, T>(
    h: HandlerView<S, A, C, T>,
    op: DiscoverServicesView,
    reply: Reply,
    other: Seq<char>,
)
    requires
        op.awaits(h, reply),
        other != op.address,
    ensures
        same_at(h, services_step(h, op, reply).0, other),
        services_step(h, op, reply).1 matches Step::Do(_, Action::Disconnect(p)) ==> p == op.peripheral,
{
}

/// Disconnecting a device touches no device with another peripheral, and asks the adapter to
/// disconnect no other peripheral.
pub proof fn disconnecting_touches_no_other_device<S, A, C, T>(
    h: HandlerView<S, A, C, T>,
    op: DisconnectDevice<S, A>,
    reply: Reply,
    h2: HandlerView<S, A, C, T>,
    step: DisconnectStep<S, A>,
    other: Seq<char>,
)
    requires
        disconnect_step(h, op, reply, h2, step),
        h.tracks(other),
        h.connections[other].peripheral != op.peripheral,
    ensures
        same_at(h, h2, other),
        step matches Step::Do(_, Action::Disconnect(p)) ==> p == op.peripheral,
{
}

/// An event touches no device with another peripheral.
pub proof fn events_touch_no_other_device<S, A, C, T>(
    h: HandlerView<S, A, C, T>,
    event: CentralEvent,
    h2: HandlerView<S, A, C, T>,
    step: EventStep<S, A>,
    other: Seq<char>,
)
    requires
        handle_event_begin(h, event, h2, step),
        h.tracks(other),
        event matches CentralEvent::DeviceDisconnected(p) ==> h.connections[other].peripheral != p,
        event matches CentralEvent::DeviceConnected(p) ==> h.connections[other].peripheral != p,
    ensures
        same_at(h, h2, other),
{
}

/// Once an event is begun to be handled, the rest of it changes no connection.
pub proof fn the_rest_of_an_event_changes_no_connection<S, A, C, T>(
    h: HandlerView<S, A, C, T>,
    op: HandleEvent<S, A>,
)
    ensures
        handle_event_step(h, op).0.connections == h.connections,
{
}

/// Subscribing touches no device but the one whose connection has the lock, and unsubscribing
/// neither.
pub proof fn subscriptions_touch_no_other_device<S, A, C, T>(
    h: HandlerView<S, A, C, T>,
    subscription: Subscribe<C>,
    unsubscription: UnsubscribeView,
    reply: Reply,
    other: Seq<char>,
)
    requires
        h.tracks(other),
    ensures
        subscription.awaits(h, reply) && h.connections[other].lock != subscription.target.lock ==> same_at(
            h,
            subscribe_step(h, subscription, reply).0,
            other,
        ),
        unsubscription.awaits(h, reply) && (unsubscription.stage matches UnsubscribeStage::Quieting(lock)
            ==> h.connections[other].lock != lock) ==> same_at(
            h,
            unsubscribe_step(h, unsubscription, reply).0,
            other,
        ),
{
}

/// Scanning and initializing the adapter change no connection.
pub proof fn scanning_changes_no_connection<S, A, C, T>(
    h: HandlerView<S, A, C, T>,
    discover: Discover,
    stop: StopScan,
    init: InitAdapter,
    scan: ScanTaskView,
    reply: Reply,
    h2: HandlerView<S, A, C, T>,
    step: ScanTaskStep<S, A>,
)
    ensures
        discover.awaits(h, reply) ==> discover_step(h, discover, reply).0.connections == h.connections,
        stop.awaits(h, reply) ==> stop_scan_step(h, stop, reply).0.connections == h.connections,
        init.awaits(h, reply) ==> init_adapter_step(h, init, reply).0.connections == h.connections,
        scan_task_begin(h, scan).0.connections == h.connections,
        scan_task_step(h, scan, reply, h2, step) ==> h2.connections == h.connections,
{
}

/// GATT operations on one device share a lock, and those on different devices do not wait for
/// each other: their locks differ.
pub proof fn each_device_has_its_own_lock<S, A, C, T>(
    h: HandlerView<S, A, C, T>,
    a: Seq<char>,
    b: Seq<char>,
    c: Uuid,
    d: Uuid,
    c_service: Option<Uuid>,
    d_service: Option<Uuid>,
)
    requires
        h.inv(),
        h.target(a, c, c_service) is Ok,
        h.target(b, d, d_service) is Ok,
    ensures
        (h.target(a, c, c_service)->Ok_0.lock == h.target(b, d, d_service)->Ok_0.lock) == (a == b),
{
}

proof fn to_seq_enumerates(dom: Set<Seq<char>>)
    requires
        dom.finite(),
    ensures
        enumerates(dom.to_seq(), dom),
    decreases dom.len(),
{
    dom.lemma_to_seq_to_set_id();
    if dom.len() > 0 {
        let x = dom.choose();
        let rest = dom.remove(x).to_seq();
        to_seq_enumerates(dom.remove(x));
        let list = dom.to_seq();
        assert(list =~= Seq::<Seq<char>>::empty().push(x) + rest);
        assert forall|i: int, j: int| 0 <= i < list.len() && 0 <= j < list.len() && i != j implies list[i]
            != list[j] by {
            if i == 0 {
                assert(rest.to_set().contains(rest[j - 1]));
            } else if j == 0 {
                assert(rest.to_set().contains(rest[i - 1]));
            } else {
                assert(rest[i - 1] != rest[j - 1]);
            }
        }
    }
}

proof fn listing_of<S, A, C, T>(h: HandlerView<S, A, C, T>) -> (list: Seq<Seq<char>>)
    requires
        h.inv(),
    ensures
        enumerates(list, h.connections.dom()),
        list.len() == h.connections.dom().len(),
        h.default_address() == default_of(list),
{
    let dom = h.connections.dom();
    let list = dom.to_seq();
    to_seq_enumerates(dom);
    list.unique_seq_to_set();
    default_address_of_list(h, list);
    list
}

/// With no connection, a call without an address has no device to go to.
pub proof fn no_default_without_connections<S, A, C, T>(h: HandlerView<S, A, C, T>)
    requires
        h.inv(),
        forall|a: Seq<char>| !h.tracks(a),
    ensures
        h.default_address() == Err::<Seq<char>, ErrorView>(ErrorView::NoDeviceConnected),
{
    let list = listing_of(h);
    assert(h.connections.dom() =~= Set::empty());
}

/// With one connection, a call without an address is for its device.
pub proof fn the_only_device_is_the_default<S, A, C, T>(h: HandlerView<S, A, C, T>, address: Seq<char>)
    requires
        h.inv(),
        h.connections.dom() =~= set![address],
    ensures
        h.default_address() == Ok::<Seq<char>, ErrorView>(address),
{
    let list = listing_of(h);
    assert(h.connections.dom() == set![address]);
    assert(list.len() == 1);
    assert(list.to_set().contains(list[0]));
}

/// With several connections, a call without an address is ambiguous: the error lists exactly
/// the devices that have one, each once and in ascending order.
pub proof fn several_devices_are_ambiguous<S, A, C, T>(
    h: HandlerView<S, A, C, T>,
    a: Seq<char>,
    b: Seq<char>,
)
    requires
        h.inv(),
        h.tracks(a),
        h.tracks(b),
        a != b,
    ensures
        h.default_address() matches Err(ErrorView::AmbiguousDevice(list)) && {
            &&& enumerates(list, h.connections.dom())
            &&& forall|i: int, j: int|
                0 <= i <= j < list.len() ==> text_le(#[trigger] list[i], #[trigger] list[j])
        },
{
    broadcast use vstd::seq_lib::group_to_multiset_ensures;

    let all = listing_of(h);
    assert(all.to_set().contains(a));
    assert(all.to_set().contains(b));
    assert(all.len() >= 2);
    let list = ascending(all);
    ascending_is_sorted(all);
    all.lemma_multiset_has_no_duplicates();
    assert(list.to_multiset() == all.to_multiset());
    assert(list.no_duplicates()) by {
        list.lemma_multiset_has_no_duplicates_conv();
    }
    assert(list.to_set() =~= all.to_set()) by {
        assert forall|x: Seq<char>| list.to_set().contains(x) == all.to_set().contains(x) by {
            assert(list.contains(x) == (list.to_multiset().count(x) > 0));
            assert(all.contains(x) == (all.to_multiset().count(x) > 0));
        }
    }
}

/// With one connection, each call without an address does what the call with the address of
/// its device does.
pub proof fn the_only_device_needs_no_address<S, A, C, T>(
    h: HandlerView<S, A, C, T>,
    address: Seq<char>,
    c: Uuid,
    service: Option<Uuid>,
)
    requires
        h.inv(),
        h.connections.dom() =~= set![address],
    ensures
        disconnect_default_begin(h) == disconnect_begin(h, address),
        h.default_target(c, service) == h.target(address, c, service),
        unsubscribe_default_begin(h, c) == unsubscribe_begin(h, address, c),
{
    the_only_device_is_the_default(h, address);
}

/// With no or several connections, no call without an address asks for anything: each
/// ends with the error.
pub proof fn without_an_only_device_nothing_is_done<S, A, C, T>(
    h: HandlerView<S, A, C, T>,
    c: Uuid,
    service: Option<Uuid>,
)
    requires
        h.default_address() is Err,
    ensures
        disconnect_default_begin(h) == DisconnectStep::<S, A>::Done(
            Err(h.default_address()->Err_0),
        ),
        h.default_target(c, service) == Err::<Target, ErrorView>(
            h.default_address()->Err_0,
        ),
        unsubscribe_default_begin(h, c) == UnsubscribeStep::<S, A>::Done(
            Err(h.default_address()->Err_0),
        ),
{
}

/// The flag is the truth: whenever it is recomputed, it says whether any device is connected.
pub proof fn refreshing_makes_the_flag_true<S, A, C, T>(h: HandlerView<S, A, C, T>)
    ensures
        h.refreshed().connected == (exists|a: Seq<char>| h.is_connected_at(a)),
        h.refreshed().connections == h.connections,
        h.refresh_news() is Some == (h.connected != h.refreshed().connected),
        h.refresh_news() matches Some(any) ==> any == h.refreshed().connected,
{
}

pub(crate) proof fn refreshing_is_lasting<S, A, C, T>()
    ensures
        forall|h: HandlerView<S, A, C, T>|
            (#[trigger] h.refreshed()).any_connected() == h.any_connected(),
{
    assert forall|h: HandlerView<S, A, C, T>|
        (#[trigger] h.refreshed()).any_connected() == h.any_connected() by {
        let h2 = h.refreshed();
        assert forall|a: Seq<char>| h2.is_connected_at(a) == h.is_connected_at(a) by {}
        if h.any_connected() {
            let a = choose|a: Seq<char>| h.is_connected_at(a);
            assert(h2.is_connected_at(a));
        }
        if h2.any_connected() {
            let a = choose|a: Seq<char>| h2.is_connected_at(a);
            assert(h.is_connected_at(a));
        }
    }
}

/// Any device is connected exactly when a list of the connected devices is not empty, and a
/// device is connected exactly when such a list holds its address.
pub proof fn the_list_holds_the_connected_devices<S, A, C, T>(
    h: HandlerView<S, A, C, T>,
    list: Seq<Seq<char>>,
    address: Seq<char>,
)
    requires
        enumerates(list, h.connected_set()),
    ensures
        h.any_connected() == (list.len() > 0),
        h.is_connected_at(address) == list.contains(address),
{
    if list.len() > 0 {
        assert(list.to_set().contains(list[0]));
        assert(h.is_connected_at(list[0]));
    }
    if h.any_connected() {
        let a = choose|a: Seq<char>| h.is_connected_at(a);
        assert(list.to_set().contains(a));
    }
    assert(list.contains(address) == list.to_set().contains(address));
}

/// A change of the flag is announced, and nothing else is: a step of an operation asks to
/// announce a value if and only if the step changed the flag to this value.
pub proof fn changes_of_the_flag_are_announced<S, A, C, T>(
    h: HandlerView<S, A, C, T>,
    connect: ConnectView<S, A>,
    services: DiscoverServicesView,
    event: HandleEvent<S, A>,
    reply: Reply,
    any: bool,
)
    ensures
        connect.awaits(h, reply) ==> {
            let (h2, step) = connect_step(h, connect, reply);
            (step matches Step::Do(_, Action::Announce(v)) && v == any) == (h.connected != any
                && h2.connected == any)
        },
        services.awaits(h, reply) ==> {
            let (h2, step) = services_step(h, services, reply);
            (step matches Step::Do(_, Action::Announce(v)) && v == any) == (h.connected != any
                && h2.connected == any)
        },
        ({
            let (h2, step) = handle_event_step(h, event);
            (step matches Step::Do(_, Action::Announce(v)) && v == any) == (h.connected != any
                && h2.connected == any)
        }),
{
}

/// Disconnecting a device announces changes of the flag, and nothing else.
pub proof fn disconnecting_announces_changes_of_the_flag<S, A, C, T>(
    h: HandlerView<S, A, C, T>,
    op: DisconnectDevice<S, A>,
    reply: Reply,
    h2: HandlerView<S, A, C, T>,
    step: DisconnectStep<S, A>,
    any: bool,
)
    requires
        disconnect_step(h, op, reply, h2, step),
    ensures
        (step matches Step::Do(_, Action::Announce(v)) && v == any) == (h.connected != any
            && h2.connected == any),
{
}

/// When an operation that may have changed the connections ends, with success or not, the flag
/// says whether any device is connected. A step that announces the flag before the end leaves
/// it right too.
pub proof fn operations_end_with_the_flag_right<S, A, C, T>(
    h: HandlerView<S, A, C, T>,
    connect: ConnectView<S, A>,
    services: DiscoverServicesView,
    event: HandleEvent<S, A>,
    reply: Reply,
)
    ensures
        connect.awaits(h, reply) && !(connect.stage is Scanning) && !(connect.stage is Announcing) ==> {
            let (h2, step) = connect_step(h, connect, reply);
            step is Done || step->Do_1 is Announce ==> h2.connected == h2.any_connected()
        },
        services.awaits(h, reply) && !services.already_connected && !(services.stage is Querying)
            && !(services.stage is Announcing) ==> {
            let (h2, step) = services_step(h, services, reply);
            step is Done || step->Do_1 is Announce ==> h2.connected == h2.any_connected()
        },
        !(event is Announcing) ==> {
            let (h2, step) = handle_event_step(h, event);
            step is Done || step->Do_1 is Announce ==> h2.connected == h2.any_connected()
        },
{
    refreshing_is_lasting::<S, A, C, T>();
}

/// Connecting is refused with `AlreadyConnected`, and nothing is done, exactly when the device
/// has a connection.
pub proof fn a_connected_device_is_not_connected_again<S, A, C, T>(
    h: HandlerView<S, A, C, T>,
    address: Seq<char>,
    on_disconnect: OnDisconnectHandler<S, A>,
    allow_ibeacons: bool,
)
    ensures
        connect_begin(h, address, on_disconnect, allow_ibeacons) is Done == h.tracks(address),
        h.tracks(address) ==> connect_begin(h, address, on_disconnect, allow_ibeacons)->Done_0 == Err::<
            (),
            ErrorView,
        >(ErrorView::AlreadyConnected),
{
}

/// A step of connecting a device.
pub type ConnectStep<S, A> = Step<ConnectView<S, A>, S, A, Result<(), ErrorView>>;

/// `after` is a step that can follow `before`: the operation went on with some reply, in
/// whatever state the handler was.
pub open spec fn connect_follows<S, A, C, T>(
    before: ConnectStep<S, A>,
    h: HandlerView<S, A, C, T>,
    reply: Reply,
    after: ConnectStep<S, A>,
) -> bool {
    before matches Step::Do(op, _) && op.awaits(h, reply) && after == connect_step(h, op, reply).1
}

/// The steps are those of one operation that connects a device, from its beginning on. Between
/// them the handler may change in any way.
pub open spec fn is_connect_run<S, A, C, T>(
    steps: Seq<ConnectStep<S, A>>,
    handlers: Seq<HandlerView<S, A, C, T>>,
    replies: Seq<Reply>,
) -> bool {
    &&& steps.len() > 0
    &&& handlers.len() == steps.len()
    &&& replies.len() == steps.len()
    &&& exists|address: Seq<char>, on_disconnect: OnDisconnectHandler<S, A>, allow: bool|
        steps[0] == #[trigger] connect_begin(handlers[0], address, on_disconnect, allow)
    &&& forall|i: int|
        0 < i < steps.len() ==> #[trigger] connect_follows(steps[i - 1], handlers[i], replies[i], steps[i])
}

/// An attempt begins when the operation goes on after this step.
pub open spec fn precedes_attempt<S, A>(step: ConnectStep<S, A>) -> bool {
    step matches Step::Do(op, _) && (op.stage is StoppingScan || op.stage is Pausing)
}

/// How many attempts to connect the device have begun, those that fail at once included.
pub open spec fn attempts<S, A>(steps: Seq<ConnectStep<S, A>>) -> nat
    decreases steps.len(),
{
    if steps.len() <= 1 {
        0
    } else {
        attempts(steps.drop_last()) + (if precedes_attempt(steps[steps.len() - 2]) {
            1nat
        } else {
            0nat
        })
    }
}

/// How many of the steps ask the adapter to connect a device.
pub open spec fn connect_calls<S, A>(steps: Seq<ConnectStep<S, A>>) -> nat
    decreases steps.len(),
{
    if steps.len() == 0 {
        0
    } else {
        connect_calls(steps.drop_last()) + (if steps.last() matches Step::Do(_, Action::Connect { .. }) {
            1nat
        } else {
            0nat
        })
    }
}

/// How many attempts may still begin.
spec fn attempts_left<S, A>(step: ConnectStep<S, A>) -> int {
    match step {
        Step::Done(_) => 0,
        Step::Do(op, _) => match op.stage {
            ConnectStageView::Scanning => 3,
            ConnectStageView::StoppingScan => 3,
            ConnectStageView::Attempting { failed, attempt } => 2 - failed,
            ConnectStageView::Pausing { failed } => 2 - failed,
            _ => 0,
        },
    }
}

/// Whether the attempt that is under way may still ask the adapter to connect the device.
spec fn call_left<S, A>(step: ConnectStep<S, A>) -> int {
    if step matches Step::Do(op, _) && op.stage matches ConnectStageView::Attempting { failed, attempt } && (
    attempt.stage is Querying || attempt.stage is Resetting) {
        1
    } else {
        0
    }
}

/// No more attempts have failed than may fail.
spec fn connect_in_bounds<S, A>(step: ConnectStep<S, A>) -> bool {
    step matches Step::Do(op, _) ==> match op.stage {
        ConnectStageView::Attempting { failed, attempt } => failed <= RETRIES,
        ConnectStageView::Pausing { failed } => failed < RETRIES,
        _ => true,
    }
}

proof fn connect_spends_its_attempts<S, A, C, T>(
    steps: Seq<ConnectStep<S, A>>,
    handlers: Seq<HandlerView<S, A, C, T>>,
    replies: Seq<Reply>,
)
    requires
        is_connect_run(steps, handlers, replies),
    ensures
        connect_in_bounds(steps.last()),
        attempts_left(steps.last()) >= 0,
        attempts(steps) + attempts_left(steps.last()) <= 3,
        connect_calls(steps) + call_left(steps.last()) <= attempts(steps),
    decreases steps.len(),
{
    reveal_with_fuel(connect_calls, 2);
    if steps.len() > 1 {
        let s = steps.drop_last();
        let hs = handlers.drop_last();
        let rs = replies.drop_last();
        assert(is_connect_run(s, hs, rs)) by {
            assert forall|i: int| 0 < i < s.len() implies #[trigger] connect_follows(
                s[i - 1],
                hs[i],
                rs[i],
                s[i],
            ) by {
                assert(connect_follows(steps[i - 1], handlers[i], replies[i], steps[i]));
            }
        }
        connect_spends_its_attempts(s, hs, rs);
        let n = steps.len() - 1;
        assert(s.last() == steps[n - 1]);
        assert(connect_follows(steps[n - 1], handlers[n], replies[n], steps[n]));
    } else {
        assert(steps.drop_last() =~= Seq::<ConnectStep<S, A>>::empty());
    }
}

/// At most three attempts to connect a device begin before the operation ends, whatever comes
/// back and whatever else happens meanwhile, and each asks the adapter at most once.
pub proof fn connecting_tries_at_most_three_times<S, A, C, T>(
    steps: Seq<ConnectStep<S, A>>,
    handlers: Seq<HandlerView<S, A, C, T>>,
    replies: Seq<Reply>,
)
    requires
        is_connect_run(steps, handlers, replies),
    ensures
        attempts(steps) <= 3,
        connect_calls(steps) <= attempts(steps),
{
    connect_spends_its_attempts(steps, handlers, replies);
}

/// An attempt that fails is followed by a pause and another one while retries are left. The
/// failure of the last one is the result, and the connection is given up.
pub proof fn a_failed_attempt_is_repeated_or_final<S, A, C, T>(
    h: HandlerView<S, A, C, T>,
    op: ConnectView<S, A>,
    reply: Reply,
    e: ErrorView,
)
    requires
        op.stage is Attempting,
        op.awaits(h, reply),
        connect_device_step(h, op.stage->attempt, reply).1 == DeviceStep::<S, A>::Done(Err(e)),
    ensures
        ({
            let failed = op.stage->Attempting_failed;
            let (h2, step) = connect_step(h, op, reply);
            if failed < 2 {
                h2 == h && step == ConnectStep::<S, A>::Do(
                    op.at(ConnectStageView::Pausing { failed }),
                    Action::Sleep(1000),
                )
            } else {
                &&& !h2.tracks(op.address)
                &&& step matches Step::Do(op2, _) ==> op2 == op.at(
                    ConnectStageView::Announcing { result: Err(e) },
                ) || op2 == op.at(ConnectStageView::Retracting { error: e })
                &&& step matches Step::Done(r) ==> r == Err::<(), ErrorView>(e)
            }
        }),
{
}

/// When the services of a device that was connected are known, its connection has the
/// callback, the characteristics of all services and a task that listens to its notifications.
pub proof fn a_connected_device_is_set_up<S, A, C, T>(
    h: HandlerView<S, A, C, T>,
    op: ConnectView<S, A>,
    services: Vec<Service>,
)
    requires
        op.stage is Listing,
        h.holds_lock(op.address, op.stage->Listing_lock),
    ensures
        ({
            let (h2, step) = connect_step(h, op, Reply::Listed(services));
            let c = h2.connections[op.address];
            &&& h2.tracks(op.address)
            &&& c.on_disconnect == op.on_disconnect
            &&& c.characs == all_characs(services@)
            &&& c.listeners == h.connections[op.address].listeners
            &&& c.listen_task matches Some(task) && step->Do_1 == Action::<S, A>::StartListening {
                peripheral: c.peripheral,
                lock: c.lock,
                task,
                replaced: h.connections[op.address].listen_task,
            }
        }),
{
}

/// An attempt is not decided by another connection: once the address has another one than the
/// attempt is for, the value of the link does not make it succeed.
pub proof fn an_attempt_is_decided_by_its_own_connection<S, A, C, T>(
    h: HandlerView<S, A, C, T>,
    attempt: ConnectDeviceView,
    connected: bool,
)
    requires
        attempt.stage is Checking,
        h.tracks(attempt.address),
        h.connections[attempt.address].lock != attempt.lock,
    ensures
        connect_device_step(h, attempt, Reply::Flag(connected)) == (
            h,
            DeviceStep::<S, A>::Done(Err(ErrorView::ConnectionFailed)),
        ),
{
}

/// A callback is not lost: if the device has disconnected before its connection was set up, the
/// given callback runs before connecting ends with success, and is not kept to run again. This
/// holds also if the address has another connection by then.
pub proof fn a_callback_is_not_lost<S, A, C, T>(
    h: HandlerView<S, A, C, T>,
    op: ConnectView<S, A>,
    services: Vec<Service>,
    h2: HandlerView<S, A, C, T>,
)
    requires
        op.stage is Listing,
        !h.holds_lock(op.address, op.stage->Listing_lock),
        !(op.on_disconnect is Unset),
    ensures
        ({
            let (h1, step) = connect_step(h, op, Reply::Listed(services));
            let after = connect_step(h2, step->Do_0, Reply::Acknowledged);
            &&& h1 == h
            &&& step is Do
            &&& step->Do_1 == Action::<S, A>::RunCallback(op.on_disconnect)
            &&& step->Do_0.on_disconnect is Unset
            &&& after == step->Do_0.settle(h2, Ok(()))
        }),
{
}

/// When the adapter reports that a device has disconnected, its connection is given up. The
/// callbacks of its notifications end, its task is aborted, its callback runs, and then its link
/// is told, whatever else happens meanwhile. Only if the address has a new connection by then is
/// the link left to that.
pub proof fn a_disconnection_runs_the_callback<S, A, C, T>(
    h: HandlerView<S, A, C, T>,
    address: Seq<char>,
    h2: HandlerView<S, A, C, T>,
    step: EventStep<S, A>,
    h3: HandlerView<S, A, C, T>,
    h4: HandlerView<S, A, C, T>,
    h5: HandlerView<S, A, C, T>,
)
    requires
        h.tracks(address),
        forall|a: Seq<char>|
            is_address_of(h, a, h.connections[address].peripheral) ==> a == address,
        handle_event_begin(
            h,
            CentralEvent::DeviceDisconnected(h.connections[address].peripheral),
            h2,
            step,
        ),
    ensures
        h2 == h.without(address),
        step is Do,
        step->Do_1 == Action::<S, A>::Quiet(h.connections[address].lock),
        ({
            let c = h.connections[address];
            let quiet = handle_event_step(h3, step->Do_0).1;
            let called = if c.listen_task is Some {
                handle_event_step(h4, quiet->Do_0).1
            } else {
                quiet
            };
            &&& c.listen_task matches Some(task) ==> quiet is Do && quiet->Do_1 == Action::<
                S,
                A,
            >::AbortTask(task)
            &&& called is Do
            &&& called->Do_1 == Action::<S, A>::RunCallback(c.on_disconnect)
            &&& !h5.link_in_use(c.link) ==> handle_event_step(h5, called->Do_0).1 == EventStep::<
                S,
                A,
            >::Do(HandleEvent::Signalling, Action::SendLink { link: c.link, value: false })
        }),
{
    assert(is_address_of(h, address, h.connections[address].peripheral));
}

/// Disconnecting ends with success once the connection that it is for is gone, also if the
/// address has a new connection by then that is connected.
pub proof fn a_lost_connection_is_disconnected<S, A, C, T>(
    h: HandlerView<S, A, C, T>,
    op: DisconnectDevice<S, A>,
    connected: bool,
    h2: HandlerView<S, A, C, T>,
    step: DisconnectStep<S, A>,
)
    requires
        op.stage is Checking,
        !h.lock_in_use(op.lock),
        disconnect_step(h, op, Reply::Flag(connected), h2, step),
    ensures
        h2 == h,
        step == DisconnectStep::<S, A>::Done(Ok(())),
{
}

/// When the adapter reports that a device has connected, it counts as connected, its link is
/// told, and then the flag says that a device is connected, unless it was disconnected
/// meanwhile.
pub proof fn a_connection_is_signalled<S, A, C, T>(
    h: HandlerView<S, A, C, T>,
    address: Seq<char>,
    h2: HandlerView<S, A, C, T>,
    step: EventStep<S, A>,
    h3: HandlerView<S, A, C, T>,
)
    requires
        h.tracks(address),
        forall|a: Seq<char>|
            is_address_of(h, a, h.connections[address].peripheral) ==> a == address,
        handle_event_begin(
            h,
            CentralEvent::DeviceConnected(h.connections[address].peripheral),
            h2,
            step,
        ),
    ensures
        h2 == h.marked(address),
        h2.is_connected_at(address),
        step == EventStep::<S, A>::Do(
            HandleEvent::Signalling,
            Action::SendLink { link: h.connections[address].link, value: true },
        ),
        h3.is_connected_at(address) ==> handle_event_step(
            h3,
            HandleEvent::<S, A>::Signalling,
        ).0.connected,
{
    assert(is_address_of(h, address, h.connections[address].peripheral));
}

/// A device that is still being connected does not count as connected: its connection begins
/// unconnected. The attempt waits on the link of the address, so that it hears of the adapter's
/// events for the device, and the link does not say that it is connected.
pub proof fn an_attempt_hears_of_its_device<S, A, C, T>(
    h: HandlerView<S, A, C, T>,
    op: ConnectView<S, A>,
    stopped: Result<(), BleError>,
)
    requires
        h.inv(),
        op.stage is StoppingScan,
        !h.tracks(op.address),
        h.devices.dom().contains(op.address),
        h.has_tokens(),
    ensures
        ({
            let (h2, step) = connect_step(h, op, Reply::Settled(stopped));
            &&& h2.tracks(op.address)
            &&& !h2.is_connected_at(op.address)
            &&& h2.connections[op.address].peripheral == h.devices[op.address]
            &&& h2.links[op.address] == (LinkState {
                link: h2.connections[op.address].link,
                told: false,
            })
            &&& step is Do
            &&& step->Do_0.stage is Attempting
            &&& step->Do_0.stage->attempt.link == h2.connections[op.address].link
            &&& step->Do_0.stage->attempt.peripheral == h2.connections[op.address].peripheral
        }),
{
}

/// What a link that was told `told` last has been told after the step.
pub open spec fn told_after<O, S, A, R>(step: Step<O, S, A, R>, link: LinkId, told: bool) -> bool {
    match step {
        Step::Do(_, Action::SendLink { link: l, value }) => if l == link {
            value
        } else {
            told
        },
        _ => told,
    }
}

/// Each address keeps its link, and the handler knows what each link was told last.
pub open spec fn links_follow<O, S, A, C, T, R>(
    h: HandlerView<S, A, C, T>,
    h2: HandlerView<S, A, C, T>,
    step: Step<O, S, A, R>,
) -> bool {
    forall|a: Seq<char>| #[trigger]
        h.links.dom().contains(a) ==> h2.links.dom().contains(a) && h2.links[a].link == h.links[a].link
            && h2.links[a].told == told_after(step, h.links[a].link, h.links[a].told)
}

/// A link outlives the connection: no step of connecting, of discovering services, of
/// disconnecting or of handling an event takes an address its link, and what the handler notes
/// of a link is the last value that the step tells it. So whoever holds the link of a device
/// hears when the device connects again, over the same link.
pub proof fn links_are_kept<S, A, C, T>(
    h: HandlerView<S, A, C, T>,
    connect: ConnectView<S, A>,
    services: DiscoverServicesView,
    event: HandleEvent<S, A>,
    reply: Reply,
)
    requires
        h.inv(),
    ensures
        connect.awaits(h, reply) ==> {
            let (h2, step) = connect_step(h, connect, reply);
            links_follow(h, h2, step)
        },
        services.awaits(h, reply) ==> {
            let (h2, step) = services_step(h, services, reply);
            links_follow(h, h2, step)
        },
        ({
            let (h2, step) = handle_event_step(h, event);
            links_follow(h, h2, step)
        }),
{
}

/// The same of the beginning of handling an event.
pub proof fn links_are_kept_by_events<S, A, C, T>(
    h: HandlerView<S, A, C, T>,
    event: CentralEvent,
    h2: HandlerView<S, A, C, T>,
    step: EventStep<S, A>,
)
    requires
        h.inv(),
        handle_event_begin(h, event, h2, step),
    ensures
        links_follow(h, h2, step),
{
}

/// The same of disconnecting.
pub proof fn links_are_kept_by_disconnecting<S, A, C, T>(
    h: HandlerView<S, A, C, T>,
    op: DisconnectDevice<S, A>,
    reply: Reply,
    h2: HandlerView<S, A, C, T>,
    step: DisconnectStep<S, A>,
)
    requires
        h.inv(),
        disconnect_step(h, op, reply, h2, step),
    ensures
        links_follow(h, h2, step),
{
}

/// The state of one device is its own: what the adapter reports of one peripheral is never told
/// to the link of a connection with another peripheral, neither at once nor by the rest of
/// handling the event.
pub proof fn events_are_told_to_their_device_alone<S, A, C, T>(
    h: HandlerView<S, A, C, T>,
    event: CentralEvent,
    peripheral: PeripheralId,
    h2: HandlerView<S, A, C, T>,
    step: EventStep<S, A>,
    later: HandlerView<S, A, C, T>,
    rest: HandleEvent<S, A>,
    other: Seq<char>,
)
    requires
        h.inv(),
        event == CentralEvent::DeviceConnected(peripheral) || event
            == CentralEvent::DeviceDisconnected(peripheral),
        handle_event_begin(h, event, h2, step),
    ensures
        h.tracks(other) && h.connections[other].peripheral != peripheral ==> !(step matches Step::Do(
            _,
            Action::SendLink { link, .. },
        ) && link == h.connections[other].link),
        later.tracks(other) ==> !(handle_event_step(later, rest).1 matches Step::Do(
            _,
            Action::SendLink { link, .. },
        ) && link == later.connections[other].link),
{
    if later.tracks(other) {
        if let HandleEvent::RunningCallback { link } = rest {
            if link == later.connections[other].link {
                assert(later.holds_link(other, link));
            }
        }
    }
}

/// Connecting a device and discovering its services tell no link but that of its address.
pub proof fn attempts_tell_their_device_alone<S, A, C, T>(
    h: HandlerView<S, A, C, T>,
    connect: ConnectView<S, A>,
    services: DiscoverServicesView,
    reply: Reply,
    other: Seq<char>,
)
    requires
        h.inv(),
        h.links.dom().contains(other),
    ensures
        connect.awaits(h, reply) && other != connect.address ==> !(connect_step(h, connect, reply).1 matches Step::Do(
            _,
            Action::SendLink { link, .. },
        ) && link == h.links[other].link),
        services.awaits(h, reply) && other != services.address ==> !(services_step(
            h,
            services,
            reply,
        ).1 matches Step::Do(_, Action::SendLink { link, .. }) && link == h.links[other].link),
{
}

/// An event for a peripheral that has no connection is ignored.
pub proof fn events_of_other_peripherals_are_ignored<S, A, C, T>(
    h: HandlerView<S, A, C, T>,
    peripheral: PeripheralId,
    event: CentralEvent,
    h2: HandlerView<S, A, C, T>,
    step: EventStep<S, A>,
)
    requires
        event == CentralEvent::DeviceConnected(peripheral) || event
            == CentralEvent::DeviceDisconnected(peripheral),
        forall|a: Seq<char>| !is_address_of(h, a, peripheral),
        handle_event_begin(h, event, h2, step),
    ensures
        h2 == h,
        step == EventStep::<S, A>::Done(Ok(())),
{
}

proof fn listeners_at<S, A, C, T>(h: HandlerView<S, A, C, T>, address: Seq<char>)
    requires
        h.inv(),
        h.tracks(address),
    ensures
        h.listeners_of(h.connections[address].lock) == h.connections[address].listeners,
{
    let lock = h.connections[address].lock;
    assert(h.holds_lock(address, lock));
    let a = choose|a: Seq<char>| h.holds_lock(a, lock);
    assert(h.holds_lock(a, lock));
}

/// After a subscription a notification of the characteristic runs, of all callbacks that it ran
/// before and in the same order, and last the new one. Other characteristics, and other
/// devices, run what they ran before.
pub proof fn a_subscriber_is_notified<S, A, C, T>(
    h: HandlerView<S, A, C, T>,
    address: Seq<char>,
    op: Subscribe<C>,
    other_lock: LockId,
    uuid: Uuid,
    service: Uuid,
)
    requires
        h.inv(),
        h.holds_lock(address, op.target.lock),
        op.stage is Quieting,
    ensures
        ({
            let h2 = subscribe_step(h, op, Reply::Acknowledged).0;
            let lock = op.target.lock;
            let charac = op.target.charac;
            &&& callbacks_for(h2.listeners_of(lock), charac.uuid, charac.service_uuid)
                == callbacks_for(h.listeners_of(lock), charac.uuid, charac.service_uuid).push(op.callback)
            &&& uuid != charac.uuid || service != charac.service_uuid ==> callbacks_for(
                h2.listeners_of(lock),
                uuid,
                service,
            ) == callbacks_for(h.listeners_of(lock), uuid, service)
            &&& other_lock != lock ==> h2.listeners_of(other_lock) == h.listeners_of(other_lock)
        }),
{
    let h2 = subscribe_step(h, op, Reply::Acknowledged).0;
    let lock = op.target.lock;
    listeners_keep_the_invariant(h, h2);
    listeners_at(h, address);
    listeners_at(h2, address);
    let before = h.connections[address].listeners;
    let listener = op.listener();
    assert(h2.connections[address].listeners == before.push(listener));
    assert(before.push(listener).drop_last() =~= before);
    assert(before.push(listener).last() == listener);
    if other_lock != lock {
        same_listeners(h, h2, other_lock);
    }
}

proof fn listeners_keep_the_invariant<S, A, C, T>(h: HandlerView<S, A, C, T>, h2: HandlerView<S, A, C, T>)
    requires
        h.inv(),
        h2.connections.dom() =~= h.connections.dom(),
        forall|a: Seq<char>| #[trigger]
            h.tracks(a) ==> h2.connections[a] == (ConnectionView {
                listeners: h2.connections[a].listeners,
                ..h.connections[a]
            }),
        h2.links == h.links,
        h2.next_token == h.next_token,
    ensures
        h2.inv(),
{
    assert forall|a: Seq<char>| #[trigger] h2.tracks(a) implies h.tracks(a) by {}
}

proof fn same_listeners<S, A, C, T>(
    h: HandlerView<S, A, C, T>,
    h2: HandlerView<S, A, C, T>,
    lock: LockId,
)
    requires
        h.inv(),
        h2.inv(),
        h2.connections.dom() =~= h.connections.dom(),
        forall|a: Seq<char>| #[trigger]
            h.tracks(a) ==> h2.connections[a].lock == h.connections[a].lock && (h.connections[a].lock
                == lock ==> h2.connections[a].listeners == h.connections[a].listeners),
    ensures
        h2.listeners_of(lock) == h.listeners_of(lock),
{
    if h.lock_in_use(lock) {
        let a = choose|a: Seq<char>| h.holds_lock(a, lock);
        assert(h.tracks(a) && h2.holds_lock(a, lock));
        listeners_at(h, a);
        listeners_at(h2, a);
    } else {
        assert forall|a: Seq<char>| !h2.holds_lock(a, lock) by {
            assert(!h.holds_lock(a, lock));
        }
    }
}

/// While a notification of a connection is being handed out, its listeners stay as they are:
/// no subscription and no unsubscription changes them, and a connection that was lost is not
/// wound up before its callbacks have ended.
pub proof fn listeners_stay_during_a_notification<S, A, C, T>(
    h: HandlerView<S, A, C, T>,
    lock: LockId,
    subscription: Subscribe<C>,
    unsubscription: UnsubscribeView,
    event: HandleEvent<S, A>,
    reply: Reply,
)
    requires
        h.inv(),
        h.is_notifying(lock),
    ensures
        subscription.awaits(h, reply) ==> subscribe_step(h, subscription, reply).0.listeners_of(lock)
            == h.listeners_of(lock),
        unsubscription.awaits(h, reply) ==> unsubscribe_step(h, unsubscription, reply).0.listeners_of(
            lock,
        ) == h.listeners_of(lock),
        event matches HandleEvent::Quieting { lock: l, .. } ==> (l == lock ==> !event.awaits(h, reply)),
{
    if subscription.awaits(h, reply) {
        let h2 = subscribe_step(h, subscription, reply).0;
        listeners_keep_the_invariant(h, h2);
        same_listeners(h, h2, lock);
    }
    if unsubscription.awaits(h, reply) {
        let h2 = unsubscribe_step(h, unsubscription, reply).0;
        listeners_keep_the_invariant(h, h2);
        same_listeners(h, h2, lock);
    }
}

/// The listeners of a connection change in the order in which the adapter subscribes and
/// unsubscribes: an operation asks the adapter only after it has taken the lock of the
/// connection, it holds the lock until it ends, and while the lock is held no other takes it.
pub proof fn subscriptions_change_one_at_a_time<S, A, C, T>(
    h: HandlerView<S, A, C, T>,
    subscription: Subscribe<C>,
    unsubscription: UnsubscribeView,
    reply: Reply,
)
    ensures
        subscription.awaits(h, reply) ==> {
            let (h2, step) = subscribe_step(h, subscription, reply);
            &&& (subscription.stage is Locking) == !h.held.contains(subscription.lock_name())
            &&& (step is Do) == h2.held.contains(subscription.lock_name())
        },
        unsubscription.awaits(h, reply) ==> {
            let (h2, step) = unsubscribe_step(h, unsubscription, reply);
            &&& (unsubscription.stage is Locking) == !h.held.contains(unsubscription.lock_name())
            &&& (step is Do) == h2.held.contains(unsubscription.lock_name())
        },
{
}

/// Scans are ended and started one at a time: whoever ends a scan or tells the adapter to scan
/// has taken the lock for that, and while it is held no other takes it.
pub proof fn scans_change_one_at_a_time<S, A, C, T>(
    h: HandlerView<S, A, C, T>,
    discover: Discover,
    stop: StopScan,
    reply: Reply,
)
    ensures
        discover.awaits(h, reply) ==> {
            let (h2, step) = discover_step(h, discover, reply);
            &&& step matches Step::Do(_, action) ==> (action is AbortTask || action is StopAdapterScan
                || action is StartAdapterScan || action is SpawnScan ==> h2.held.contains(LockName::Scan))
            &&& h2.scan_task != h.scan_task ==> !h.held.contains(LockName::Scan) && h2.held.contains(
                LockName::Scan,
            )
        },
        stop.awaits(h, reply) ==> {
            let (h2, step) = stop_scan_step(h, stop, reply);
            &&& step matches Step::Do(_, Action::AbortTask(_)) ==> h2.held.contains(LockName::Scan)
            &&& h2.scan_task != h.scan_task ==> !h.held.contains(LockName::Scan) && h2.held.contains(
                LockName::Scan,
            )
        },
{
}

/// The adapter is initialized once: no step of any operation changes an adapter that is stored,
/// and with one stored each initialization gives that one. While one initialization is under
/// way, which holds the lock for that, no other begins to list adapters.
pub proof fn the_adapter_is_initialized_once<S, A, C, T>(
    h: HandlerView<S, A, C, T>,
    adapter: AdapterId,
    init: InitAdapter,
    connect: ConnectView<S, A>,
    services: DiscoverServicesView,
    event: HandleEvent<S, A>,
    discover: Discover,
    stop: StopScan,
    scan: ScanTaskView,
    subscription: Subscribe<C>,
    unsubscription: UnsubscribeView,
    reply: Reply,
)
    requires
        h.adapter == Some(adapter),
    ensures
        init_adapter_begin(h) == Step::<InitAdapter, S, A, Result<AdapterId, ErrorView>>::Done(
            Ok(adapter),
        ),
        init.awaits(h, reply) ==> init_adapter_step(h, init, reply).0.adapter == Some(adapter),
        init.awaits(h, reply) && init_adapter_step(h, init, reply).1 is Done ==> init_adapter_step(
            h,
            init,
            reply,
        ).1->Done_0 is Err || init_adapter_step(h, init, reply).1->Done_0 == Ok::<AdapterId, ErrorView>(
            adapter,
        ),
        connect.awaits(h, reply) ==> connect_step(h, connect, reply).0.adapter == h.adapter,
        services.awaits(h, reply) ==> services_step(h, services, reply).0.adapter == h.adapter,
        handle_event_step(h, event).0.adapter == h.adapter,
        discover.awaits(h, reply) ==> discover_step(h, discover, reply).0.adapter == h.adapter,
        stop.awaits(h, reply) ==> stop_scan_step(h, stop, reply).0.adapter == h.adapter,
        scan_task_begin(h, scan).0.adapter == h.adapter,
        subscription.awaits(h, reply) ==> subscribe_step(h, subscription, reply).0.adapter == h.adapter,
        unsubscription.awaits(h, reply) ==> unsubscribe_step(h, unsubscription, reply).0.adapter
            == h.adapter,
{
}

/// The same of the steps that may find one of several addresses, and of those of a scan.
pub proof fn the_adapter_is_kept<S, A, C, T>(
    h: HandlerView<S, A, C, T>,
    h2: HandlerView<S, A, C, T>,
    event: CentralEvent,
    event_step: EventStep<S, A>,
    disconnect: DisconnectDevice<S, A>,
    disconnected: DisconnectStep<S, A>,
    scan: ScanTaskView,
    scanned: ScanTaskStep<S, A>,
    reply: Reply,
)
    ensures
        handle_event_begin(h, event, h2, event_step) ==> h2.adapter == h.adapter,
        disconnect_step(h, disconnect, reply, h2, disconnected) ==> h2.adapter == h.adapter,
        scan_task_step(h, scan, reply, h2, scanned) ==> h2.adapter == h.adapter,
{
}

/// Only one initialization at a time lists adapters and listens to their events.
pub proof fn adapters_are_listed_one_at_a_time<S, A, C, T>(
    h: HandlerView<S, A, C, T>,
    init: InitAdapter,
    reply: Reply,
)
    requires
        init.awaits(h, reply),
    ensures
        ({
            let (h2, step) = init_adapter_step(h, init, reply);
            &&& (init is Locking) == !h.held.contains(LockName::Adapter)
            &&& (step is Do) == h2.held.contains(LockName::Adapter)
        }),
{
}

proof fn callbacks_without<C>(listeners: Seq<Listener<C>>, dropped: Uuid, uuid: Uuid, service: Uuid)
    ensures
        callbacks_for(without_uuid(listeners, dropped), uuid, service) == if uuid == dropped {
            Seq::<C>::empty()
        } else {
            callbacks_for(listeners, uuid, service)
        },
    decreases listeners.len(),
{
    reveal(Seq::filter);
    if listeners.len() > 0 {
        callbacks_without(listeners.drop_last(), dropped, uuid, service);
        let rest = without_uuid(listeners.drop_last(), dropped);
        let l = listeners.last();
        if l.uuid != dropped {
            assert(without_uuid(listeners, dropped) == rest.push(l));
            assert(rest.push(l).drop_last() =~= rest);
        } else {
            assert(without_uuid(listeners, dropped) == rest);
        }
    }
}

/// After an unsubscription no notification of the characteristic runs a callback of the device,
/// of whatever service. Other characteristics run what they ran before.
pub proof fn an_unsubscribed_characteristic_is_silent<S, A, C, T>(
    h: HandlerView<S, A, C, T>,
    op: UnsubscribeView,
    lock: LockId,
    uuid: Uuid,
    service: Uuid,
)
    requires
        h.inv(),
        op.stage == UnsubscribeStage::Quieting(lock),
    ensures
        ({
            let h2 = unsubscribe_step(h, op, Reply::Acknowledged).0;
            callbacks_for(h2.listeners_of(lock), uuid, service) == if uuid == op.target.charac.uuid {
                Seq::<C>::empty()
            } else {
                callbacks_for(h.listeners_of(lock), uuid, service)
            }
        }),
{
    let h2 = unsubscribe_step(h, op, Reply::Acknowledged).0;
    listeners_keep_the_invariant(h, h2);
    if h.lock_in_use(lock) {
        let a = choose|a: Seq<char>| h.holds_lock(a, lock);
        assert(h.tracks(a) && h2.tracks(a));
        listeners_at(h, a);
        listeners_at(h2, a);
        callbacks_without(h.connections[a].listeners, op.target.charac.uuid, uuid, service);
    } else {
        assert forall|a: Seq<char>| !h2.holds_lock(a, lock) by {
            assert(!h.holds_lock(a, lock));
        }
    }
}

/// The operation discovers the services of a device that was connected before.
pub open spec fn is_on_connected_device(op: DiscoverServicesView) -> bool {
    op.already_connected && (op.stage is Checking || op.stage is Discovering || op.stage is Listing)
}

/// The step neither connects nor disconnects, and the operation goes on with a device that was
/// connected before, if it goes on.
pub open spec fn leaves_connected<S, A>(step: ServicesStep<S, A>) -> bool {
    step matches Step::Do(op, action) ==> is_on_connected_device(op) && !(action is Disconnect) && !(
    action is Connect)
}

/// Discovering the services of a device that has a connection leaves it connected: neither the
/// beginning nor any step after it changes the handler or asks the adapter to disconnect or
/// connect. The same holds from the answer on that a device without a connection is connected.
pub proof fn a_connected_device_stays_connected<S, A, C, T>(
    h: HandlerView<S, A, C, T>,
    address: Seq<char>,
    op: DiscoverServicesView,
    reply: Reply,
)
    ensures
        h.tracks(address) ==> leaves_connected(services_begin(h, address)),
        (is_on_connected_device(op) && op.awaits(h, reply)) || (op.stage is Querying && reply
            == Reply::Queried(Ok(true))) ==> {
            let (h2, step) = services_step(h, op, reply);
            h2 == h && leaves_connected(step)
        },
{
}

/// A device that was connected only to discover its services is disconnected once they are
/// listed, if its link says that it is connected.
pub proof fn a_device_is_disconnected_after_discovery<S, A, C, T>(
    h: HandlerView<S, A, C, T>,
    op: DiscoverServicesView,
    services: Vec<Service>,
    h2: HandlerView<S, A, C, T>,
)
    requires
        op.stage is Listing,
        !op.already_connected,
        h.tracks(op.address),
    ensures
        ({
            let link = h.connections[op.address].link;
            let read = services_step(h, op, Reply::Listed(services)).1;
            &&& read is Do
            &&& read->Do_1 == Action::<S, A>::ReadLink(link)
            &&& services_step(h2, read->Do_0, Reply::Flag(true)).1 is Do
            &&& services_step(h2, read->Do_0, Reply::Flag(true)).1->Do_1 == Action::<S, A>::Disconnect(
                op.peripheral,
            )
        }),
{
}

/// `after` is a step of a scan that can follow `before`.
pub open spec fn scan_follows<S, A, C, T>(
    before: ScanTaskStep<S, A>,
    h: HandlerView<S, A, C, T>,
    reply: Reply,
    h2: HandlerView<S, A, C, T>,
    after: ScanTaskStep<S, A>,
) -> bool {
    before matches Step::Do(op, _) && scan_task_step(h, op, reply, h2, after)
}

/// The steps are those of one scan, from its start on. Between them the handler may change in
/// any way.
pub open spec fn is_scan_run<S, A, C, T>(
    steps: Seq<ScanTaskStep<S, A>>,
    op: ScanTaskView,
    handlers: Seq<(HandlerView<S, A, C, T>, HandlerView<S, A, C, T>)>,
    replies: Seq<Reply>,
) -> bool {
    &&& steps.len() > 0
    &&& handlers.len() == steps.len()
    &&& replies.len() == steps.len()
    &&& steps[0] == scan_task_begin(handlers[0].0, op).1
    &&& forall|i: int|
        0 < i < steps.len() ==> #[trigger] scan_follows(
            steps[i - 1],
            handlers[i].0,
            replies[i],
            handlers[i].1,
            steps[i],
        )
}

/// How many of the steps list the peripherals.
pub open spec fn listings<S, A>(steps: Seq<ScanTaskStep<S, A>>) -> nat
    decreases steps.len(),
{
    if steps.len() == 0 {
        0
    } else {
        listings(steps.drop_last()) + (if steps.last() matches Step::Do(_, Action::ListPeripherals { .. }) {
            1nat
        } else {
            0nat
        })
    }
}

spec fn listings_left<S, A>(step: ScanTaskStep<S, A>) -> int {
    match step {
        Step::Done(_) => 0,
        Step::Do(op, _) => match op.stage {
            ScanStageView::Sleeping => op.rounds_left + 1,
            ScanStageView::Stopping => 0,
            ScanStageView::Announcing => 0,
            _ => op.rounds_left as int,
        },
    }
}

/// Each stage goes with what it waits for.
spec fn scan_in_bounds<S, A>(step: ScanTaskStep<S, A>) -> bool {
    step matches Step::Do(op, action) ==> {
        &&& !(op.stage is Spawned)
        &&& op.stage is Listing == action is ListPeripherals
    }
}

proof fn scan_spends_its_rounds<S, A, C, T>(
    steps: Seq<ScanTaskStep<S, A>>,
    op: ScanTaskView,
    handlers: Seq<(HandlerView<S, A, C, T>, HandlerView<S, A, C, T>)>,
    replies: Seq<Reply>,
)
    requires
        is_scan_run(steps, op, handlers, replies),
    ensures
        scan_in_bounds(steps.last()),
        listings(steps) + listings_left(steps.last()) == op.rounds_left + 1,
    decreases steps.len(),
{
    reveal_with_fuel(listings, 2);
    if steps.len() > 1 {
        let s = steps.drop_last();
        let hs = handlers.drop_last();
        let rs = replies.drop_last();
        assert(is_scan_run(s, op, hs, rs)) by {
            assert forall|i: int| 0 < i < s.len() implies #[trigger] scan_follows(
                s[i - 1],
                hs[i].0,
                rs[i],
                hs[i].1,
                s[i],
            ) by {
                assert(scan_follows(
                    steps[i - 1],
                    handlers[i].0,
                    replies[i],
                    handlers[i].1,
                    steps[i],
                ));
            }
        }
        scan_spends_its_rounds(s, op, hs, rs);
        let n = steps.len() - 1;
        assert(scan_follows(steps[n - 1], handlers[n].0, replies[n], handlers[n].1, steps[n]));
    } else {
        assert(steps.drop_last() =~= Seq::<ScanTaskStep<S, A>>::empty());
    }
}

/// A scan of so many milliseconds looks for devices once in each round, and when it ends it has
/// had as many rounds as fit in the time, at least one.
pub proof fn a_scan_has_all_its_rounds<S, A, C, T>(
    steps: Seq<ScanTaskStep<S, A>>,
    discover: Discover,
    adapter: AdapterId,
    task: TaskId,
    handlers: Seq<(HandlerView<S, A, C, T>, HandlerView<S, A, C, T>)>,
    replies: Seq<Reply>,
)
    requires
        is_scan_run(steps, spawned(discover, adapter, task)@, handlers, replies),
    ensures
        listings(steps) <= rounds_of(discover.timeout),
        steps.last() is Done ==> listings(steps) == rounds_of(discover.timeout),
{
    scan_spends_its_rounds(steps, spawned(discover, adapter, task)@, handlers, replies);
}

} // verus!

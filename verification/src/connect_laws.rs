//! What connecting a device asks for, and what comes of it.
use vstd::prelude::*;

use crate::callbacks::OnDisconnectHandler;
use crate::connect::{connect_begin, connect_step, ConnectStageView, ConnectView};
use crate::connect_device::{
    connect_device_begin, connect_device_step, ConnectDeviceView, DeviceStage, DeviceStep,
};
use crate::connection::ConnectionView;
use crate::error::{BleError, ErrorView};
use crate::gatt_laws::listed_characteristics;
use crate::handler::HandlerView;
use crate::laws::{connect_follows, is_connect_run, same_at, ConnectStep};
use crate::models::{Characteristic, LinkState, LockId, PeripheralId, Service};
use crate::step::{Action, Reply, Step};

verus! {

/// The step asks for the action.
pub open spec fn asks<O, S, A, R>(step: Step<O, S, A, R>, action: Action<S, A>) -> bool {
    step matches Step::Do(_, a) && a == action
}

/// The peripheral that the action is for, if it is for one.
pub open spec fn peripheral_named<S, A>(action: Action<S, A>) -> Option<PeripheralId> {
    match action {
        Action::QueryConnected(p) => Some(p),
        Action::Connect { peripheral, .. } => Some(peripheral),
        Action::Disconnect(p) => Some(p),
        Action::LacksServices(p) => Some(p),
        Action::DiscoverServices { peripheral, .. } => Some(peripheral),
        Action::ListServices(p) => Some(p),
        Action::StartListening { peripheral, .. } => Some(peripheral),
        Action::Write { peripheral, .. } => Some(peripheral),
        Action::Read { peripheral, .. } => Some(peripheral),
        Action::Subscribe { peripheral, .. } => Some(peripheral),
        Action::Unsubscribe { peripheral, .. } => Some(peripheral),
        _ => None,
    }
}

/// The two differ at most in the connections and the links, and in which locks, links and tasks
/// were given out.
pub open spec fn differs_in_connections<S, A, C, T>(
    h: HandlerView<S, A, C, T>,
    h2: HandlerView<S, A, C, T>,
) -> bool {
    h2 == HandlerView {
        connections: h2.connections,
        links: h2.links,
        next_token: h2.next_token,
        ..h
    }
}

/// A device can be connected exactly when it was discovered: an attempt for any other address
/// fails at once, with the address in the error, and changes nothing.
pub proof fn only_discovered_devices_are_connected<S, A, C, T>(
    h: HandlerView<S, A, C, T>,
    address: Seq<char>,
)
    ensures
        ({
            let (h2, step) = connect_device_begin(h, address);
            &&& step is Do == h.devices.dom().contains(address)
            &&& step matches Step::Done(r) ==> h2 == h && r == Err::<(), ErrorView>(
                ErrorView::UnknownPeripheral(address),
            )
        }),
{
}

/// An attempt is for the peripheral that was discovered under the address, and holds the lock and
/// the link of the connection for the address. It first asks this peripheral whether it is
/// connected. Only a link that was left saying `true` of a connection that is gone is told
/// `false` before that.
pub proof fn an_attempt_asks_the_discovered_peripheral<S, A, C, T>(
    h: HandlerView<S, A, C, T>,
    address: Seq<char>,
)
    requires
        h.inv(),
        h.has_tokens(),
        h.devices.dom().contains(address),
    ensures
        ({
            let (h2, step) = connect_device_begin(h, address);
            let link = h2.connections[address].link;
            let is_stale = !h.tracks(address) && h.links.dom().contains(address) && h.links[address].told;
            &&& h2.tracks(address)
            &&& step matches Step::Do(op, action) && {
                &&& op.address == address
                &&& op.peripheral == h.devices[address]
                &&& op.lock == h2.connections[address].lock
                &&& op.link == link
                &&& action == if is_stale {
                    Action::<S, A>::SendLink { link, value: false }
                } else {
                    Action::<S, A>::QueryConnected(h.devices[address])
                }
            }
            &&& is_stale ==> asks(
                connect_device_step(h2, step->Do_0, Reply::Acknowledged).1,
                Action::<S, A>::QueryConnected(h.devices[address]),
            )
        }),
{
}

/// A connection that an attempt begins is with the discovered peripheral. It has no
/// characteristics, no listeners, no callback and no task, and its device does not count as
/// connected. Its lock is new. Its link is the one that the address had, or else a new one, and
/// does not say that the device is connected. A connection that was there before is left as it is,
/// and so are all others.
pub proof fn a_connection_begins_empty<S, A, C, T>(
    h: HandlerView<S, A, C, T>,
    address: Seq<char>,
    other: Seq<char>,
)
    requires
        h.inv(),
        h.has_tokens(),
        h.devices.dom().contains(address),
        other != address,
    ensures
        ({
            let h2 = connect_device_begin(h, address).0;
            let c = h2.connections[address];
            &&& h.tracks(address) ==> h2 == h
            &&& !h.tracks(address) ==> {
                &&& h2.tracks(address)
                &&& c.peripheral == h.devices[address]
                &&& c.characs.len() == 0
                &&& c.listeners.len() == 0
                &&& c.listen_task is None
                &&& c.on_disconnect is Unset
                &&& !c.connected
                &&& h.next_token <= c.lock < h2.next_token
                &&& h2.links.dom().contains(address)
                &&& h2.links[address] == (LinkState { link: c.link, told: false })
                &&& if h.links.dom().contains(address) {
                    c.link == h.links[address].link
                } else {
                    h.next_token <= c.link < h2.next_token && c.link != c.lock
                }
            }
            &&& same_at(h, h2, other)
            &&& h2.links.dom().contains(other) == h.links.dom().contains(other)
            &&& h.links.dom().contains(other) ==> h2.links[other] == h.links[other]
            &&& differs_in_connections(h, h2)
        }),
{
}

/// An attempt goes on with its own device: it stays with its address, peripheral, lock and link,
/// asks and connects no other peripheral, connects it under the lock of the connection for the
/// address, and looks at no other link.
pub proof fn an_attempt_stays_with_its_device<S, A, C, T>(
    h: HandlerView<S, A, C, T>,
    op: ConnectDeviceView,
    reply: Reply,
)
    requires
        op.awaits(h, reply),
    ensures
        connect_device_step(h, op, reply).1 matches Step::Do(op2, action) ==> {
            &&& op2.address == op.address
            &&& op2.peripheral == op.peripheral
            &&& op2.lock == op.lock
            &&& op2.link == op.link
            &&& match action {
                Action::QueryConnected(p) => p == op.peripheral && op2.stage is Querying,
                Action::Connect { peripheral, lock } => peripheral == op.peripheral && lock
                    == h.connections[op.address].lock && op2.stage is Connecting,
                Action::ReadLink(l) => l == op.link && op2.stage is Reading,
                Action::AwaitLink(l) => l == op.link && op2.stage is Waiting,
                Action::PeekLink(l) => l == op.link && op2.stage is Checking,
                Action::SendLink { link, value } => link == op.link && value && op2.stage is Signalling,
                _ => false,
            }
        },
{
}

/// A peripheral that is connected already is not connected again: its device counts as connected
/// from then on, its link is told so, and then the attempt has succeeded. If its connection is
/// gone, the attempt has succeeded at once. Nothing else of the connection changes.
pub proof fn a_connected_peripheral_needs_no_connecting<S, A, C, T>(
    h: HandlerView<S, A, C, T>,
    op: ConnectDeviceView,
    later: HandlerView<S, A, C, T>,
)
    requires
        op.stage is Querying,
    ensures
        ({
            let (h2, step) = connect_device_step(h, op, Reply::Queried(Ok(true)));
            let c = h.connections[op.address];
            &&& h.tracks(op.address) ==> {
                &&& h2.connections == h.connections.insert(
                    op.address,
                    ConnectionView { connected: true, ..c },
                )
                &&& h2.links == h.links.insert(op.address, LinkState { link: c.link, told: true })
                &&& differs_in_connections(h, h2)
                &&& h2.next_token == h.next_token
                &&& asks(step, Action::<S, A>::SendLink { link: op.link, value: true })
                &&& connect_device_step(later, step->Do_0, Reply::Acknowledged) == (
                    later,
                    DeviceStep::<S, A>::Done(Ok(())),
                )
            }
            &&& !h.tracks(op.address) ==> h2 == h && step == DeviceStep::<S, A>::Done(Ok(()))
        }),
{
}

/// A peripheral that is not connected is connected, under the lock of the connection for its
/// address. If it cannot say whether it is, its error is that of the attempt.
pub proof fn a_disconnected_peripheral_is_connected<S, A, C, T>(
    h: HandlerView<S, A, C, T>,
    op: ConnectDeviceView,
    e: btleplug::Error,
)
    requires
        op.stage is Querying,
    ensures
        connect_device_step(h, op, Reply::Queried(Ok(false))).0 == h,
        asks(
            connect_device_step(h, op, Reply::Queried(Ok(false))).1,
            Action::<S, A>::Connect {
                peripheral: op.peripheral,
                lock: h.connections[op.address].lock,
            },
        ),
        connect_device_step(h, op, Reply::Queried(Err(e))) == (
            h,
            DeviceStep::<S, A>::Done(Err(ErrorView::Btleplug(e))),
        ),
{
}

/// When the adapter has connected the peripheral, the link of the device is read; if it does not
/// say that the device is connected, the next word over it is awaited. Then the last word decides:
/// the attempt succeeds exactly if it says that the device is connected and the address has no
/// other connection than the one that the attempt is for.
pub proof fn the_event_decides_an_attempt<S, A, C, T>(
    h: HandlerView<S, A, C, T>,
    op: ConnectDeviceView,
    h2: HandlerView<S, A, C, T>,
    seen: bool,
    h3: HandlerView<S, A, C, T>,
    h4: HandlerView<S, A, C, T>,
    connected: bool,
)
    requires
        op.stage is Connecting,
    ensures
        ({
            let read = connect_device_step(h, op, Reply::Timed(Some(Ok(()))));
            let heard = connect_device_step(h2, read.1->Do_0, Reply::Flag(seen));
            let peeked = if seen {
                heard
            } else {
                connect_device_step(h3, heard.1->Do_0, Reply::Acknowledged)
            };
            let is_own = !h4.tracks(op.address) || h4.connections[op.address].lock == op.lock;
            &&& read.0 == h
            &&& asks(read.1, Action::<S, A>::ReadLink(op.link))
            &&& heard.0 == h2
            &&& !seen ==> asks(heard.1, Action::<S, A>::AwaitLink(op.link)) && peeked.0 == h3
            &&& asks(peeked.1, Action::<S, A>::PeekLink(op.link))
            &&& connect_device_step(h4, peeked.1->Do_0, Reply::Flag(connected)) == (
                h4,
                DeviceStep::<S, A>::Done(
                    if connected && is_own {
                        Ok(())
                    } else {
                        Err(ErrorView::ConnectionFailed)
                    },
                ),
            )
        }),
{
}

/// An attempt fails with the adapter's error if the adapter could not connect the peripheral, and
/// with a timeout under the name of the operation if the time limit passed.
pub proof fn a_failure_to_connect_is_that_of_the_attempt<S, A, C, T>(
    h: HandlerView<S, A, C, T>,
    op: ConnectDeviceView,
    e: btleplug::Error,
)
    requires
        op.stage is Connecting,
    ensures
        connect_device_step(h, op, Reply::Timed(Some(Err(e)))) == (
            h,
            DeviceStep::<S, A>::Done(Err(ErrorView::Btleplug(e))),
        ),
        connect_device_step(h, op, Reply::Timed(None)) == (
            h,
            DeviceStep::<S, A>::Done(Err(ErrorView::Timeout("Connect"@))),
        ),
{
}

/// An attempt goes on with every answer to what it asks for, as long as its link is that of the
/// address and, where the peripheral is to be connected, there is a connection.
pub proof fn an_attempt_takes_every_answer<S, A, C, T>(
    h: HandlerView<S, A, C, T>,
    op: ConnectDeviceView,
    queried: Result<bool, btleplug::Error>,
    done: Option<Result<(), btleplug::Error>>,
    flag: bool,
)
    requires
        h.links.dom().contains(op.address),
        h.links[op.address].link == op.link,
    ensures
        op.stage is Resetting || op.stage is Signalling || op.stage is Waiting ==> op.awaits(
            h,
            Reply::Acknowledged,
        ),
        op.stage is Querying && (h.tracks(op.address) || queried != Ok::<bool, btleplug::Error>(false))
            ==> op.awaits(h, Reply::Queried(queried)),
        op.stage is Connecting ==> op.awaits(h, Reply::Timed(done)),
        op.stage is Reading || op.stage is Checking ==> op.awaits(h, Reply::Flag(flag)),
{
}

/// Connecting begins with a scan if no device was discovered, which may find iBeacons if that is
/// allowed, and else with the end of the scan that may be running. It carries what it was given.
pub proof fn connecting_begins_with_a_scan_or_its_end<S, A, C, T>(
    h: HandlerView<S, A, C, T>,
    address: Seq<char>,
    on_disconnect: OnDisconnectHandler<S, A>,
    allow_ibeacons: bool,
)
    requires
        !h.tracks(address),
    ensures
        connect_begin(h, address, on_disconnect, allow_ibeacons) matches Step::Do(op, action) && {
            &&& op.address == address
            &&& op.on_disconnect == on_disconnect
            &&& op.allow_ibeacons == allow_ibeacons
            &&& if exists|a: Seq<char>| h.devices.dom().contains(a) {
                action == Action::<S, A>::StopScan && op.stage is StoppingScan
            } else {
                action == Action::<S, A>::Discover { timeout: 1000, allow_ibeacons } && op.stage is Scanning
            }
        },
{
    if forall|a: Seq<char>| !h.devices.dom().contains(a) {
        assert(h.devices.dom() =~= Set::empty());
    }
}

/// A scan before connecting is ended again. If it could not be started, its error is the result,
/// and nothing has changed.
pub proof fn a_scan_before_connecting_is_ended<S, A, C, T>(
    h: HandlerView<S, A, C, T>,
    op: ConnectView<S, A>,
    e: BleError,
)
    requires
        op.stage is Scanning,
    ensures
        ({
            let (h2, step) = connect_step(h, op, Reply::Settled(Ok(())));
            &&& h2 == h
            &&& asks(step, Action::<S, A>::StopScan)
            &&& step->Do_0 == (ConnectView { stage: ConnectStageView::StoppingScan, ..op })
        }),
        connect_step(h, op, Reply::Settled(Err(e))) == (h, ConnectStep::<S, A>::Done(Err(e@))),
{
}

/// Whether the scan could be stopped makes no difference. Then, and after each pause, an attempt
/// begins: its first step, if it has one, is that of the operation. After a pause one more attempt
/// counts as failed.
pub proof fn attempts_begin_after_the_scan_and_after_pauses<S, A, C, T>(
    h: HandlerView<S, A, C, T>,
    op: ConnectView<S, A>,
    stopped: Result<(), BleError>,
    failed: u32,
)
    requires
        failed < 2,
        h.devices.dom().contains(op.address),
    ensures
        ({
            let (h1, begun) = connect_device_begin(h, op.address);
            let first = ConnectView { stage: ConnectStageView::StoppingScan, ..op };
            let next = ConnectView { stage: ConnectStageView::Pausing { failed }, ..op };
            &&& begun is Do
            &&& connect_step(h, first, Reply::Settled(stopped)) == (
                h1,
                ConnectStep::<S, A>::Do(
                    ConnectView {
                        stage: ConnectStageView::Attempting { failed: 0, attempt: begun->Do_0 },
                        ..op
                    },
                    begun->Do_1,
                ),
            )
            &&& connect_step(h, next, Reply::Acknowledged) == (
                h1,
                ConnectStep::<S, A>::Do(
                    ConnectView {
                        stage: ConnectStageView::Attempting {
                            failed: (failed + 1) as u32,
                            attempt: begun->Do_0,
                        },
                        ..op
                    },
                    begun->Do_1,
                ),
            )
        }),
{
}

/// While the device is not discovered, connecting pauses for a second after each of the first two
/// attempts; after the third the address is refused, and there is no connection for it.
pub proof fn an_undiscovered_device_is_refused<S, A, C, T>(
    h: HandlerView<S, A, C, T>,
    op: ConnectView<S, A>,
    stopped: Result<(), BleError>,
)
    requires
        !h.devices.dom().contains(op.address),
    ensures
        ({
            let at_first = ConnectView { stage: ConnectStageView::StoppingScan, ..op };
            let (h1, step1) = connect_step(h, at_first, Reply::Settled(stopped));
            let (h2, step2) = connect_step(h, step1->Do_0, Reply::Acknowledged);
            let (h3, step3) = connect_step(h, step2->Do_0, Reply::Acknowledged);
            let refused = Err::<(), ErrorView>(ErrorView::UnknownPeripheral(op.address));
            &&& h1 == h && asks(step1, Action::<S, A>::Sleep(1000))
            &&& h2 == h && asks(step2, Action::<S, A>::Sleep(1000))
            &&& !h3.tracks(op.address)
            &&& match step3 {
                Step::Done(r) => r == refused,
                Step::Do(last, action) => match last.stage {
                    ConnectStageView::Announcing { result } => action is Announce && result == refused,
                    ConnectStageView::Retracting { error } => action is SendLink && error
                        == ErrorView::UnknownPeripheral(op.address),
                    _ => false,
                },
            }
        }),
{
}

/// Each action of connecting that is for a peripheral is for that of the device:
///
/// - an attempt asks and connects its own peripheral, which is the one that was discovered under
///   the address when it began;
/// - services are discovered of the peripheral of the connection for the address, and under the
///   lock of this connection, and then they are listed of the same peripheral;
/// - the notifications that are listened to are those of the peripheral of the connection for the
///   address, under its lock.
///
/// No peripheral is disconnected, read, written or subscribed to.
pub proof fn connecting_names_its_own_peripheral<S, A, C, T>(
    h: HandlerView<S, A, C, T>,
    op: ConnectView<S, A>,
    reply: Reply,
)
    requires
        op.awaits(h, reply),
    ensures
        ({
            let (h2, step) = connect_step(h, op, reply);
            let c = h2.connections[op.address];
            step matches Step::Do(op2, action) ==> (peripheral_named(action) matches Some(p) ==> match action {
                Action::QueryConnected(_) => op2.stage is Attempting && op2.stage->attempt.stage is Querying
                    && p == op2.stage->attempt.peripheral && (op.stage is Attempting ==> p
                    == op.stage->attempt.peripheral) && (!(op.stage is Attempting) ==> p
                    == h.devices[op.address]),
                Action::Connect { lock, .. } => op2.stage is Attempting && op.stage is Attempting
                    && op2.stage->attempt.stage is Connecting && p == op.stage->attempt.peripheral && lock
                    == h.connections[op.address].lock,
                Action::DiscoverServices { guard, .. } => h2.tracks(op.address) && p == c.peripheral
                    && guard == Some(c.lock) && op2.stage == (ConnectStageView::Discovering {
                    peripheral: c.peripheral,
                    lock: c.lock,
                }),
                Action::ListServices(_) => op.stage matches ConnectStageView::Discovering { peripheral, lock }
                    && p == peripheral && op2.stage == (ConnectStageView::Listing { lock }),
                Action::StartListening { lock, .. } => h2.tracks(op.address) && p == c.peripheral && lock
                    == c.lock && op2.stage is StartingToListen,
                _ => false,
            })
        }),
{
}

/// Connecting keeps its address, its callback until the device is set up, and whether iBeacons are
/// allowed, and each stage goes with the action that it waits for.
pub proof fn stages_of_connecting_wait_for_their_actions<S, A, C, T>(
    h: HandlerView<S, A, C, T>,
    op: ConnectView<S, A>,
    reply: Reply,
)
    requires
        op.awaits(h, reply),
    ensures
        ({
            let (h2, step) = connect_step(h, op, reply);
            step matches Step::Do(op2, action) ==> {
                &&& op2.address == op.address
                &&& op2.allow_ibeacons == op.allow_ibeacons
                &&& op2.on_disconnect == op.on_disconnect || (op.stage is Listing && op2.on_disconnect is Unset)
                &&& match op2.stage {
                    ConnectStageView::Scanning => false,
                    ConnectStageView::StoppingScan => action is StopScan,
                    ConnectStageView::Attempting { failed, attempt } => match attempt.stage {
                        DeviceStage::Resetting => action is SendLink,
                        DeviceStage::Querying => action is QueryConnected,
                        DeviceStage::Signalling => action is SendLink,
                        DeviceStage::Connecting => action is Connect,
                        DeviceStage::Reading => action is ReadLink,
                        DeviceStage::Waiting => action is AwaitLink,
                        DeviceStage::Checking => action is PeekLink,
                    },
                    ConnectStageView::Pausing { failed } => action == Action::<S, A>::Sleep(1000),
                    ConnectStageView::Retracting { error } => action is SendLink,
                    ConnectStageView::Discovering { peripheral, lock } => action == (Action::<
                        S,
                        A,
                    >::DiscoverServices { peripheral, guard: Some(lock) }),
                    ConnectStageView::Listing { lock } => action is ListServices,
                    ConnectStageView::StartingToListen => action is StartListening,
                    ConnectStageView::RunningCallback => action is RunCallback,
                    ConnectStageView::Announcing { result } => action is Announce,
                }
            }
        }),
{
}

/// The steps of an attempt are those of the operation, and as many attempts count as failed as
/// before.
pub proof fn the_steps_of_an_attempt_are_those_of_connecting<S, A, C, T>(
    h: HandlerView<S, A, C, T>,
    op: ConnectView<S, A>,
    failed: u32,
    attempt: ConnectDeviceView,
    reply: Reply,
)
    requires
        op.stage == (ConnectStageView::Attempting { failed, attempt }),
    ensures
        connect_device_step(h, attempt, reply).1 matches Step::Do(next, action) ==> connect_step(h, op, reply)
            == (
            connect_device_step(h, attempt, reply).0,
            ConnectStep::<S, A>::Do(
                ConnectView { stage: ConnectStageView::Attempting { failed, attempt: next }, ..op },
                action,
            ),
        ),
{
}

/// An attempt that succeeded is followed by the discovery of the services, of the peripheral of
/// the connection for the address and under its lock. If there is none any more, that is an
/// error.
pub proof fn after_success_the_services_are_discovered<S, A, C, T>(
    h: HandlerView<S, A, C, T>,
    op: ConnectView<S, A>,
    reply: Reply,
)
    requires
        op.awaits(h, reply),
        op.stage is Attempting,
        connect_device_step(h, op.stage->attempt, reply).1 == DeviceStep::<S, A>::Done(Ok(())),
    ensures
        ({
            let (h2, step) = connect_step(h, op, reply);
            let c = h.connections[op.address];
            &&& h.tracks(op.address) ==> h2 == h && asks(
                step,
                Action::<S, A>::DiscoverServices { peripheral: c.peripheral, guard: Some(c.lock) },
            )
            &&& !h.tracks(op.address) ==> h2.connections == h.connections && comes_to(
                step,
                Err(ErrorView::NoDeviceConnected),
            )
        }),
{
}

/// The step ends the operation with the result, at once or after the change of the flag was
/// announced.
pub open spec fn comes_to<S, A>(step: ConnectStep<S, A>, result: Result<(), ErrorView>) -> bool {
    match step {
        Step::Done(r) => r == result,
        Step::Do(op, action) => action is Announce && op.stage == (ConnectStageView::Announcing { result }),
    }
}

/// When the services were discovered, they are listed, of the same peripheral. If they could not
/// be, the result is the adapter's error, or a timeout under the name of the operation; the device
/// keeps its connection.
pub proof fn discovered_services_are_listed<S, A, C, T>(
    h: HandlerView<S, A, C, T>,
    op: ConnectView<S, A>,
    peripheral: PeripheralId,
    lock: LockId,
    e: btleplug::Error,
)
    requires
        op.stage == (ConnectStageView::Discovering { peripheral, lock }),
    ensures
        ({
            let (h2, step) = connect_step(h, op, Reply::Timed(Some(Ok(()))));
            h2 == h && step == ConnectStep::<S, A>::Do(
                ConnectView { stage: ConnectStageView::Listing { lock }, ..op },
                Action::ListServices(peripheral),
            )
        }),
        ({
            let (h2, step) = connect_step(h, op, Reply::Timed(Some(Err(e))));
            h2.connections == h.connections && comes_to(step, Err(ErrorView::Btleplug(e)))
        }),
        ({
            let (h2, step) = connect_step(h, op, Reply::Timed(None));
            h2.connections == h.connections && comes_to(
                step,
                Err(ErrorView::Timeout("discover services"@)),
            )
        }),
{
}

/// In every run of connecting, the services that are listed are those of the peripheral of the
/// connection for the address: the step before asked to discover them, of the peripheral and
/// under the lock of the connection that the address had then.
pub proof fn listed_services_are_those_of_the_connection<S, A, C, T>(
    steps: Seq<ConnectStep<S, A>>,
    handlers: Seq<HandlerView<S, A, C, T>>,
    replies: Seq<Reply>,
    address: Seq<char>,
    on_disconnect: OnDisconnectHandler<S, A>,
    allow: bool,
    i: int,
)
    requires
        is_connect_run(steps, handlers, replies),
        steps[0] == connect_begin(handlers[0], address, on_disconnect, allow),
        0 <= i < steps.len(),
    ensures
        steps[i] matches Step::Do(op, action) ==> {
            &&& op.address == address
            &&& op.allow_ibeacons == allow
            &&& action matches Action::ListServices(p) ==> i > 0 && {
                let c = handlers[i - 1].connections[address];
                &&& handlers[i - 1].tracks(address)
                &&& c.peripheral == p
                &&& asks(
                    steps[i - 1],
                    Action::<S, A>::DiscoverServices { peripheral: p, guard: Some(c.lock) },
                )
            }
            &&& action matches Action::DiscoverServices { peripheral, .. } ==> handlers[i].tracks(address)
                && handlers[i].connections[address].peripheral == peripheral
            &&& action matches Action::StartListening { peripheral, .. } ==> handlers[i].tracks(address)
                && handlers[i].connections[address].peripheral == peripheral
        },
    decreases i,
{
    if i > 0 {
        assert(connect_follows(steps[i - 1], handlers[i], replies[i], steps[i]));
        listed_services_are_those_of_the_connection(
            steps,
            handlers,
            replies,
            address,
            on_disconnect,
            allow,
            i - 1,
        );
        if i > 1 {
            assert(connect_follows(steps[i - 2], handlers[i - 1], replies[i - 1], steps[i - 1]));
        }
    }
}

/// A characteristic belongs to a connected device exactly when one of the services that were
/// listed has it, and after the set-up connecting ends with success.
pub proof fn a_set_up_device_has_the_listed_characteristics<S, A, C, T>(
    h: HandlerView<S, A, C, T>,
    op: ConnectView<S, A>,
    lock: LockId,
    services: Vec<Service>,
    charac: Characteristic,
    later: HandlerView<S, A, C, T>,
)
    requires
        op.stage == (ConnectStageView::Listing { lock }),
        h.tracks(op.address),
        h.connections[op.address].lock == lock,
    ensures
        ({
            let (h2, step) = connect_step(h, op, Reply::Listed(services));
            let before = h.connections[op.address];
            let c = h2.connections[op.address];
            &&& c.characs.contains(charac) == exists|i: int|
                0 <= i < services@.len() && (#[trigger] services@[i]).characteristics@.contains(charac)
            &&& c.on_disconnect == op.on_disconnect
            &&& c.listen_task == Some(h.next_token)
            &&& c == (ConnectionView {
                characs: c.characs,
                on_disconnect: op.on_disconnect,
                listen_task: Some(h.next_token),
                ..before
            })
            &&& h2.links == h.links
            &&& differs_in_connections(h, h2)
            &&& h.next_token < u64::MAX ==> h2.next_token == h.next_token + 1
            &&& asks(
                step,
                Action::<S, A>::StartListening {
                    peripheral: before.peripheral,
                    lock,
                    task: h.next_token,
                    replaced: before.listen_task,
                },
            )
            &&& step->Do_0.on_disconnect is Unset
            &&& comes_to(connect_step(later, step->Do_0, Reply::Acknowledged).1, Ok(()))
        }),
{
    listed_characteristics(services@, charac);
}

/// If the device was lost before it was set up, nothing is set up. With a callback, it runs, and
/// then connecting ends with success; with none, connecting ends with success at once.
pub proof fn a_device_that_was_lost_is_not_set_up<S, A, C, T>(
    h: HandlerView<S, A, C, T>,
    op: ConnectView<S, A>,
    lock: LockId,
    services: Vec<Service>,
    later: HandlerView<S, A, C, T>,
)
    requires
        op.stage == (ConnectStageView::Listing { lock }),
        h.tracks(op.address) ==> h.connections[op.address].lock != lock,
    ensures
        ({
            let (h2, step) = connect_step(h, op, Reply::Listed(services));
            &&& h2.connections == h.connections
            &&& op.on_disconnect is Unset ==> comes_to(step, Ok(()))
            &&& !(op.on_disconnect is Unset) ==> {
                &&& asks(step, Action::<S, A>::RunCallback(op.on_disconnect))
                &&& step->Do_0.on_disconnect is Unset
                &&& comes_to(connect_step(later, step->Do_0, Reply::Acknowledged).1, Ok(()))
            }
        }),
{
}

/// When the last attempt has failed, there is no connection for the address. If the device counted
/// as connected, its link is told that it does not any more, and then the failure is the result;
/// else it is the result at once.
pub proof fn a_failure_takes_the_connection_back<S, A, C, T>(
    h: HandlerView<S, A, C, T>,
    op: ConnectView<S, A>,
    reply: Reply,
    e: ErrorView,
    later: HandlerView<S, A, C, T>,
)
    requires
        op.stage is Attempting,
        op.stage->Attempting_failed >= 2,
        op.awaits(h, reply),
        connect_device_step(h, op.stage->attempt, reply) == (h, DeviceStep::<S, A>::Done(Err(e))),
    ensures
        ({
            let (h2, step) = connect_step(h, op, reply);
            let c = h.connections[op.address];
            &&& h2.connections == h.connections.remove(op.address)
            &&& if h.tracks(op.address) && c.connected {
                &&& asks(step, Action::<S, A>::SendLink { link: c.link, value: false })
                &&& comes_to(connect_step(later, step->Do_0, Reply::Acknowledged).1, Err(e))
                &&& h2.links.dom() == h.links.dom()
                &&& forall|a: Seq<char>| #[trigger]
                    h.links.dom().contains(a) ==> h2.links[a] == (LinkState {
                        link: h.links[a].link,
                        told: h.links[a].told && h.links[a].link != c.link,
                    })
            } else {
                comes_to(step, Err(e)) && h2.links == h.links
            }
        }),
{
    if h.tracks(op.address) && h.connections[op.address].connected {
        let h2 = connect_step(h, op, reply).0;
        assert(h2.links.dom() =~= h.links.dom());
    }
}

/// The announcement of the flag is the last thing that connecting does: it then ends with the
/// result that it had.
pub proof fn the_announcement_is_the_end_of_connecting<S, A, C, T>(
    h: HandlerView<S, A, C, T>,
    op: ConnectView<S, A>,
    result: Result<(), ErrorView>,
)
    requires
        op.stage == (ConnectStageView::Announcing { result }),
    ensures
        connect_step(h, op, Reply::Acknowledged) == (h, ConnectStep::<S, A>::Done(result)),
{
}

/// Connecting goes on with every answer to what it asks for.
pub proof fn connecting_takes_every_answer<S, A, C, T>(
    h: HandlerView<S, A, C, T>,
    op: ConnectView<S, A>,
    settled: Result<(), BleError>,
    done: Option<Result<(), btleplug::Error>>,
    services: Vec<Service>,
    reply: Reply,
)
    ensures
        op.stage is Scanning || op.stage is StoppingScan ==> op.awaits(h, Reply::Settled(settled)),
        op.stage matches ConnectStageView::Pausing { failed } ==> (failed < 2 ==> op.awaits(
            h,
            Reply::Acknowledged,
        )),
        op.stage is Retracting || op.stage is StartingToListen || op.stage is RunningCallback || op.stage
            is Announcing ==> op.awaits(h, Reply::Acknowledged),
        op.stage is Discovering ==> op.awaits(h, Reply::Timed(done)),
        op.stage is Listing ==> op.awaits(h, Reply::Listed(services)),
        op.stage matches ConnectStageView::Attempting { attempt, .. } ==> (attempt.address == op.address
            && attempt.awaits(h, reply) ==> op.awaits(h, reply)),
{
}

} // verus!

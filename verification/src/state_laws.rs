//! What the handler knows, and which device a call without an address is for.
use vstd::prelude::*;

use crate::adapter::{init_adapter_step, InitAdapter};
use crate::connect::{connect_step, ConnectView};
use crate::disconnect::{disconnect_step, DisconnectDevice, DisconnectStep};
use crate::error::{outcome, BleError, ErrorView};
use crate::event::{
    handle_event_begin, handle_event_step, CentralEvent, EventStep, HandleEvent,
};
use crate::gatt::{subscribe_step, unsubscribe_step, Subscribe, UnsubscribeView};
use crate::handler::HandlerView;
use crate::models::{LinkId, LockId, LockName};
use crate::resolve::text_outcome;
use crate::scan::{discover_step, stop_scan_step, Discover, StopScan};
use crate::services::{services_step, DiscoverServicesView};
use crate::step::Reply;

verus! {

/// The flag, when it is brought up to date, says whether there is a connection whose device is
/// connected; a connection that is still being made does not count. Nothing else changes. There
/// is news exactly if the flag was wrong, and the news is what it says then.
pub proof fn the_flag_is_about_connected_devices<S, A, C, T>(h: HandlerView<S, A, C, T>)
    ensures
        ({
            let any = exists|a: Seq<char>| #[trigger] h.tracks(a) && h.connections[a].connected;
            &&& h.any_connected() == any
            &&& h.refreshed() == (HandlerView { connected: any, ..h })
            &&& h.refresh_news() == if h.connected == any {
                None
            } else {
                Some(any)
            }
        }),
{
    if h.any_connected() {
        let a = choose|a: Seq<char>| h.is_connected_at(a);
        assert(h.tracks(a) && h.connections[a].connected);
    }
    if exists|a: Seq<char>| #[trigger] h.tracks(a) && h.connections[a].connected {
        let a = choose|a: Seq<char>| #[trigger] h.tracks(a) && h.connections[a].connected;
        assert(h.is_connected_at(a));
    }
}

/// A device is connected exactly if it has a connection and this counts as connected, and the set
/// of the connected devices holds exactly those.
pub proof fn connected_devices_have_connections<S, A, C, T>(
    h: HandlerView<S, A, C, T>,
    address: Seq<char>,
)
    ensures
        h.is_connected_at(address) == (h.connections.dom().contains(address)
            && h.connections[address].connected),
        h.connected_set().contains(address) == (h.connections.dom().contains(address)
            && h.connections[address].connected),
{
}

/// What is asked of the device at an address is asked of its connection, and is an error if it has
/// none.
pub proof fn a_device_is_known_by_its_connection<S, A, C, T>(
    h: HandlerView<S, A, C, T>,
    address: Seq<char>,
)
    ensures
        match h.connection_at(address) {
            Ok(c) => h.connections.dom().contains(address) && c == h.connections[address],
            Err(e) => !h.connections.dom().contains(address) && e == ErrorView::NoDeviceConnected,
        },
        match h.peripheral_at(address) {
            Ok(p) => h.connections.dom().contains(address) && p == h.connections[address].peripheral,
            Err(e) => !h.connections.dom().contains(address) && e == ErrorView::NoDeviceConnected,
        },
{
}

/// A lock is in use exactly if a connection has it, and a link too.
pub proof fn locks_and_links_in_use_are_those_of_connections<S, A, C, T>(
    h: HandlerView<S, A, C, T>,
    lock: LockId,
    link: LinkId,
)
    ensures
        h.lock_in_use(lock) == exists|a: Seq<char>|
            #[trigger] h.tracks(a) && h.connections[a].lock == lock,
        h.link_in_use(link) == exists|a: Seq<char>|
            #[trigger] h.tracks(a) && h.connections[a].link == link,
        h.is_notifying(lock) == h.held.contains(LockName::Listeners(lock)),
{
    if h.lock_in_use(lock) {
        let a = choose|a: Seq<char>| h.holds_lock(a, lock);
        assert(h.tracks(a) && h.connections[a].lock == lock);
    }
    if exists|a: Seq<char>| #[trigger] h.tracks(a) && h.connections[a].lock == lock {
        let a = choose|a: Seq<char>| #[trigger] h.tracks(a) && h.connections[a].lock == lock;
        assert(h.holds_lock(a, lock));
    }
    if h.link_in_use(link) {
        let a = choose|a: Seq<char>| h.holds_link(a, link);
        assert(h.tracks(a) && h.connections[a].link == link);
    }
    if exists|a: Seq<char>| #[trigger] h.tracks(a) && h.connections[a].link == link {
        let a = choose|a: Seq<char>| #[trigger] h.tracks(a) && h.connections[a].link == link;
        assert(h.holds_link(a, link));
    }
}

/// Two connections never share a lock or a link, and the link of an address is that of its
/// connection and was told whether its device is connected.
pub proof fn connections_share_nothing<S, A, C, T>(
    h: HandlerView<S, A, C, T>,
    a: Seq<char>,
    b: Seq<char>,
)
    requires
        h.inv(),
        h.tracks(a),
        h.tracks(b),
    ensures
        h.connections[a].lock == h.connections[b].lock ==> a == b,
        h.connections[a].link == h.connections[b].link ==> a == b,
        h.links.dom().contains(a),
        h.links[a].link == h.connections[a].link,
        h.links[a].told == h.connections[a].connected,
{
}

/// The write behaviour that is read is the one that was set last, and setting it changes nothing
/// else.
pub proof fn the_write_behaviour_is_what_was_set<S, A, C, T>(
    h: HandlerView<S, A, C, T>,
    timeout_in_ms: Option<u32>,
    skip: bool,
)
    ensures
        ({
            let h2 = h.with_write_behaviour(timeout_in_ms, skip);
            &&& timeout_in_ms matches Some(ms) ==> h2.write_behaviour() == (ms, skip)
            &&& timeout_in_ms is None ==> h2.write_behaviour() == (0u32, skip)
            &&& h2 == (HandlerView {
                write_timeout_in_ms: h2.write_timeout_in_ms,
                skip_waiting_for_write_to_complete: h2.skip_waiting_for_write_to_complete,
                ..h
            })
        }),
{
}

/// A scan is running exactly if one was started, was not stopped, and its task has not ended.
pub proof fn a_scan_runs_until_it_ends_or_is_stopped<S, A, C, T>(h: HandlerView<S, A, C, T>)
    ensures
        !h.scanning(true),
        h.scanning(false) == (h.scan_task is Some),
{
}

/// Whoever asks for the state of a connected device gets the link of its address.
pub proof fn a_receiver_has_the_link_of_the_address<S, A, C, T>(
    h: HandlerView<S, A, C, T>,
    address: Seq<char>,
)
    requires
        h.inv(),
    ensures
        match h.link_at(address) {
            Ok(link) => h.tracks(address) && link == h.links[address].link,
            Err(e) => !h.tracks(address) && e == ErrorView::NoDeviceConnected,
        },
{
}

/// Work can go on as long as two more numbers can be given out.
pub proof fn numbers_run_out_late<S, A, C, T>(h: HandlerView<S, A, C, T>)
    ensures
        h.has_tokens() == (h.next_token + 2 <= u64::MAX),
{
}

/// An error is known for what it is: different errors stay different, and each carries what it was
/// made with.
pub proof fn errors_are_told_apart(e: BleError, text: String, adapter: btleplug::Error, list: Vec<String>)
    ensures
        BleError::Btleplug(adapter)@ == ErrorView::Btleplug(adapter),
        BleError::Timeout(text)@ == ErrorView::Timeout(text@),
        BleError::UnknownPeripheral(text)@ == ErrorView::UnknownPeripheral(text@),
        BleError::CharacNotAvailable(text)@ == ErrorView::CharacNotAvailable(text@),
        BleError::AmbiguousDevice(list)@ matches ErrorView::AmbiguousDevice(l) && l.len() == list@.len()
            && forall|i: int| 0 <= i < l.len() ==> #[trigger] l[i] == list@[i]@,
        e is NoAdapters == e@ is NoAdapters,
        e is NoDeviceConnected == e@ is NoDeviceConnected,
        e is AlreadyConnected == e@ is AlreadyConnected,
        e is ConnectionFailed == e@ is ConnectionFailed,
        e is DisconnectFailed == e@ is DisconnectFailed,
        e is InvalidFilterMask == e@ is InvalidFilterMask,
{
}

/// The model of a result has the value of the result, or its error.
pub proof fn results_keep_value_and_error<R>(v: R, e: BleError)
    ensures
        outcome(Ok::<R, BleError>(v)) == Ok::<R, ErrorView>(v),
        outcome(Err::<R, BleError>(e)) == Err::<R, ErrorView>(e@),
{
}

/// The same of a result that holds a text.
pub proof fn results_keep_text_and_error(text: String, e: BleError)
    ensures
        text_outcome(Ok(text)) == Ok::<Seq<char>, ErrorView>(text@),
        text_outcome(Err(e)) == Err::<Seq<char>, ErrorView>(e@),
{
}

/// The two differ at most in the connections, the links, the flag, and which locks, links and tasks
/// were given out, and none of these was taken back.
pub open spec fn differs_in_devices<S, A, C, T>(
    h: HandlerView<S, A, C, T>,
    h2: HandlerView<S, A, C, T>,
) -> bool {
    &&& h2 == HandlerView {
        connections: h2.connections,
        links: h2.links,
        connected: h2.connected,
        next_token: h2.next_token,
        ..h
    }
    &&& h2.next_token >= h.next_token
}

/// Connecting, discovering services, disconnecting and handling an event leave everything as it is
/// but the connections, the links and the flag: what was discovered, the scan, the adapter, the
/// channels, the locks that are held and how values are written.
pub proof fn operations_on_devices_leave_the_rest<S, A, C, T>(
    h: HandlerView<S, A, C, T>,
    connect: ConnectView<S, A>,
    services: DiscoverServicesView,
    event: HandleEvent<S, A>,
    reported: CentralEvent,
    reported_step: EventStep<S, A>,
    disconnect: DisconnectDevice<S, A>,
    disconnect_step_taken: DisconnectStep<S, A>,
    reply: Reply,
    h2: HandlerView<S, A, C, T>,
)
    requires
        h.has_tokens(),
    ensures
        connect.awaits(h, reply) ==> differs_in_devices(h, connect_step(h, connect, reply).0),
        services.awaits(h, reply) ==> differs_in_devices(h, services_step(h, services, reply).0),
        differs_in_devices(h, handle_event_step(h, event).0),
        handle_event_begin(h, reported, h2, reported_step) ==> differs_in_devices(h, h2),
        disconnect_step(h, disconnect, reply, h2, disconnect_step_taken) ==> differs_in_devices(h, h2),
{
}

/// Scanning, initializing the adapter and subscribing leave the devices and the flag as they are,
/// but for what was discovered and for the listeners of the connections. So they leave the
/// channels and how values are written.
pub proof fn other_operations_leave_the_devices<S, A, C, T>(
    h: HandlerView<S, A, C, T>,
    discover: Discover,
    stop: StopScan,
    init: InitAdapter,
    subscription: Subscribe<C>,
    unsubscription: UnsubscribeView,
    reply: Reply,
)
    requires
        h.has_tokens(),
    ensures
        discover.awaits(h, reply) ==> {
            let h2 = discover_step(h, discover, reply).0;
            &&& h2 == (HandlerView {
                scan_task: h2.scan_task,
                held: h2.held,
                next_token: h2.next_token,
                ..h
            })
            &&& h2.next_token >= h.next_token
        },
        stop.awaits(h, reply) ==> {
            let h2 = stop_scan_step(h, stop, reply).0;
            h2 == (HandlerView { scan_task: h2.scan_task, held: h2.held, ..h })
        },
        init.awaits(h, reply) ==> {
            let h2 = init_adapter_step(h, init, reply).0;
            h2 == (HandlerView { adapter: h2.adapter, held: h2.held, ..h })
        },
        subscription.awaits(h, reply) ==> {
            let h2 = subscribe_step(h, subscription, reply).0;
            h2 == (HandlerView { connections: h2.connections, held: h2.held, ..h })
        },
        unsubscription.awaits(h, reply) ==> {
            let h2 = unsubscribe_step(h, unsubscription, reply).0;
            h2 == (HandlerView { connections: h2.connections, held: h2.held, ..h })
        },
{
}

} // verus!

//! What disconnecting a device and handling the adapter's events ask for, and what comes of them.
use vstd::prelude::*;

use crate::connect_laws::asks;
use crate::connection::ConnectionView;
use crate::disconnect::{
    disconnect_begin, disconnect_step, DisconnectDevice, DisconnectStage, DisconnectStep,
};
use crate::error::ErrorView;
use crate::event::{
    handle_disconnect_begin, handle_event_begin, handle_event_step, is_address_of, CentralEvent,
    wind_up, EventStep, HandleEvent,
};
use crate::handler::HandlerView;
use crate::models::{LinkId, LinkState, LockName};
use crate::state_laws::the_flag_is_about_connected_devices;
use crate::step::{Action, Reply, Step};

verus! {

/// A device can be disconnected exactly when it has a connection. Disconnecting it first asks the
/// peripheral of this connection whether it is connected, and is for the lock and the link of this
/// connection.
pub proof fn disconnecting_asks_the_device<S, A, C, T>(h: HandlerView<S, A, C, T>, address: Seq<char>)
    ensures
        match disconnect_begin(h, address) {
            Step::Done(r) => !h.tracks(address) && r == Err::<(), ErrorView>(
                ErrorView::NoDeviceConnected,
            ),
            Step::Do(op, action) => {
                let c = h.connections[address];
                &&& h.tracks(address)
                &&& action == Action::<S, A>::QueryConnected(c.peripheral)
                &&& op.peripheral == c.peripheral
                &&& op.lock == c.lock
                &&& op.link == c.link
                &&& op.stage is Querying
            },
        },
{
}

/// The stage in which the operation waits for what it asks for.
pub open spec fn fits_stage<S, A>(op: DisconnectDevice<S, A>, action: Action<S, A>) -> bool {
    match action {
        Action::QueryConnected(_) => op.stage is Querying,
        Action::ReadLink(_) => op.stage is Reading,
        Action::Disconnect(_) => op.stage is Disconnecting,
        Action::AwaitLink(_) => op.stage is Waiting,
        Action::PeekLink(_) => op.stage is Checking,
        _ => op.stage is WindingUp,
    }
}

/// Disconnecting stays with its device: with its peripheral, its lock and its link. It asks or
/// disconnects no other peripheral, and looks at no other link.
pub proof fn disconnecting_stays_with_its_device<S, A, C, T>(
    h: HandlerView<S, A, C, T>,
    op: DisconnectDevice<S, A>,
    reply: Reply,
    h2: HandlerView<S, A, C, T>,
    step: DisconnectStep<S, A>,
)
    requires
        disconnect_step(h, op, reply, h2, step),
    ensures
        step matches Step::Do(op2, action) ==> {
            &&& op2.peripheral == op.peripheral
            &&& op2.lock == op.lock
            &&& op2.link == op.link
            &&& fits_stage(op2, action)
            &&& match action {
                Action::QueryConnected(_) => false,
                Action::Connect { .. } => false,
                Action::Disconnect(p) => p == op.peripheral,
                Action::ReadLink(l) => l == op.link,
                Action::AwaitLink(l) => l == op.link,
                Action::PeekLink(l) => l == op.link,
                _ => true,
            }
        },
{
}

/// A peripheral that is connected is disconnected: after its link was read, the adapter is asked
/// to disconnect this peripheral, the next word over the link is awaited, and the last word is
/// looked at. None of these steps changes the handler.
pub proof fn a_connected_peripheral_is_disconnected<S, A, C, T>(
    h: HandlerView<S, A, C, T>,
    op: DisconnectDevice<S, A>,
    h2: HandlerView<S, A, C, T>,
    step: DisconnectStep<S, A>,
)
    ensures
        op.stage is Querying && disconnect_step(h, op, Reply::Queried(Ok(true)), h2, step) ==> h2 == h
            && asks(step, Action::<S, A>::ReadLink(op.link)),
        op.stage is Reading && disconnect_step(h, op, Reply::Flag(true), h2, step) ==> h2 == h && asks(
            step,
            Action::<S, A>::Disconnect(op.peripheral),
        ),
        op.stage is Disconnecting && disconnect_step(h, op, Reply::Finished(Ok(())), h2, step) ==> h2 == h
            && asks(step, Action::<S, A>::AwaitLink(op.link)),
        op.stage is Waiting && disconnect_step(h, op, Reply::Acknowledged, h2, step) ==> h2 == h && asks(
            step,
            Action::<S, A>::PeekLink(op.link),
        ),
{
}

/// Disconnecting fails exactly if the last word is that the device is connected while the
/// connection that it is for is still there, or with the adapter's error if the adapter could not
/// disconnect the peripheral.
pub proof fn the_event_decides_a_disconnection<S, A, C, T>(
    h: HandlerView<S, A, C, T>,
    op: DisconnectDevice<S, A>,
    connected: bool,
    e: btleplug::Error,
    h2: HandlerView<S, A, C, T>,
    step: DisconnectStep<S, A>,
)
    ensures
        op.stage is Checking && disconnect_step(h, op, Reply::Flag(connected), h2, step) ==> h2 == h
            && step == DisconnectStep::<S, A>::Done(
            if connected && exists|a: Seq<char>|
                #[trigger] h.tracks(a) && h.connections[a].lock == op.lock {
                Err(ErrorView::DisconnectFailed)
            } else {
                Ok(())
            },
        ),
        op.stage is Disconnecting && disconnect_step(h, op, Reply::Finished(Err(e)), h2, step) ==> h2 == h
            && step == DisconnectStep::<S, A>::Done(Err(ErrorView::Btleplug(e))),
{
    if h.lock_in_use(op.lock) {
        let a = choose|a: Seq<char>| h.holds_lock(a, op.lock);
        assert(h.tracks(a) && h.connections[a].lock == op.lock);
    }
    if exists|a: Seq<char>| #[trigger] h.tracks(a) && h.connections[a].lock == op.lock {
        let a = choose|a: Seq<char>| #[trigger] h.tracks(a) && h.connections[a].lock == op.lock;
        assert(h.holds_lock(a, op.lock));
    }
}

/// If the peripheral is not connected, or cannot say so, its connection is given up: it is wound
/// up as after the adapter's event, and in the end the error is that no such device is connected.
/// Nothing is disconnected.
pub proof fn a_connection_without_a_peripheral_is_given_up<S, A, C, T>(
    h: HandlerView<S, A, C, T>,
    op: DisconnectDevice<S, A>,
    queried: Result<bool, btleplug::Error>,
    h2: HandlerView<S, A, C, T>,
    step: DisconnectStep<S, A>,
    address: Seq<char>,
)
    requires
        op.stage is Querying,
        queried != Ok::<bool, btleplug::Error>(true),
        disconnect_step(h, op, Reply::Queried(queried), h2, step),
        forall|a: Seq<char>|
            #[trigger] h.tracks(a) && h.connections[a].peripheral == op.peripheral ==> a == address,
    ensures
        ({
            let c = h.connections[address];
            if h.tracks(address) && c.peripheral == op.peripheral {
                &&& h2 == (HandlerView { connections: h.connections.remove(address), ..h })
                &&& asks(step, Action::<S, A>::Quiet(c.lock))
                &&& step->Do_0.stage == DisconnectStage::<S, A>::WindingUp(
                    HandleEvent::Quieting {
                        on_disconnect: c.on_disconnect,
                        link: c.link,
                        lock: c.lock,
                        task: c.listen_task,
                    },
                )
            } else {
                h2 == h && step == DisconnectStep::<S, A>::Done(Err(ErrorView::NoDeviceConnected))
            }
        }),
{
    let s = choose|s: EventStep<S, A>| #[trigger]
        handle_disconnect_begin(h, op.peripheral, h2, s) && step == op.after_winding_up(s);
    if h.tracks(address) && h.connections[address].peripheral == op.peripheral {
        assert(is_address_of(h, address, op.peripheral));
        let a = choose|a: Seq<char>| #[trigger]
            is_address_of(h, a, op.peripheral) && h2 == h.without(a) && s == wind_up(
                h.connections[a],
            );
        assert(h.tracks(a));
    } else {
        assert forall|a: Seq<char>| !is_address_of(h, a, op.peripheral) by {
            if h.tracks(a) && h.connections[a].peripheral == op.peripheral {
                assert(h.tracks(a));
            }
        }
    }
}

/// Winding up inside of disconnecting is what it is after the adapter's event, but for the result:
/// that is the error that no such device is connected.
pub proof fn winding_up_ends_with_the_error<S, A, C, T>(
    h: HandlerView<S, A, C, T>,
    op: DisconnectDevice<S, A>,
    rest: HandleEvent<S, A>,
    h2: HandlerView<S, A, C, T>,
    step: DisconnectStep<S, A>,
)
    requires
        op.stage == DisconnectStage::<S, A>::WindingUp(rest),
        disconnect_step(h, op, Reply::Acknowledged, h2, step),
    ensures
        h2 == handle_event_step(h, rest).0,
        match handle_event_step(h, rest).1 {
            Step::Do(next, action) => step matches Step::Do(op2, asked) && asked == action && op2.stage
                == DisconnectStage::<S, A>::WindingUp(next),
            Step::Done(_) => step == DisconnectStep::<S, A>::Done(Err(ErrorView::NoDeviceConnected)),
        },
{
}

/// Disconnecting and handling an event go on with every answer to what they ask for. Where the
/// peripheral is connected, its link must say so; a connection is wound up once no notification of
/// it is being handed out.
pub proof fn disconnecting_takes_every_answer<S, A, C, T>(
    h: HandlerView<S, A, C, T>,
    op: DisconnectDevice<S, A>,
    event: HandleEvent<S, A>,
    queried: Result<bool, btleplug::Error>,
    done: Result<(), btleplug::Error>,
    flag: bool,
)
    ensures
        op.stage is Querying ==> op.awaits(h, Reply::Queried(queried)),
        op.stage is Reading ==> op.awaits(h, Reply::Flag(flag)) == flag,
        op.stage is Disconnecting ==> op.awaits(h, Reply::Finished(done)),
        op.stage is Waiting ==> op.awaits(h, Reply::Acknowledged),
        op.stage is Checking ==> op.awaits(h, Reply::Flag(flag)),
        op.stage == DisconnectStage::<S, A>::WindingUp(event) ==> op.awaits(h, Reply::Acknowledged)
            == event.awaits(h, Reply::Acknowledged),
        match event {
            HandleEvent::Quieting { lock, .. } => event.awaits(h, Reply::Acknowledged) == !h.held.contains(
                LockName::Listeners(lock),
            ),
            _ => event.awaits(h, Reply::Acknowledged),
        },
{
}

/// When the adapter reports that a device has connected, its connection counts as connected, its
/// link is noted as told so, and is told. Nothing else changes. When it reports that a device has
/// disconnected, its connection is gone and nothing else changes. Any other event changes nothing.
pub proof fn an_event_changes_its_connection_alone<S, A, C, T>(
    h: HandlerView<S, A, C, T>,
    event: CentralEvent,
    h2: HandlerView<S, A, C, T>,
    step: EventStep<S, A>,
    address: Seq<char>,
)
    requires
        handle_event_begin(h, event, h2, step),
        h.tracks(address),
        forall|a: Seq<char>|
            #[trigger] h.tracks(a) && h.connections[a].peripheral == h.connections[address].peripheral ==> a
                == address,
    ensures
        ({
            let c = h.connections[address];
            &&& event == CentralEvent::DeviceConnected(c.peripheral) ==> {
                &&& h2 == (HandlerView {
                    connections: h.connections.insert(address, ConnectionView { connected: true, ..c }),
                    links: h.links.insert(address, LinkState { link: c.link, told: true }),
                    ..h
                })
                &&& asks(step, Action::<S, A>::SendLink { link: c.link, value: true })
            }
            &&& event == CentralEvent::DeviceDisconnected(c.peripheral) ==> {
                &&& h2 == (HandlerView { connections: h.connections.remove(address), ..h })
                &&& asks(step, Action::<S, A>::Quiet(c.lock))
            }
            &&& event is Other ==> h2 == h && step == EventStep::<S, A>::Done(Ok(()))
        }),
{
    let p = h.connections[address].peripheral;
    assert(is_address_of(h, address, p));
    assert forall|a: Seq<char>| #[trigger] is_address_of(h, a, p) implies a == address by {
        assert(h.tracks(a));
    }
}

/// A connection that was given up is wound up in order: its task, if it has one, is aborted, and
/// then its callback runs. Neither changes the handler.
pub proof fn a_connection_is_wound_up_in_order<S, A, C, T>(
    h: HandlerView<S, A, C, T>,
    op: HandleEvent<S, A>,
)
    ensures
        op matches HandleEvent::Quieting { on_disconnect, link, lock, task } ==> {
            let (h2, step) = handle_event_step(h, op);
            &&& h2 == h
            &&& match task {
                Some(t) => step == EventStep::<S, A>::Do(
                    HandleEvent::Aborting { on_disconnect, link },
                    Action::AbortTask(t),
                ),
                None => step == EventStep::<S, A>::Do(
                    HandleEvent::RunningCallback { link },
                    Action::RunCallback(on_disconnect),
                ),
            }
        },
        op matches HandleEvent::Aborting { on_disconnect, link } ==> handle_event_step(h, op) == (
            h,
            EventStep::<S, A>::Do(
                HandleEvent::RunningCallback { link },
                Action::RunCallback(on_disconnect),
            ),
        ),
{
}

/// After the callback of a lost connection has run, its link is told that the device is not
/// connected, and every link that is this one is noted so; unless a connection has the link by
/// then. Then, and after every word over a link, the flag is brought up to date; the operation
/// ends with success, after the announcement if the flag has changed.
pub proof fn the_end_of_an_event<S, A, C, T>(h: HandlerView<S, A, C, T>, link: LinkId)
    ensures
        ({
            let in_use = exists|a: Seq<char>| #[trigger] h.tracks(a) && h.connections[a].link == link;
            let any = exists|a: Seq<char>| #[trigger] h.tracks(a) && h.connections[a].connected;
            let callback_ran = handle_event_step(h, HandleEvent::<S, A>::RunningCallback { link });
            let told = handle_event_step(h, HandleEvent::<S, A>::Signalling);
            &&& told.0 == (HandlerView { connected: any, ..h })
            &&& told.1 == if h.connected == any {
                EventStep::<S, A>::Done(Ok(()))
            } else {
                EventStep::<S, A>::Do(HandleEvent::Announcing, Action::Announce(any))
            }
            &&& handle_event_step(h, HandleEvent::<S, A>::Announcing) == (
                h,
                EventStep::<S, A>::Done(Ok(())),
            )
            &&& in_use ==> callback_ran == told
            &&& !in_use ==> {
                &&& callback_ran.1 == EventStep::<S, A>::Do(
                    HandleEvent::Signalling,
                    Action::SendLink { link, value: false },
                )
                &&& callback_ran.0 == (HandlerView { links: callback_ran.0.links, ..h })
                &&& callback_ran.0.links.dom() =~= h.links.dom()
                &&& forall|a: Seq<char>| #[trigger]
                    h.links.dom().contains(a) ==> callback_ran.0.links[a] == (LinkState {
                        link: h.links[a].link,
                        told: h.links[a].told && h.links[a].link != link,
                    })
            }
        }),
{
    if h.link_in_use(link) {
        let a = choose|a: Seq<char>| h.holds_link(a, link);
        assert(h.tracks(a) && h.connections[a].link == link);
    }
    if exists|a: Seq<char>| #[trigger] h.tracks(a) && h.connections[a].link == link {
        let a = choose|a: Seq<char>| #[trigger] h.tracks(a) && h.connections[a].link == link;
        assert(h.holds_link(a, link));
    }
    the_flag_is_about_connected_devices(h);
}

} // verus!

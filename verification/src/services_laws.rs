//! What discovering the services of a device asks for, and what comes of it.
use vstd::prelude::*;

use crate::connect_device::{connect_device_begin, connect_device_step, DeviceStep};
use crate::connect_laws::{asks, peripheral_named};
use crate::error::ErrorView;
use crate::handler::HandlerView;
use crate::models::{LinkState, Service};
use crate::services::{
    services_begin, services_step, DiscoverServicesView, ServicesStageView, ServicesStep,
};
use crate::step::{Action, Reply, Step};

verus! {

/// The step ends the operation with the result, at once or after the change of the flag was
/// announced.
pub open spec fn comes_to<S, A>(step: ServicesStep<S, A>, result: Result<Vec<Service>, ErrorView>) -> bool {
    match step {
        Step::Done(r) => r == result,
        Step::Do(op, action) => action is Announce && op.stage == (ServicesStageView::Announcing { result }),
    }
}

/// The services of a device that has a connection are asked for at its peripheral. Those of a
/// device that was only discovered are too, once this peripheral has said whether it is connected.
/// A device that was not discovered is refused.
pub proof fn services_are_asked_of_the_device<S, A, C, T>(h: HandlerView<S, A, C, T>, address: Seq<char>)
    ensures
        ({
            let step = services_begin(h, address);
            &&& step matches Step::Do(op, action) ==> {
                &&& op.address == address
                &&& op.already_connected == h.tracks(address)
                &&& h.tracks(address) ==> op.stage is Checking && op.peripheral
                    == h.connections[address].peripheral && action == Action::<S, A>::LacksServices(
                    h.connections[address].peripheral,
                )
                &&& !h.tracks(address) ==> op.stage is Querying && h.devices.dom().contains(address)
                    && op.peripheral == h.devices[address] && action == Action::<S, A>::QueryConnected(
                    h.devices[address],
                )
            }
            &&& step matches Step::Done(r) ==> {
                &&& !h.tracks(address)
                &&& !h.devices.dom().contains(address)
                &&& r == Err::<Vec<Service>, ErrorView>(ErrorView::UnknownPeripheral(address))
            }
        }),
{
}

/// Discovering services stays with its device. Each action that is for a peripheral is for that of
/// the operation, but for those of an attempt to connect the device, which are for the attempt's.
/// Services are discovered under the lock of the connection for the address, if there is one. The
/// stages go with what they wait for.
pub proof fn discovering_services_names_its_own_peripheral<S, A, C, T>(
    h: HandlerView<S, A, C, T>,
    op: DiscoverServicesView,
    reply: Reply,
)
    requires
        op.awaits(h, reply),
    ensures
        services_step(h, op, reply).1 matches Step::Do(op2, action) ==> {
            &&& op2.address == op.address
            &&& op2.peripheral == op.peripheral
            &&& op2.already_connected == (op.already_connected || (op.stage is Querying && op2.stage is Checking))
            &&& peripheral_named(action) matches Some(p) ==> p == (match op2.stage {
                ServicesStageView::Attempting(attempt) => attempt.peripheral,
                _ => op.peripheral,
            })
            &&& match op2.stage {
                ServicesStageView::Querying => false,
                ServicesStageView::Attempting(attempt) => match op.stage {
                    ServicesStageView::Attempting(before) => attempt.peripheral == before.peripheral,
                    ServicesStageView::Querying => attempt.peripheral == h.devices[op.address],
                    _ => false,
                },
                ServicesStageView::Retracting { error } => action is SendLink,
                ServicesStageView::Checking => action is LacksServices,
                ServicesStageView::Discovering => action matches Action::DiscoverServices { guard, .. } && guard
                    == (if h.tracks(op.address) {
                    Some(h.connections[op.address].lock)
                } else {
                    None
                }),
                ServicesStageView::Listing => action is ListServices,
                ServicesStageView::Reading { services, link } => action == Action::<S, A>::ReadLink(link),
                ServicesStageView::Disconnecting { services, link } => action is Disconnect,
                ServicesStageView::Waiting { services } => action is AwaitLink,
                ServicesStageView::Announcing { result } => action is Announce,
            }
        },
{
}

/// A peripheral that says that it is connected is used as it is. If it cannot say so, its error is
/// the result. Neither changes the handler.
pub proof fn a_connected_peripheral_is_used_as_it_is<S, A, C, T>(
    h: HandlerView<S, A, C, T>,
    op: DiscoverServicesView,
    e: btleplug::Error,
)
    requires
        op.stage is Querying,
    ensures
        services_step(h, op, Reply::Queried(Ok(true))) == (
            h,
            ServicesStep::<S, A>::Do(
                DiscoverServicesView {
                    already_connected: true,
                    stage: ServicesStageView::Checking,
                    ..op
                },
                Action::LacksServices(op.peripheral),
            ),
        ),
        services_step(h, op, Reply::Queried(Err(e))) == (
            h,
            ServicesStep::<S, A>::Done(Err(ErrorView::Btleplug(e))),
        ),
{
}

/// A peripheral that is not connected is connected first, by one attempt: its steps are those of
/// the operation. When it has succeeded, the peripheral is asked for its services.
pub proof fn a_disconnected_device_is_connected_for_its_services<S, A, C, T>(
    h: HandlerView<S, A, C, T>,
    op: DiscoverServicesView,
    reply: Reply,
)
    ensures
        op.stage is Querying && h.devices.dom().contains(op.address) ==> {
            let (h1, begun) = connect_device_begin(h, op.address);
            services_step(h, op, Reply::Queried(Ok(false))) == (
                h1,
                ServicesStep::<S, A>::Do(
                    DiscoverServicesView { stage: ServicesStageView::Attempting(begun->Do_0), ..op },
                    begun->Do_1,
                ),
            )
        },
        op.stage matches ServicesStageView::Attempting(attempt) ==> match connect_device_step(
            h,
            attempt,
            reply,
        ).1 {
            Step::Do(next, action) => services_step(h, op, reply) == (
                connect_device_step(h, attempt, reply).0,
                ServicesStep::<S, A>::Do(
                    DiscoverServicesView { stage: ServicesStageView::Attempting(next), ..op },
                    action,
                ),
            ),
            Step::Done(Ok(_)) => services_step(h, op, reply) == (
                connect_device_step(h, attempt, reply).0,
                ServicesStep::<S, A>::Do(
                    DiscoverServicesView { stage: ServicesStageView::Checking, ..op },
                    Action::LacksServices(op.peripheral),
                ),
            ),
            Step::Done(Err(_)) => true,
        },
{
}

/// If the device could not be connected, there is no connection for its address any more, and the
/// failure is the result. If it counted as connected, its link is told before that it does not any
/// more.
pub proof fn a_failed_attempt_ends_the_discovery<S, A, C, T>(
    h: HandlerView<S, A, C, T>,
    op: DiscoverServicesView,
    reply: Reply,
    e: ErrorView,
    later: HandlerView<S, A, C, T>,
)
    requires
        op.stage is Attempting,
        connect_device_step(h, op.stage->Attempting_0, reply) == (h, DeviceStep::<S, A>::Done(Err(e))),
    ensures
        ({
            let (h2, step) = services_step(h, op, reply);
            let c = h.connections[op.address];
            &&& h2.connections == h.connections.remove(op.address)
            &&& if h.tracks(op.address) && c.connected {
                &&& asks(step, Action::<S, A>::SendLink { link: c.link, value: false })
                &&& comes_to(services_step(later, step->Do_0, Reply::Acknowledged).1, Err(e))
                &&& h2.links.dom() =~= h.links.dom()
                &&& forall|a: Seq<char>| #[trigger]
                    h.links.dom().contains(a) ==> h2.links[a] == (LinkState {
                        link: h.links[a].link,
                        told: h.links[a].told && h.links[a].link != c.link,
                    })
            } else {
                comes_to(step, Err(e)) && h2.links == h.links
            }
        }),
{
}

/// A device that is not discovered any more when it is to be connected is refused.
pub proof fn a_forgotten_device_is_refused<S, A, C, T>(
    h: HandlerView<S, A, C, T>,
    op: DiscoverServicesView,
    later: HandlerView<S, A, C, T>,
)
    requires
        op.stage is Querying,
        !h.devices.dom().contains(op.address),
    ensures
        ({
            let (h2, step) = services_step(h, op, Reply::Queried(Ok(false)));
            let c = h.connections[op.address];
            let refused = Err::<Vec<Service>, ErrorView>(ErrorView::UnknownPeripheral(op.address));
            &&& h2.connections == h.connections.remove(op.address)
            &&& if h.tracks(op.address) && c.connected {
                &&& asks(step, Action::<S, A>::SendLink { link: c.link, value: false })
                &&& comes_to(services_step(later, step->Do_0, Reply::Acknowledged).1, refused)
            } else {
                comes_to(step, refused)
            }
        }),
{
}

/// Services that are known are listed, and else discovered before. Both is asked of the
/// peripheral of the operation.
pub proof fn unknown_services_are_discovered_first<S, A, C, T>(
    h: HandlerView<S, A, C, T>,
    op: DiscoverServicesView,
    e: btleplug::Error,
)
    ensures
        op.stage is Checking ==> {
            let (h2, step) = services_step(h, op, Reply::Flag(true));
            h2 == h && asks(
                step,
                Action::<S, A>::DiscoverServices {
                    peripheral: op.peripheral,
                    guard: if h.tracks(op.address) {
                        Some(h.connections[op.address].lock)
                    } else {
                        None
                    },
                },
            )
        },
        op.stage is Checking ==> {
            let (h2, step) = services_step(h, op, Reply::Flag(false));
            h2 == h && asks(step, Action::<S, A>::ListServices(op.peripheral))
        },
        op.stage is Discovering ==> {
            let (h2, step) = services_step(h, op, Reply::Timed(Some(Ok(()))));
            h2 == h && asks(step, Action::<S, A>::ListServices(op.peripheral))
        },
        op.stage is Discovering ==> {
            let (h2, step) = services_step(h, op, Reply::Timed(Some(Err(e))));
            h2.connections == h.connections && comes_to(step, Err(ErrorView::Btleplug(e)))
        },
        op.stage is Discovering ==> {
            let (h2, step) = services_step(h, op, Reply::Timed(None));
            h2.connections == h.connections && comes_to(
                step,
                Err(ErrorView::Timeout("discover services"@)),
            )
        },
{
}

/// The result is the list of services that the peripheral gave, whatever comes after it: of a
/// device that was connected before, or has no connection any more, at once; of one that was
/// connected for this, after the adapter has disconnected it and its link has had a new word, or
/// at once if its link says that it is not connected. Only if the adapter could not disconnect it
/// is that error the result.
pub proof fn the_listed_services_are_the_result<S, A, C, T>(
    h: HandlerView<S, A, C, T>,
    op: DiscoverServicesView,
    services: Vec<Service>,
    h2: HandlerView<S, A, C, T>,
    h3: HandlerView<S, A, C, T>,
    h4: HandlerView<S, A, C, T>,
    e: btleplug::Error,
)
    requires
        op.stage is Listing,
    ensures
        ({
            let listed = services_step(h, op, Reply::Listed(services));
            let link = h.connections[op.address].link;
            let no_more = services_step(h2, listed.1->Do_0, Reply::Flag(false));
            let still = services_step(h2, listed.1->Do_0, Reply::Flag(true));
            let stuck = services_step(h3, still.1->Do_0, Reply::Finished(Err(e)));
            let begun = services_step(h3, still.1->Do_0, Reply::Finished(Ok(())));
            &&& listed.0.connections == h.connections
            &&& op.already_connected || !h.tracks(op.address) ==> comes_to(listed.1, Ok(services))
            &&& !op.already_connected && h.tracks(op.address) ==> {
                &&& asks(listed.1, Action::<S, A>::ReadLink(link))
                &&& comes_to(no_more.1, Ok(services))
                &&& asks(still.1, Action::<S, A>::Disconnect(op.peripheral))
                &&& comes_to(stuck.1, Err(ErrorView::Btleplug(e)))
                &&& asks(begun.1, Action::<S, A>::AwaitLink(link))
                &&& comes_to(services_step(h4, begun.1->Do_0, Reply::Acknowledged).1, Ok(services))
            }
        }),
{
}

/// The announcement of the flag is the last thing that discovering services does: it then ends
/// with the result that it had.
pub proof fn the_announcement_is_the_end_of_the_discovery<S, A, C, T>(
    h: HandlerView<S, A, C, T>,
    op: DiscoverServicesView,
    result: Result<Vec<Service>, ErrorView>,
)
    requires
        op.stage == (ServicesStageView::Announcing { result }),
    ensures
        services_step(h, op, Reply::Acknowledged) == (h, ServicesStep::<S, A>::Done(result)),
{
}

/// Discovering services goes on with every answer to what it asks for.
pub proof fn discovering_services_takes_every_answer<S, A, C, T>(
    h: HandlerView<S, A, C, T>,
    op: DiscoverServicesView,
    queried: Result<bool, btleplug::Error>,
    timed: Option<Result<(), btleplug::Error>>,
    done: Result<(), btleplug::Error>,
    services: Vec<Service>,
    flag: bool,
    reply: Reply,
)
    ensures
        op.stage is Querying ==> op.awaits(h, Reply::Queried(queried)),
        op.stage is Checking || op.stage is Reading ==> op.awaits(h, Reply::Flag(flag)),
        op.stage is Discovering ==> op.awaits(h, Reply::Timed(timed)),
        op.stage is Listing ==> op.awaits(h, Reply::Listed(services)),
        op.stage is Disconnecting ==> op.awaits(h, Reply::Finished(done)),
        op.stage is Retracting || op.stage is Waiting || op.stage is Announcing ==> op.awaits(
            h,
            Reply::Acknowledged,
        ),
        op.stage matches ServicesStageView::Attempting(attempt) ==> (attempt.address == op.address
            && attempt.awaits(h, reply) ==> op.awaits(h, reply)),
{
}

} // verus!

//! Discovering the services of a device.
use vstd::pervasive::unreached;
use vstd::prelude::*;

use crate::connect_device::{
    connect_device_begin, connect_device_step, ConnectDevice, ConnectDeviceView, DeviceStep,
};
use crate::error::{outcome, run_with_timeout, timed_outcome, BleError, ErrorView};
use crate::handler::{Handler, HandlerView};
use crate::models::{LinkId, LockId, PeripheralId, Service};
use crate::step::{Action, Reply, Step};
use crate::text::same_text;

verus! {

/// What the operation waits for.
#[derive(Debug)]
pub enum ServicesStage {
    /// Whether the peripheral is connected.
    Querying,
    /// A step of connecting the device.
    Attempting(ConnectDevice),
    /// That the link was told that the device is not connected any more.
    Retracting { error: BleError },
    /// Whether no services are known yet.
    Checking,
    /// That the services were discovered.
    Discovering,
    /// The services.
    Listing,
    /// The last value of the link.
    Reading { services: Vec<Service>, link: LinkId },
    /// That the adapter has begun to disconnect the peripheral.
    Disconnecting { services: Vec<Service>, link: LinkId },
    /// A new value of the link.
    Waiting { services: Vec<Service> },
    /// That the change was announced.
    Announcing { result: Result<Vec<Service>, BleError> },
}

/// The operation that discovers the services of the device at `address`.
#[derive(Debug)]
pub struct DiscoverServices {
    pub address: String,
    pub peripheral: PeripheralId,
    /// Whether the device was connected before the operation.
    pub already_connected: bool,
    pub stage: ServicesStage,
}

/// The mathematical model of [`ServicesStage`].
#[verifier::ext_equal]
pub enum ServicesStageView {
    Querying,
    Attempting(ConnectDeviceView),
    Retracting { error: ErrorView },
    Checking,
    Discovering,
    Listing,
    Reading { services: Vec<Service>, link: LinkId },
    Disconnecting { services: Vec<Service>, link: LinkId },
    Waiting { services: Vec<Service> },
    Announcing { result: Result<Vec<Service>, ErrorView> },
}

/// The mathematical model of [`DiscoverServices`].
#[verifier::ext_equal]
pub struct DiscoverServicesView {
    pub address: Seq<char>,
    pub peripheral: PeripheralId,
    pub already_connected: bool,
    pub stage: ServicesStageView,
}

impl View for ServicesStage {
    type V = ServicesStageView;

    open spec fn view(&self) -> ServicesStageView {
        match *self {
            ServicesStage::Querying => ServicesStageView::Querying,
            ServicesStage::Attempting(attempt) => ServicesStageView::Attempting(attempt@),
            ServicesStage::Retracting { error } => ServicesStageView::Retracting { error: error@ },
            ServicesStage::Checking => ServicesStageView::Checking,
            ServicesStage::Discovering => ServicesStageView::Discovering,
            ServicesStage::Listing => ServicesStageView::Listing,
            ServicesStage::Reading { services, link } => ServicesStageView::Reading { services, link },
            ServicesStage::Disconnecting { services, link } => ServicesStageView::Disconnecting {
                services,
                link,
            },
            ServicesStage::Waiting { services } => ServicesStageView::Waiting { services },
            ServicesStage::Announcing { result } => ServicesStageView::Announcing {
                result: outcome(result),
            },
        }
    }
}

impl View for DiscoverServices {
    type V = DiscoverServicesView;

    open spec fn view(&self) -> DiscoverServicesView {
        DiscoverServicesView {
            address: self.address@,
            peripheral: self.peripheral,
            already_connected: self.already_connected,
            stage: self.stage@,
        }
    }
}

/// A step of the operation.
pub type ServicesStep<S, A> = Step<DiscoverServicesView, S, A, Result<Vec<Service>, ErrorView>>;

/// A step of the operation, with the handler after it.
pub type ServicesOutcome<S, A, C, T> = (HandlerView<S, A, C, T>, ServicesStep<S, A>);

impl DiscoverServicesView {
    /// The operation in another stage.
    pub open spec fn at(self, stage: ServicesStageView) -> Self {
        DiscoverServicesView { stage, ..self }
    }

    /// The replies that the operation can go on with.
    pub open spec fn awaits<S, A, C, T>(self, h: HandlerView<S, A, C, T>, reply: Reply) -> bool {
        match self.stage {
            ServicesStageView::Querying => reply is Queried,
            ServicesStageView::Attempting(attempt) => attempt.address == self.address
                && attempt.awaits(h, reply),
            ServicesStageView::Retracting { error } => reply is Acknowledged,
            ServicesStageView::Checking => reply is Flag,
            ServicesStageView::Discovering => reply is Timed,
            ServicesStageView::Listing => reply is Listed,
            ServicesStageView::Reading { services, link } => reply is Flag,
            ServicesStageView::Disconnecting { services, link } => reply is Finished,
            ServicesStageView::Waiting { services } => reply is Acknowledged,
            ServicesStageView::Announcing { result } => reply is Acknowledged,
        }
    }

    /// The end. If the operation made a connection, whether any device is connected is
    /// recomputed and, if that changed, announced before the result is given.
    pub open spec fn settle<S, A, C, T>(
        self,
        h: HandlerView<S, A, C, T>,
        result: Result<Vec<Service>, ErrorView>,
    ) -> ServicesOutcome<S, A, C, T> {
        if self.already_connected {
            (h, Step::Done(result))
        } else {
            match h.refresh_news() {
                Some(any) => (
                    h.refreshed(),
                    Step::Do(
                        self.at(ServicesStageView::Announcing { result }),
                        Action::Announce(any),
                    ),
                ),
                None => (h.refreshed(), Step::Done(result)),
            }
        }
    }

    /// The peripheral is asked whether no services are known yet.
    pub open spec fn check<S, A>(self) -> ServicesStep<S, A> {
        Step::Do(self.at(ServicesStageView::Checking), Action::LacksServices(self.peripheral))
    }

    /// The services are listed.
    pub open spec fn list<S, A>(self) -> ServicesStep<S, A> {
        Step::Do(self.at(ServicesStageView::Listing), Action::ListServices(self.peripheral))
    }

    /// The connection is given up, and the error is the result. If the device counted as
    /// connected, its link is told that it does not any more.
    pub open spec fn give_up<S, A, C, T>(self, h: HandlerView<S, A, C, T>, error: ErrorView) -> ServicesOutcome<
        S,
        A,
        C,
        T,
    > {
        if h.is_connected_at(self.address) {
            let link = h.connections[self.address].link;
            (
                h.without(self.address).silenced(link),
                Step::Do(
                    self.at(ServicesStageView::Retracting { error }),
                    Action::SendLink { link, value: false },
                ),
            )
        } else {
            self.settle(h.without(self.address), Err(error))
        }
    }

    /// What follows a step of connecting the device: another step of it; after success the
    /// discovery; after a failure the connection is given up and the error is the result.
    pub open spec fn after_attempt<S, A, C, T>(
        self,
        h: HandlerView<S, A, C, T>,
        step: DeviceStep<S, A>,
    ) -> ServicesOutcome<S, A, C, T> {
        match step {
            Step::Do(attempt, action) => (
                h,
                Step::Do(self.at(ServicesStageView::Attempting(attempt)), action),
            ),
            Step::Done(Ok(_)) => (h, self.check()),
            Step::Done(Err(e)) => self.give_up(h, e),
        }
    }
}

/// The lock of the connection for the address, if there is one.
pub open spec fn lock_at<S, A, C, T>(h: HandlerView<S, A, C, T>, address: Seq<char>) -> Option<LockId> {
    if h.tracks(address) {
        Some(h.connections[address].lock)
    } else {
        None
    }
}

/// How the operation begins: a device with a connection is used as it is; else it must have
/// been discovered, and is asked whether it is connected.
pub open spec fn services_begin<S, A, C, T>(h: HandlerView<S, A, C, T>, address: Seq<char>) -> ServicesStep<
    S,
    A,
> {
    if h.tracks(address) {
        DiscoverServicesView {
            address,
            peripheral: h.connections[address].peripheral,
            already_connected: true,
            stage: ServicesStageView::Checking,
        }.check()
    } else if h.devices.dom().contains(address) {
        Step::Do(
            DiscoverServicesView {
                address,
                peripheral: h.devices[address],
                already_connected: false,
                stage: ServicesStageView::Querying,
            },
            Action::QueryConnected(h.devices[address]),
        )
    } else {
        Step::Done(Err(ErrorView::UnknownPeripheral(address)))
    }
}

/// How the operation goes on. A device that is not connected is connected first. If no services
/// are known yet, they are discovered, under the lock of the connection if there is one; then
/// they are listed. A device that was connected for this is disconnected, and the adapter's
/// event is waited for.
pub open spec fn services_step<S, A, C, T>(
    h: HandlerView<S, A, C, T>,
    op: DiscoverServicesView,
    reply: Reply,
) -> ServicesOutcome<S, A, C, T> {
    match (op.stage, reply) {
        (ServicesStageView::Querying, Reply::Queried(Err(e))) => (
            h,
            Step::Done(Err(ErrorView::Btleplug(e))),
        ),
        (ServicesStageView::Querying, Reply::Queried(Ok(connected))) => if connected {
            (h, DiscoverServicesView { already_connected: true, ..op }.check())
        } else {
            let (h1, step) = connect_device_begin(h, op.address);
            op.after_attempt(h1, step)
        },
        (ServicesStageView::Attempting(attempt), _) => {
            let (h1, step) = connect_device_step(h, attempt, reply);
            op.after_attempt(h1, step)
        },
        (ServicesStageView::Retracting { error }, Reply::Acknowledged) => op.settle(h, Err(error)),
        (ServicesStageView::Checking, Reply::Flag(lacking)) => if lacking {
            (
                h,
                Step::Do(
                    op.at(ServicesStageView::Discovering),
                    Action::DiscoverServices {
                        peripheral: op.peripheral,
                        guard: lock_at(h, op.address),
                    },
                ),
            )
        } else {
            (h, op.list())
        },
        (ServicesStageView::Discovering, Reply::Timed(done)) => match timed_outcome(
            done,
            "discover services"@,
        ) {
            Ok(_) => (h, op.list()),
            Err(e) => op.settle(h, Err(e)),
        },
        (ServicesStageView::Listing, Reply::Listed(services)) => if !op.already_connected && h.tracks(
            op.address,
        ) {
            let link = h.connections[op.address].link;
            (
                h,
                Step::Do(
                    op.at(ServicesStageView::Reading { services, link }),
                    Action::ReadLink(link),
                ),
            )
        } else {
            op.settle(h, Ok(services))
        },
        (ServicesStageView::Reading { services, link }, Reply::Flag(connected)) => if connected {
            (
                h,
                Step::Do(
                    op.at(ServicesStageView::Disconnecting { services, link }),
                    Action::Disconnect(op.peripheral),
                ),
            )
        } else {
            op.settle(h, Ok(services))
        },
        (ServicesStageView::Disconnecting { services, link }, Reply::Finished(done)) => match done {
            Ok(_) => (
                h,
                Step::Do(
                    op.at(ServicesStageView::Waiting { services }),
                    Action::AwaitLink(link),
                ),
            ),
            Err(e) => op.settle(h, Err(ErrorView::Btleplug(e))),
        },
        (ServicesStageView::Waiting { services }, Reply::Acknowledged) => op.settle(h, Ok(services)),
        (ServicesStageView::Announcing { result }, Reply::Acknowledged) => (h, Step::Done(result)),
        _ => arbitrary(),
    }
}

impl DiscoverServices {
    /// Whether the operation can go on with the reply.
    pub fn is_awaiting<S, A, C, T>(&self, handler: &Handler<S, A, C, T>, reply: &Reply) -> (r: bool)
        requires
            handler.wf(),
        ensures
            r == self@.awaits(handler@, *reply),
    {
        match (&self.stage, reply) {
            (ServicesStage::Querying, Reply::Queried(_)) => true,
            (ServicesStage::Attempting(attempt), _) => same_text(
                attempt.address.as_str(),
                self.address.as_str(),
            ) && attempt.is_awaiting(handler, reply),
            (ServicesStage::Retracting { error: _ }, Reply::Acknowledged) => true,
            (ServicesStage::Checking, Reply::Flag(_)) => true,
            (ServicesStage::Discovering, Reply::Timed(_)) => true,
            (ServicesStage::Listing, Reply::Listed(_)) => true,
            (ServicesStage::Reading { services: _, link: _ }, Reply::Flag(_)) => true,
            (ServicesStage::Disconnecting { services: _, link: _ }, Reply::Finished(_)) => true,
            (ServicesStage::Waiting { services: _ }, Reply::Acknowledged) => true,
            (ServicesStage::Announcing { result: _ }, Reply::Acknowledged) => true,
            _ => false,
        }
    }
}

/// The operation without its stage.
struct Request {
    address: String,
    peripheral: PeripheralId,
    already_connected: bool,
}

impl Request {
    spec fn model(self, stage: ServicesStageView) -> DiscoverServicesView {
        DiscoverServicesView {
            address: self.address@,
            peripheral: self.peripheral,
            already_connected: self.already_connected,
            stage,
        }
    }

    fn at(self, stage: ServicesStage) -> (r: DiscoverServices)
        ensures
            r@ == self.model(stage@),
    {
        DiscoverServices {
            address: self.address,
            peripheral: self.peripheral,
            already_connected: self.already_connected,
            stage,
        }
    }

    fn check<S, A>(self) -> (r: Step<DiscoverServices, S, A, Result<Vec<Service>, BleError>>)
        ensures
            forall|stage: ServicesStageView| r.model() == (#[trigger] self.model(stage)).check::<S, A>(),
    {
        let peripheral = self.peripheral;
        Step::Do(self.at(ServicesStage::Checking), Action::LacksServices(peripheral))
    }

    fn list<S, A>(self) -> (r: Step<DiscoverServices, S, A, Result<Vec<Service>, BleError>>)
        ensures
            forall|stage: ServicesStageView| r.model() == (#[trigger] self.model(stage)).list::<S, A>(),
    {
        let peripheral = self.peripheral;
        Step::Do(self.at(ServicesStage::Listing), Action::ListServices(peripheral))
    }

    fn settle<S, A, C, T>(
        self,
        handler: &mut Handler<S, A, C, T>,
        result: Result<Vec<Service>, BleError>,
    ) -> (r: Step<DiscoverServices, S, A, Result<Vec<Service>, BleError>>)
        requires
            old(handler).wf(),
        ensures
            final(handler).wf(),
            forall|stage: ServicesStageView|
                (final(handler)@, r.model()) == (#[trigger] self.model(stage)).settle(
                    old(handler)@,
                    outcome(result),
                ),
    {
        if self.already_connected {
            return Step::Done(result);
        }
        match handler.refresh_aggregate_connected() {
            Some(any) => Step::Do(
                self.at(ServicesStage::Announcing { result }),
                Action::Announce(any),
            ),
            None => Step::Done(result),
        }
    }

    fn after_attempt<S, A, C, T>(
        self,
        handler: &mut Handler<S, A, C, T>,
        step: Step<ConnectDevice, S, A, Result<(), BleError>>,
    ) -> (r: Step<DiscoverServices, S, A, Result<Vec<Service>, BleError>>)
        requires
            old(handler).wf(),
        ensures
            final(handler).wf(),
            forall|stage: ServicesStageView|
                (final(handler)@, r.model()) == (#[trigger] self.model(stage)).after_attempt(
                    old(handler)@,
                    step.model(),
                ),
    {
        match step {
            Step::Do(attempt, action) => Step::Do(self.at(ServicesStage::Attempting(attempt)), action),
            Step::Done(Ok(_)) => self.check(),
            Step::Done(Err(e)) => match handler.give_up_connection(self.address.as_str()) {
                Some(link) => Step::Do(
                    self.at(ServicesStage::Retracting { error: e }),
                    Action::SendLink { link, value: false },
                ),
                None => self.settle(handler, Err(e)),
            },
        }
    }
}

impl<S, A, C, T> Handler<S, A, C, T> {
    /// Discovers the services of the device at the address. A device that is not connected is
    /// connected for that and disconnected afterwards; one that is connected stays so.
    pub fn discover_services(&self, address: &str) -> (r: Step<
        DiscoverServices,
        S,
        A,
        Result<Vec<Service>, BleError>,
    >)
        requires
            self.wf(),
        ensures
            r.model() == services_begin(self@, address@),
    {
        match self.connection(address) {
            Some(c) => {
                let request = Request {
                    address: address.to_owned(),
                    peripheral: c.peripheral,
                    already_connected: true,
                };
                assert(request.model(ServicesStageView::Checking) == DiscoverServicesView {
                    address: address@,
                    peripheral: c.peripheral,
                    already_connected: true,
                    stage: ServicesStageView::Checking,
                });
                request.check()
            },
            None => match self.device(address) {
                None => Step::Done(Err(BleError::UnknownPeripheral(address.to_owned()))),
                Some(peripheral) => Step::Do(
                    DiscoverServices {
                        address: address.to_owned(),
                        peripheral,
                        already_connected: false,
                        stage: ServicesStage::Querying,
                    },
                    Action::QueryConnected(peripheral),
                ),
            },
        }
    }

    /// Goes on with discovering services.
    pub fn resume_discover_services(&mut self, op: DiscoverServices, reply: Reply) -> (r: Step<
        DiscoverServices,
        S,
        A,
        Result<Vec<Service>, BleError>,
    >)
        requires
            old(self).wf(),
            old(self)@.has_tokens(),
            op@.awaits(old(self)@, reply),
        ensures
            final(self).wf(),
            (final(self)@, r.model()) == services_step(old(self)@, op@, reply),
    {
        let ghost op0 = op@;
        let mut request = Request {
            address: op.address,
            peripheral: op.peripheral,
            already_connected: op.already_connected,
        };
        assert(request.model(op0.stage) == op0);
        match (op.stage, reply) {
            (ServicesStage::Querying, Reply::Queried(Err(e))) => Step::Done(Err(BleError::Btleplug(e))),
            (ServicesStage::Querying, Reply::Queried(Ok(connected))) => {
                if connected {
                    request.already_connected = true;
                    assert(request.model(op0.stage) == DiscoverServicesView {
                        already_connected: true,
                        ..op0
                    });
                    request.check()
                } else {
                    let step = self.connect_device(request.address.as_str());
                    request.after_attempt(self, step)
                }
            },
            (ServicesStage::Attempting(attempt), reply) => {
                let step = self.resume_connect_device(attempt, reply);
                request.after_attempt(self, step)
            },
            (ServicesStage::Retracting { error }, Reply::Acknowledged) => request.settle(
                self,
                Err(error),
            ),
            (ServicesStage::Checking, Reply::Flag(lacking)) => {
                if lacking {
                    let peripheral = request.peripheral;
                    let guard = match self.connection(request.address.as_str()) {
                        Some(c) => Some(c.lock),
                        None => None,
                    };
                    Step::Do(
                        request.at(ServicesStage::Discovering),
                        Action::DiscoverServices { peripheral, guard },
                    )
                } else {
                    request.list()
                }
            },
            (ServicesStage::Discovering, Reply::Timed(done)) => {
                match run_with_timeout(done, "discover services") {
                    Ok(_) => request.list(),
                    Err(e) => request.settle(self, Err(e)),
                }
            },
            (ServicesStage::Listing, Reply::Listed(services)) => {
                if request.already_connected {
                    return request.settle(self, Ok(services));
                }
                let link = match self.connection(request.address.as_str()) {
                    Some(c) => Some(c.link),
                    None => None,
                };
                match link {
                    Some(link) => Step::Do(
                        request.at(ServicesStage::Reading { services, link }),
                        Action::ReadLink(link),
                    ),
                    None => request.settle(self, Ok(services)),
                }
            },
            (ServicesStage::Reading { services, link }, Reply::Flag(connected)) => {
                if connected {
                    let peripheral = request.peripheral;
                    Step::Do(
                        request.at(ServicesStage::Disconnecting { services, link }),
                        Action::Disconnect(peripheral),
                    )
                } else {
                    request.settle(self, Ok(services))
                }
            },
            (ServicesStage::Disconnecting { services, link }, Reply::Finished(done)) => {
                match done {
                    Ok(_) => Step::Do(
                        request.at(ServicesStage::Waiting { services }),
                        Action::AwaitLink(link),
                    ),
                    Err(e) => request.settle(self, Err(BleError::Btleplug(e))),
                }
            },
            (ServicesStage::Waiting { services }, Reply::Acknowledged) => request.settle(
                self,
                Ok(services),
            ),
            (ServicesStage::Announcing { result }, Reply::Acknowledged) => Step::Done(result),
            _ => unreached(),
        }
    }
}

} // verus!

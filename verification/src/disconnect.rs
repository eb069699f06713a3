//! Disconnecting a device.
use vstd::pervasive::unreached;
use vstd::prelude::*;

use crate::error::{BleError, ErrorView};
use crate::event::{handle_disconnect_begin, handle_event_step, EventStep, HandleEvent};
use crate::handler::{Handler, HandlerView};
use crate::models::{LinkId, LockId, PeripheralId};
use crate::step::{Action, Reply, Step};

verus! {

/// What the operation waits for.
#[derive(Debug)]
pub enum DisconnectStage<S, A> {
    /// Whether the peripheral is connected.
    Querying,
    /// The last value of the link.
    Reading,
    /// That the adapter has begun to disconnect the peripheral.
    Disconnecting,
    /// A new value of the link.
    Waiting,
    /// The value of the link that decides.
    Checking,
    /// A step of giving up a connection that the peripheral does not have.
    WindingUp(HandleEvent<S, A>),
}

/// The operation that disconnects a device.
#[derive(Debug)]
pub struct DisconnectDevice<S, A> {
    pub peripheral: PeripheralId,
    /// That of the connection which is to end.
    pub lock: LockId,
    pub link: LinkId,
    pub stage: DisconnectStage<S, A>,
}

impl<S, A> View for DisconnectDevice<S, A> {
    type V = DisconnectDevice<S, A>;

    open spec fn view(&self) -> DisconnectDevice<S, A> {
        *self
    }
}

/// A step of the operation.
pub type DisconnectStep<S, A> = Step<DisconnectDevice<S, A>, S, A, Result<(), ErrorView>>;

impl<S, A> DisconnectDevice<S, A> {
    /// The operation in another stage.
    pub open spec fn at(self, stage: DisconnectStage<S, A>) -> Self {
        DisconnectDevice { stage, ..self }
    }

    /// The replies that the operation can go on with. Where the peripheral is connected, its
    /// link must say so too.
    pub open spec fn awaits<C, T>(self, h: HandlerView<S, A, C, T>, reply: Reply) -> bool {
        match self.stage {
            DisconnectStage::Querying => reply is Queried,
            DisconnectStage::Reading => reply == Reply::Flag(true),
            DisconnectStage::Disconnecting => reply is Finished,
            DisconnectStage::Waiting => reply is Acknowledged,
            DisconnectStage::Checking => reply is Flag,
            DisconnectStage::WindingUp(op) => op.awaits(h, reply),
        }
    }

    /// Whether the operation can go on with the reply.
    pub fn is_awaiting<C, T>(&self, handler: &Handler<S, A, C, T>, reply: &Reply) -> (r: bool)
        ensures
            r == self.awaits(handler@, *reply),
    {
        match (&self.stage, reply) {
            (DisconnectStage::Querying, Reply::Queried(_)) => true,
            (DisconnectStage::Reading, Reply::Flag(connected)) => *connected,
            (DisconnectStage::Disconnecting, Reply::Finished(_)) => true,
            (DisconnectStage::Waiting, Reply::Acknowledged) => true,
            (DisconnectStage::Checking, Reply::Flag(_)) => true,
            (DisconnectStage::WindingUp(op), _) => op.is_awaiting(handler, reply),
            _ => false,
        }
    }

    /// What follows a step of giving up a connection that the peripheral does not have: another
    /// step of it, and in the end the error that the device is not connected.
    pub open spec fn after_winding_up(self, step: EventStep<S, A>) -> DisconnectStep<S, A> {
        match step {
            Step::Do(op, action) => Step::Do(self.at(DisconnectStage::WindingUp(op)), action),
            Step::Done(_) => Step::Done(Err(ErrorView::NoDeviceConnected)),
        }
    }

    fn wind_up(peripheral: PeripheralId, lock: LockId, link: LinkId, step: Step<HandleEvent<S, A>, S, A, Result<(), BleError>>) -> (r: Step<
        DisconnectDevice<S, A>,
        S,
        A,
        Result<(), BleError>,
    >)
        ensures
            forall|op: Self|
                op.peripheral == peripheral && op.lock == lock && op.link == link ==> r.model() == #[trigger] op.after_winding_up(
                    step.model(),
                ),
    {
        match step {
            Step::Do(op, action) => Step::Do(
                DisconnectDevice { peripheral, lock, link, stage: DisconnectStage::WindingUp(op) },
                action,
            ),
            Step::Done(_) => Step::Done(Err(BleError::NoDeviceConnected)),
        }
    }
}

/// How the operation begins: the device must have a connection; its peripheral is asked
/// whether it is connected.
pub open spec fn disconnect_begin<S, A, C, T>(h: HandlerView<S, A, C, T>, address: Seq<char>) -> DisconnectStep<
    S,
    A,
> {
    match h.connection_at(address) {
        Err(e) => Step::Done(Err(e)),
        Ok(c) => Step::Do(
            DisconnectDevice {
                peripheral: c.peripheral,
                lock: c.lock,
                link: c.link,
                stage: DisconnectStage::Querying,
            },
            Action::QueryConnected(c.peripheral),
        ),
    }
}

/// How the operation begins for the only connected device.
pub open spec fn disconnect_default_begin<S, A, C, T>(h: HandlerView<S, A, C, T>) -> DisconnectStep<
    S,
    A,
> {
    match h.default_address() {
        Ok(a) => disconnect_begin(h, a),
        Err(e) => Step::Done(Err(e)),
    }
}

/// How the operation goes on. If the peripheral is connected, the adapter disconnects it, and
/// the adapter's event is waited for; the operation succeeds if its connection is gone by then,
/// though the address may have a new one, or if the event says that it is disconnected. If it is
/// not connected, its connection is given up and wound up.
pub open spec fn disconnect_step<S, A, C, T>(
    h: HandlerView<S, A, C, T>,
    op: DisconnectDevice<S, A>,
    reply: Reply,
    h2: HandlerView<S, A, C, T>,
    step: DisconnectStep<S, A>,
) -> bool {
    match (op.stage, reply) {
        (DisconnectStage::Querying, Reply::Queried(q)) => if q == Ok::<bool, btleplug::Error>(true) {
            &&& h2 == h
            &&& step == DisconnectStep::<S, A>::Do(
                op.at(DisconnectStage::Reading),
                Action::ReadLink(op.link),
            )
        } else {
            exists|s: EventStep<S, A>| #[trigger]
                handle_disconnect_begin(h, op.peripheral, h2, s) && step == op.after_winding_up(s)
        },
        (DisconnectStage::Reading, Reply::Flag(true)) => {
            &&& h2 == h
            &&& step == DisconnectStep::<S, A>::Do(
                op.at(DisconnectStage::Disconnecting),
                Action::Disconnect(op.peripheral),
            )
        },
        (DisconnectStage::Disconnecting, Reply::Finished(Err(e))) => {
            &&& h2 == h
            &&& step == DisconnectStep::<S, A>::Done(Err(ErrorView::Btleplug(e)))
        },
        (DisconnectStage::Disconnecting, Reply::Finished(Ok(_))) => {
            &&& h2 == h
            &&& step == DisconnectStep::<S, A>::Do(
                op.at(DisconnectStage::Waiting),
                Action::AwaitLink(op.link),
            )
        },
        (DisconnectStage::Waiting, Reply::Acknowledged) => {
            &&& h2 == h
            &&& step == DisconnectStep::<S, A>::Do(
                op.at(DisconnectStage::Checking),
                Action::PeekLink(op.link),
            )
        },
        (DisconnectStage::Checking, Reply::Flag(connected)) => {
            &&& h2 == h
            &&& step == DisconnectStep::<S, A>::Done(
                if connected && h.lock_in_use(op.lock) {
                    Err(ErrorView::DisconnectFailed)
                } else {
                    Ok(())
                },
            )
        },
        (DisconnectStage::WindingUp(w), Reply::Acknowledged) => {
            let (h3, s) = handle_event_step(h, w);
            h2 == h3 && step == op.after_winding_up(s)
        },
        _ => false,
    }
}

impl<S, A, C, T> Handler<S, A, C, T> {
    /// Disconnects the device at the address.
    pub fn disconnect_device(&self, address: &str) -> (r: Step<
        DisconnectDevice<S, A>,
        S,
        A,
        Result<(), BleError>,
    >)
        requires
            self.wf(),
        ensures
            r.model() == disconnect_begin(self@, address@),
    {
        match self.connection(address) {
            None => Step::Done(Err(BleError::NoDeviceConnected)),
            Some(c) => Step::Do(
                DisconnectDevice {
                    peripheral: c.peripheral,
                    lock: c.lock,
                    link: c.link,
                    stage: DisconnectStage::Querying,
                },
                Action::QueryConnected(c.peripheral),
            ),
        }
    }

    /// Disconnects the only connected device.
    pub fn disconnect(&self) -> (r: Step<DisconnectDevice<S, A>, S, A, Result<(), BleError>>)
        requires
            self.wf(),
        ensures
            r.model() == disconnect_default_begin(self@),
    {
        match self.default_address() {
            Ok(address) => self.disconnect_device(address.as_str()),
            Err(e) => Step::Done(Err(e)),
        }
    }

    /// Goes on with disconnecting a device.
    pub fn resume_disconnect(&mut self, op: DisconnectDevice<S, A>, reply: Reply) -> (r: Step<
        DisconnectDevice<S, A>,
        S,
        A,
        Result<(), BleError>,
    >)
        requires
            old(self).wf(),
            op.awaits(old(self)@, reply),
        ensures
            final(self).wf(),
            disconnect_step(old(self)@, op, reply, final(self)@, r.model()),
    {
        let peripheral = op.peripheral;
        let link = op.link;
        let lock = op.lock;
        match (op.stage, reply) {
            (DisconnectStage::Querying, Reply::Queried(Ok(true))) => Step::Do(
                DisconnectDevice { peripheral, lock, link, stage: DisconnectStage::Reading },
                Action::ReadLink(link),
            ),
            (DisconnectStage::Querying, Reply::Queried(_)) => {
                let step = self.handle_disconnect(peripheral);
                let r = DisconnectDevice::wind_up(peripheral, lock, link, step);
                assert(handle_disconnect_begin(old(self)@, peripheral, self@, step.model()));
                assert(r.model() == op.after_winding_up(step.model()));
                r
            },
            (DisconnectStage::Reading, Reply::Flag(true)) => Step::Do(
                DisconnectDevice { peripheral, lock, link, stage: DisconnectStage::Disconnecting },
                Action::Disconnect(peripheral),
            ),
            (DisconnectStage::Disconnecting, Reply::Finished(Err(e))) => Step::Done(
                Err(BleError::Btleplug(e)),
            ),
            (DisconnectStage::Disconnecting, Reply::Finished(Ok(_))) => Step::Do(
                DisconnectDevice { peripheral, lock, link, stage: DisconnectStage::Waiting },
                Action::AwaitLink(link),
            ),
            (DisconnectStage::Waiting, Reply::Acknowledged) => Step::Do(
                DisconnectDevice { peripheral, lock, link, stage: DisconnectStage::Checking },
                Action::PeekLink(link),
            ),
            (DisconnectStage::Checking, Reply::Flag(connected)) => {
                if connected && self.is_lock_in_use(lock) {
                    Step::Done(Err(BleError::DisconnectFailed))
                } else {
                    Step::Done(Ok(()))
                }
            },
            (DisconnectStage::WindingUp(w), reply) => {
                let step = self.resume_handle_event(w, reply);
                DisconnectDevice::wind_up(peripheral, lock, link, step)
            },
            _ => unreached(),
        }
    }
}

} // verus!

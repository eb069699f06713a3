//! One attempt to connect a device.
use vstd::pervasive::unreached;
use vstd::prelude::*;

use crate::error::{run_with_timeout, timed_outcome, BleError, ErrorView};
use crate::handler::{Handler, HandlerView};
use crate::models::{LinkId, LockId, PeripheralId};
use crate::step::{Action, Reply, Step};

verus! {

/// What an attempt waits for.
#[derive(Clone, Copy, Debug, PartialEq, Eq, Structural)]
pub enum DeviceStage {
    /// That the link was told that the device is not connected any more.
    Resetting,
    /// Whether the peripheral is connected already.
    Querying,
    /// That the link was told that the peripheral is connected.
    Signalling,
    /// That the adapter has connected the peripheral.
    Connecting,
    /// The last value of the link.
    Reading,
    /// A new value of the link.
    Waiting,
    /// The value of the link that decides.
    Checking,
}

/// An attempt to connect the device at `address`. The adapter's events for the device come
/// over `link`, the link of the address.
#[derive(Debug)]
pub struct ConnectDevice {
    pub address: String,
    pub peripheral: PeripheralId,
    /// That of the connection which the attempt is for.
    pub lock: LockId,
    pub link: LinkId,
    pub stage: DeviceStage,
}

/// The mathematical model of [`ConnectDevice`].
#[verifier::ext_equal]
pub struct ConnectDeviceView {
    pub address: Seq<char>,
    pub peripheral: PeripheralId,
    pub lock: LockId,
    pub link: LinkId,
    pub stage: DeviceStage,
}

impl View for ConnectDevice {
    type V = ConnectDeviceView;

    open spec fn view(&self) -> ConnectDeviceView {
        ConnectDeviceView {
            address: self.address@,
            peripheral: self.peripheral,
            lock: self.lock,
            link: self.link,
            stage: self.stage,
        }
    }
}

impl ConnectDeviceView {
    /// The attempt in another stage.
    pub open spec fn at(self, stage: DeviceStage) -> Self {
        ConnectDeviceView { stage, ..self }
    }

    /// The address has another connection than the one that the attempt is for. What its link
    /// says is then said of that one.
    pub open spec fn is_replaced<S, A, C, T>(self, h: HandlerView<S, A, C, T>) -> bool {
        h.tracks(self.address) && h.connections[self.address].lock != self.lock
    }

    /// The replies that the attempt can go on with. Its link must be that of the address.
    /// Where the peripheral turned out not to be connected, there must still be the connection
    /// that the attempt is for.
    pub open spec fn awaits<S, A, C, T>(self, h: HandlerView<S, A, C, T>, reply: Reply) -> bool {
        &&& h.links.dom().contains(self.address)
        &&& h.links[self.address].link == self.link
        &&& match self.stage {
            DeviceStage::Resetting => reply is Acknowledged,
            DeviceStage::Querying => reply matches Reply::Queried(q) && (q == Ok::<bool, btleplug::Error>(
                false,
            ) ==> h.tracks(self.address)),
            DeviceStage::Signalling => reply is Acknowledged,
            DeviceStage::Connecting => reply is Timed,
            DeviceStage::Reading => reply is Flag,
            DeviceStage::Waiting => reply is Acknowledged,
            DeviceStage::Checking => reply is Flag,
        }
    }
}

/// A step of an attempt.
pub type DeviceStep<S, A> = Step<ConnectDeviceView, S, A, Result<(), ErrorView>>;

/// How an attempt begins: the device must have been discovered; its connection is begun unless
/// there is one; then the peripheral is asked whether it is connected. Before that the link is
/// told that the device is not connected, where it was left saying otherwise.
pub open spec fn connect_device_begin<S, A, C, T>(h: HandlerView<S, A, C, T>, address: Seq<char>) -> (
    HandlerView<S, A, C, T>,
    DeviceStep<S, A>,
) {
    if !h.devices.dom().contains(address) {
        (h, Step::Done(Err(ErrorView::UnknownPeripheral(address))))
    } else {
        let peripheral = h.devices[address];
        let h2 = h.with_connection(address, peripheral);
        let link = h2.links[address].link;
        let lock = h2.connections[address].lock;
        let op = ConnectDeviceView { address, peripheral, lock, link, stage: DeviceStage::Querying };
        if !h.tracks(address) && h.links.dom().contains(address) && h.links[address].told {
            (
                h2,
                Step::Do(op.at(DeviceStage::Resetting), Action::SendLink { link, value: false }),
            )
        } else {
            (h2, Step::Do(op, Action::QueryConnected(peripheral)))
        }
    }
}

/// How an attempt goes on. A peripheral that is connected already needs nothing but the word
/// over the link. Else it is connected under the lock of its connection, and the adapter's
/// event is waited for; the attempt succeeds if the event says that it is connected, and says so
/// of the connection that the attempt is for.
pub open spec fn connect_device_step<S, A, C, T>(
    h: HandlerView<S, A, C, T>,
    op: ConnectDeviceView,
    reply: Reply,
) -> (HandlerView<S, A, C, T>, DeviceStep<S, A>) {
    if op.stage is Querying && reply == Reply::Queried(Ok(true)) && h.tracks(op.address) {
        (
            h.marked(op.address),
            Step::Do(
                op.at(DeviceStage::Signalling),
                Action::SendLink { link: op.link, value: true },
            ),
        )
    } else {
        (h, connect_device_choice(h, op, reply))
    }
}

/// How an attempt goes on where it leaves the handler as it is.
pub open spec fn connect_device_choice<S, A, C, T>(
    h: HandlerView<S, A, C, T>,
    op: ConnectDeviceView,
    reply: Reply,
) -> DeviceStep<S, A> {
    match (op.stage, reply) {
        (DeviceStage::Resetting, Reply::Acknowledged) => Step::Do(
            op.at(DeviceStage::Querying),
            Action::QueryConnected(op.peripheral),
        ),
        (DeviceStage::Querying, Reply::Queried(Err(e))) => Step::Done(Err(ErrorView::Btleplug(e))),
        (DeviceStage::Querying, Reply::Queried(Ok(connected))) => if connected {
            Step::Done(Ok(()))
        } else {
            Step::Do(
                op.at(DeviceStage::Connecting),
                Action::Connect { peripheral: op.peripheral, lock: h.connections[op.address].lock },
            )
        },
        (DeviceStage::Signalling, Reply::Acknowledged) => Step::Done(Ok(())),
        (DeviceStage::Connecting, Reply::Timed(done)) => match timed_outcome(done, "Connect"@) {
            Ok(_) => Step::Do(op.at(DeviceStage::Reading), Action::ReadLink(op.link)),
            Err(e) => Step::Done(Err(e)),
        },
        (DeviceStage::Reading, Reply::Flag(connected)) => if connected {
            Step::Do(op.at(DeviceStage::Checking), Action::PeekLink(op.link))
        } else {
            Step::Do(op.at(DeviceStage::Waiting), Action::AwaitLink(op.link))
        },
        (DeviceStage::Waiting, Reply::Acknowledged) => Step::Do(
            op.at(DeviceStage::Checking),
            Action::PeekLink(op.link),
        ),
        (DeviceStage::Checking, Reply::Flag(connected)) => if connected && !op.is_replaced(h) {
            Step::Done(Ok(()))
        } else {
            Step::Done(Err(ErrorView::ConnectionFailed))
        },
        _ => arbitrary(),
    }
}

impl ConnectDevice {
    /// Whether the attempt can go on with the reply.
    pub fn is_awaiting<S, A, C, T>(&self, handler: &Handler<S, A, C, T>, reply: &Reply) -> (r: bool)
        requires
            handler.wf(),
        ensures
            r == self@.awaits(handler@, *reply),
    {
        match handler.link(self.address.as_str()) {
            Some(s) => {
                if s.link != self.link {
                    return false;
                }
            },
            None => {
                return false;
            },
        }
        match (self.stage, reply) {
            (DeviceStage::Resetting, Reply::Acknowledged) => true,
            (DeviceStage::Querying, Reply::Queried(Ok(connected))) => *connected
                || handler.has_connection(self.address.as_str()),
            (DeviceStage::Querying, Reply::Queried(Err(_))) => true,
            (DeviceStage::Signalling, Reply::Acknowledged) => true,
            (DeviceStage::Connecting, Reply::Timed(_)) => true,
            (DeviceStage::Reading, Reply::Flag(_)) => true,
            (DeviceStage::Waiting, Reply::Acknowledged) => true,
            (DeviceStage::Checking, Reply::Flag(_)) => true,
            _ => false,
        }
    }
}

impl<S, A, C, T> Handler<S, A, C, T> {
    /// Begins an attempt to connect the device at the address.
    pub(crate) fn connect_device(&mut self, address: &str) -> (r: Step<
        ConnectDevice,
        S,
        A,
        Result<(), BleError>,
    >)
        requires
            old(self).wf(),
            old(self)@.has_tokens(),
        ensures
            final(self).wf(),
            (final(self)@, r.model()) == connect_device_begin(old(self)@, address@),
    {
        match self.device(address) {
            None => Step::Done(Err(BleError::UnknownPeripheral(address.to_owned()))),
            Some(peripheral) => {
                let stale = match self.link(address) {
                    Some(s) => s.told && !self.has_connection(address),
                    None => false,
                };
                self.track(address, peripheral);
                let (lock, link) = match self.connection(address) {
                    Some(c) => (c.lock, c.link),
                    None => unreached(),
                };
                let mut op = ConnectDevice {
                    address: address.to_owned(),
                    peripheral,
                    lock,
                    link,
                    stage: DeviceStage::Querying,
                };
                if stale {
                    op.stage = DeviceStage::Resetting;
                    Step::Do(op, Action::SendLink { link, value: false })
                } else {
                    Step::Do(op, Action::QueryConnected(peripheral))
                }
            },
        }
    }

    /// Goes on with an attempt to connect a device.
    pub(crate) fn resume_connect_device(&mut self, op: ConnectDevice, reply: Reply) -> (r: Step<
        ConnectDevice,
        S,
        A,
        Result<(), BleError>,
    >)
        requires
            old(self).wf(),
            op@.awaits(old(self)@, reply),
        ensures
            final(self).wf(),
            (final(self)@, r.model()) == connect_device_step(old(self)@, op@, reply),
    {
        let mut op = op;
        match (op.stage, reply) {
            (DeviceStage::Resetting, Reply::Acknowledged) => {
                let peripheral = op.peripheral;
                op.stage = DeviceStage::Querying;
                Step::Do(op, Action::QueryConnected(peripheral))
            },
            (DeviceStage::Querying, Reply::Queried(Err(e))) => Step::Done(Err(BleError::Btleplug(e))),
            (DeviceStage::Querying, Reply::Queried(Ok(connected))) => {
                if connected {
                    if !self.has_connection(op.address.as_str()) {
                        return Step::Done(Ok(()));
                    }
                    self.mark(op.address.as_str());
                    let link = op.link;
                    op.stage = DeviceStage::Signalling;
                    Step::Do(op, Action::SendLink { link, value: true })
                } else {
                    match self.connection(op.address.as_str()) {
                        Some(c) => {
                            let peripheral = op.peripheral;
                            op.stage = DeviceStage::Connecting;
                            Step::Do(op, Action::Connect { peripheral, lock: c.lock })
                        },
                        None => unreached(),
                    }
                }
            },
            (DeviceStage::Signalling, Reply::Acknowledged) => Step::Done(Ok(())),
            (DeviceStage::Connecting, Reply::Timed(done)) => {
                match run_with_timeout(done, "Connect") {
                    Ok(_) => {
                        let link = op.link;
                        op.stage = DeviceStage::Reading;
                        Step::Do(op, Action::ReadLink(link))
                    },
                    Err(e) => Step::Done(Err(e)),
                }
            },
            (DeviceStage::Reading, Reply::Flag(connected)) => {
                let link = op.link;
                if connected {
                    op.stage = DeviceStage::Checking;
                    Step::Do(op, Action::PeekLink(link))
                } else {
                    op.stage = DeviceStage::Waiting;
                    Step::Do(op, Action::AwaitLink(link))
                }
            },
            (DeviceStage::Waiting, Reply::Acknowledged) => {
                let link = op.link;
                op.stage = DeviceStage::Checking;
                Step::Do(op, Action::PeekLink(link))
            },
            (DeviceStage::Checking, Reply::Flag(connected)) => {
                let replaced = match self.connection(op.address.as_str()) {
                    Some(c) => c.lock != op.lock,
                    None => false,
                };
                if connected && !replaced {
                    Step::Done(Ok(()))
                } else {
                    Step::Done(Err(BleError::ConnectionFailed))
                }
            },
            _ => unreached(),
        }
    }
}

} // verus!

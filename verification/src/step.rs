//! Operations that alternate between a decision of the library and work of the adapter.
//!
//! An operation is a value. Each step of it is one call on the [`Handler`], which either
//! gives the result of the operation or asks for one [`Action`]. The caller performs the
//! action and takes the next step with the [`Reply`]. Between two steps other operations may
//! take theirs.
//!
//! [`Handler`]: crate::handler::Handler
use vstd::prelude::*;

use crate::callbacks::OnDisconnectHandler;
use crate::error::{outcome, BleError, ErrorView};
use crate::filter::Sighting;
use crate::models::{
    AdapterId, BleDevice, Characteristic, LinkId, LockId, LockName, PeripheralId, Service, TaskId,
    WriteType,
};
use crate::scan::ScanTask;

verus! {

/// What an operation asks for.
#[derive(Debug)]
pub enum Action<S, A> {
    /// Ask the peripheral whether it is connected. Reply: `Queried`.
    QueryConnected(PeripheralId),
    /// Under the lock and the time limit, connect the peripheral. Reply: `Timed`.
    Connect { peripheral: PeripheralId, lock: LockId },
    /// Disconnect the peripheral. Reply: `Finished`.
    Disconnect(PeripheralId),
    /// Ask whether no services of the peripheral are known yet. Reply: `Flag`.
    LacksServices(PeripheralId),
    /// Under the time limit, and under the lock if one is given, discover the services of the
    /// peripheral. Reply: `Timed`.
    DiscoverServices { peripheral: PeripheralId, guard: Option<LockId> },
    /// List the known services of the peripheral. Reply: `Listed`.
    ListServices(PeripheralId),
    /// Read the last value sent over the link and mark it as seen. Reply: `Flag`.
    ReadLink(LinkId),
    /// Wait for a value of the link that was not seen yet and mark it as seen. Reply:
    /// `Acknowledged`.
    AwaitLink(LinkId),
    /// Read the last value sent over the link. Reply: `Flag`.
    PeekLink(LinkId),
    /// Send a value over the link. Reply: `Acknowledged`.
    SendLink { link: LinkId, value: bool },
    /// Wait for so many milliseconds. Reply: `Acknowledged`.
    Sleep(u64),
    /// Start an unfiltered scan for so many milliseconds. Reply: `Settled`.
    Discover { timeout: u64, allow_ibeacons: bool },
    /// Stop the scan that is running. Reply: `Settled`.
    StopScan,
    /// Abort the replaced task if there is one and start `task`, which hands the
    /// notifications of the peripheral to the listeners of the connection that has the lock.
    /// Reply: `Acknowledged`.
    StartListening {
        peripheral: PeripheralId,
        lock: LockId,
        task: TaskId,
        replaced: Option<TaskId>,
    },
    /// Abort the task. Reply: `Acknowledged`.
    AbortTask(TaskId),
    /// Run the callback. Reply: `Acknowledged`.
    RunCallback(OnDisconnectHandler<S, A>),
    /// Tell all who asked for updates whether a device is connected. Reply: `Acknowledged`.
    Announce(bool),
    /// Initialize the adapter unless that was done. Reply: `Initialized`.
    InitAdapter,
    /// List the adapters of the host. Reply: `Adapters`.
    ListAdapters,
    /// Hand the events of the adapter to [`Handler::handle_event`] from now on, if it gives
    /// any. Reply: `Acknowledged`.
    ///
    /// [`Handler::handle_event`]: crate::handler::Handler::handle_event
    ListenToEvents(AdapterId),
    /// Let the adapter scan. Reply: `Finished`.
    StartAdapterScan { adapter: AdapterId, allow_ibeacons: bool },
    /// Let the adapter stop its scan. Reply: `Finished`.
    StopAdapterScan(AdapterId),
    /// Tell all who asked for updates whether a scan is running. Reply: `Acknowledged`.
    AnnounceScan(bool),
    /// Run the scan in the background. Reply: `Acknowledged`.
    SpawnScan(ScanTask),
    /// List the peripherals that the adapter has seen, with what they advertise if that is
    /// wanted. Reply: `Sighted`.
    ListPeripherals { adapter: AdapterId, with_properties: bool },
    /// Describe each of the peripherals. Reply: `Described`.
    Describe(Vec<PeripheralId>),
    /// Hand the devices to whoever asked for the scan. Reply: `Acknowledged`.
    Report { scan: TaskId, devices: Vec<BleDevice> },
    /// Under the lock, write the data. Reply: `Finished`.
    Write {
        peripheral: PeripheralId,
        lock: LockId,
        charac: Characteristic,
        data: Vec<u8>,
        write_type: WriteType,
    },
    /// Under the lock and the time limit, read. Reply: `Received`.
    Read { peripheral: PeripheralId, lock: LockId, charac: Characteristic },
    /// Under the time limit, subscribe to notifications. The operation holds the lock of the
    /// connection, from before the action until its list of listeners was changed. Reply:
    /// `Timed`.
    Subscribe { peripheral: PeripheralId, charac: Characteristic },
    /// Under the time limit, unsubscribe from notifications. The operation holds the lock of
    /// the connection, from before the action until its list of listeners was changed. Reply:
    /// `Timed`.
    Unsubscribe { peripheral: PeripheralId, charac: Characteristic },
    /// Take the lock for the operation, which keeps it until it asks for `Unlock` or ends.
    /// Reply: `Acknowledged`.
    Lock(LockName),
    /// Give the lock back. Reply: `Acknowledged`.
    Unlock(LockName),
    /// Take the lock of the listeners of the connection with that lock, and keep it until the
    /// operation has taken its next step. So callbacks that are running end first, and none
    /// starts meanwhile. Reply: `Acknowledged`.
    Quiet(LockId),
}

/// What came of an action.
#[derive(Debug)]
pub enum Reply {
    /// The action is done.
    Acknowledged,
    /// What was read.
    Flag(bool),
    /// Whether the peripheral is connected.
    Queried(Result<bool, btleplug::Error>),
    /// How the work of the adapter ended.
    Finished(Result<(), btleplug::Error>),
    /// How the work of the adapter ended; `None` when the time limit passed first.
    Timed(Option<Result<(), btleplug::Error>>),
    /// The services.
    Listed(Vec<Service>),
    /// The result of another operation.
    Settled(Result<(), BleError>),
    /// The adapter to use.
    Initialized(Result<AdapterId, BleError>),
    /// The adapters of the host.
    Adapters(Result<Vec<AdapterId>, btleplug::Error>),
    /// The peripherals that the adapter has seen.
    Sighted(Vec<Sighting>),
    /// For each of the peripherals its description, or why there is none.
    Described(Vec<Result<BleDevice, BleError>>),
    /// What was read; `None` when the time limit passed first.
    Received(Option<Result<Vec<u8>, btleplug::Error>>),
}

/// The outcome of a step: an action to perform for the operation, or the result.
#[derive(Debug)]
pub enum Step<O, S, A, R> {
    Do(O, Action<S, A>),
    Done(R),
}

impl<O: View, S, A, R> Step<O, S, A, Result<R, BleError>> {
    /// The mathematical model of a step.
    pub open spec fn model(self) -> Step<O::V, S, A, Result<R, ErrorView>> {
        match self {
            Step::Do(op, action) => Step::Do(op@, action),
            Step::Done(r) => Step::Done(outcome(r)),
        }
    }
}

} // verus!

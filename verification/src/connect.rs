//! Connecting a device, in addition to those that are connected already.
use vstd::pervasive::unreached;
use vstd::prelude::*;

use crate::callbacks::OnDisconnectHandler;
use crate::connect_device::{
    connect_device_begin, connect_device_step, ConnectDevice, ConnectDeviceView, DeviceStep,
};
use crate::connection::{all_characs, collect_characs, ConnectionView};
use crate::error::{outcome, run_with_timeout, timed_outcome, BleError, ErrorView};
use crate::handler::{Handler, HandlerView};
use crate::models::{LockId, PeripheralId, Service};
use crate::step::{Action, Reply, Step};
use crate::text::same_text;

verus! {

/// How often a failed attempt is followed by another one.
pub const RETRIES: u32 = 2;

/// How long to wait before another attempt, in milliseconds.
pub const RETRY_PAUSE_MS: u64 = 1000;

/// How long to scan when no device was discovered yet, in milliseconds.
pub const SCAN_BEFORE_CONNECT_MS: u64 = 1000;

/// What the operation waits for.
#[derive(Debug)]
pub enum ConnectStage {
    /// That a scan was started.
    Scanning,
    /// That the scan was stopped.
    StoppingScan,
    /// A step of an attempt, after `failed` attempts that failed.
    Attempting { failed: u32, attempt: ConnectDevice },
    /// The end of the pause before the next attempt.
    Pausing { failed: u32 },
    /// That the link was told that the device is not connected any more.
    Retracting { error: BleError },
    /// That the services were discovered.
    Discovering { peripheral: PeripheralId, lock: LockId },
    /// The services.
    Listing { lock: LockId },
    /// That notifications are listened to.
    StartingToListen,
    /// That the callback has run.
    RunningCallback,
    /// That the change was announced.
    Announcing { result: Result<(), BleError> },
}

/// The operation that connects the device at `address`.
#[derive(Debug)]
pub struct Connect<S, A> {
    pub address: String,
    pub on_disconnect: OnDisconnectHandler<S, A>,
    pub allow_ibeacons: bool,
    pub stage: ConnectStage,
}

/// The mathematical model of [`ConnectStage`].
#[verifier::ext_equal]
pub enum ConnectStageView {
    Scanning,
    StoppingScan,
    Attempting { failed: u32, attempt: ConnectDeviceView },
    Pausing { failed: u32 },
    Retracting { error: ErrorView },
    Discovering { peripheral: PeripheralId, lock: LockId },
    Listing { lock: LockId },
    StartingToListen,
    RunningCallback,
    Announcing { result: Result<(), ErrorView> },
}

/// The mathematical model of [`Connect`].
#[verifier::ext_equal]
pub struct ConnectView<S, A> {
    pub address: Seq<char>,
    pub on_disconnect: OnDisconnectHandler<S, A>,
    pub allow_ibeacons: bool,
    pub stage: ConnectStageView,
}

impl View for ConnectStage {
    type V = ConnectStageView;

    open spec fn view(&self) -> ConnectStageView {
        match *self {
            ConnectStage::Scanning => ConnectStageView::Scanning,
            ConnectStage::StoppingScan => ConnectStageView::StoppingScan,
            ConnectStage::Attempting { failed, attempt } => ConnectStageView::Attempting {
                failed,
                attempt: attempt@,
            },
            ConnectStage::Pausing { failed } => ConnectStageView::Pausing { failed },
            ConnectStage::Retracting { error } => ConnectStageView::Retracting { error: error@ },
            ConnectStage::Discovering { peripheral, lock } => ConnectStageView::Discovering {
                peripheral,
                lock,
            },
            ConnectStage::Listing { lock } => ConnectStageView::Listing { lock },
            ConnectStage::StartingToListen => ConnectStageView::StartingToListen,
            ConnectStage::RunningCallback => ConnectStageView::RunningCallback,
            ConnectStage::Announcing { result } => ConnectStageView::Announcing {
                result: outcome(result),
            },
        }
    }
}

impl<S, A> View for Connect<S, A> {
    type V = ConnectView<S, A>;

    open spec fn view(&self) -> ConnectView<S, A> {
        ConnectView {
            address: self.address@,
            on_disconnect: self.on_disconnect,
            allow_ibeacons: self.allow_ibeacons,
            stage: self.stage@,
        }
    }
}

/// A step of the operation, with the handler after it.
pub type ConnectOutcome<S, A, C, T> = (
    HandlerView<S, A, C, T>,
    Step<ConnectView<S, A>, S, A, Result<(), ErrorView>>,
);

impl<S, A> ConnectView<S, A> {
    /// The operation in another stage.
    pub open spec fn at(self, stage: ConnectStageView) -> Self {
        ConnectView { stage, ..self }
    }

    /// The replies that the operation can go on with. A pause comes only before a retry.
    pub open spec fn awaits<C, T>(self, h: HandlerView<S, A, C, T>, reply: Reply) -> bool {
        match self.stage {
            ConnectStageView::Scanning => reply is Settled,
            ConnectStageView::StoppingScan => reply is Settled,
            ConnectStageView::Attempting { failed, attempt } => attempt.address == self.address
                && attempt.awaits(h, reply),
            ConnectStageView::Pausing { failed } => reply is Acknowledged && failed < RETRIES,
            ConnectStageView::Retracting { error } => reply is Acknowledged,
            ConnectStageView::Discovering { peripheral, lock } => reply is Timed,
            ConnectStageView::Listing { lock } => reply is Listed,
            ConnectStageView::StartingToListen => reply is Acknowledged,
            ConnectStageView::RunningCallback => reply is Acknowledged,
            ConnectStageView::Announcing { result } => reply is Acknowledged,
        }
    }

    /// The end: whether any device is connected is recomputed and, if that changed, announced
    /// before the result is given.
    pub open spec fn settle<C, T>(self, h: HandlerView<S, A, C, T>, result: Result<(), ErrorView>) -> ConnectOutcome<
        S,
        A,
        C,
        T,
    > {
        match h.refresh_news() {
            Some(any) => (
                h.refreshed(),
                Step::Do(self.at(ConnectStageView::Announcing { result }), Action::Announce(any)),
            ),
            None => (h.refreshed(), Step::Done(result)),
        }
    }

    /// After an attempt succeeded: the services are discovered under the lock of the
    /// connection.
    pub open spec fn connect_services<C, T>(self, h: HandlerView<S, A, C, T>) -> ConnectOutcome<S, A, C, T> {
        match h.connection_at(self.address) {
            Ok(c) => (
                h,
                Step::Do(
                    self.at(
                        ConnectStageView::Discovering { peripheral: c.peripheral, lock: c.lock },
                    ),
                    Action::DiscoverServices { peripheral: c.peripheral, guard: Some(c.lock) },
                ),
            ),
            Err(e) => self.settle(h, Err(e)),
        }
    }

    /// The connection is given up, and the error is the result. If the device counted as
    /// connected, its link is told that it does not any more.
    pub open spec fn give_up<C, T>(self, h: HandlerView<S, A, C, T>, error: ErrorView) -> ConnectOutcome<
        S,
        A,
        C,
        T,
    > {
        if h.is_connected_at(self.address) {
            let link = h.connections[self.address].link;
            (
                h.without(self.address).silenced(link),
                Step::Do(
                    self.at(ConnectStageView::Retracting { error }),
                    Action::SendLink { link, value: false },
                ),
            )
        } else {
            self.settle(h.without(self.address), Err(error))
        }
    }

    /// What follows a step of an attempt: another step of it; after success the services;
    /// after a failure a pause, or, when no retry is left, the connection is given up and the
    /// error is the result.
    pub open spec fn after_attempt<C, T>(
        self,
        h: HandlerView<S, A, C, T>,
        failed: u32,
        step: DeviceStep<S, A>,
    ) -> ConnectOutcome<S, A, C, T> {
        match step {
            Step::Do(attempt, action) => (
                h,
                Step::Do(self.at(ConnectStageView::Attempting { failed, attempt }), action),
            ),
            Step::Done(Ok(_)) => self.connect_services(h),
            Step::Done(Err(e)) => if failed < RETRIES {
                (
                    h,
                    Step::Do(
                        self.at(ConnectStageView::Pausing { failed }),
                        Action::Sleep(RETRY_PAUSE_MS),
                    ),
                )
            } else {
                self.give_up(h, e)
            },
        }
    }

    /// Another attempt begins.
    pub open spec fn attempt<C, T>(self, h: HandlerView<S, A, C, T>, failed: u32) -> ConnectOutcome<
        S,
        A,
        C,
        T,
    > {
        let (h1, step) = connect_device_begin(h, self.address);
        self.after_attempt(h1, failed, step)
    }

    /// When the services are known: the callback and the characteristics become those of the
    /// connection, and a new task listens to its notifications. `lock` is that of the
    /// connection. If it is gone by then, that is no error: the device has disconnected, so the
    /// callback runs.
    pub open spec fn set_up<C, T>(self, h: HandlerView<S, A, C, T>, lock: LockId, services: Seq<Service>) -> ConnectOutcome<
        S,
        A,
        C,
        T,
    > {
        if h.holds_lock(self.address, lock) {
            let c = h.connections[self.address];
            let task = h.next_token;
            (
                HandlerView {
                    connections: h.connections.insert(
                        self.address,
                        ConnectionView {
                            characs: all_characs(services),
                            on_disconnect: self.on_disconnect,
                            listen_task: Some(task),
                            ..c
                        },
                    ),
                    ..h.with_token()
                },
                Step::Do(
                    ConnectView {
                        on_disconnect: OnDisconnectHandler::Unset,
                        ..self.at(ConnectStageView::StartingToListen)
                    },
                    Action::StartListening {
                        peripheral: c.peripheral,
                        lock: c.lock,
                        task,
                        replaced: c.listen_task,
                    },
                ),
            )
        } else if self.on_disconnect is Unset {
            self.settle(h, Ok(()))
        } else {
            (
                h,
                Step::Do(
                    ConnectView {
                        on_disconnect: OnDisconnectHandler::Unset,
                        ..self.at(ConnectStageView::RunningCallback)
                    },
                    Action::RunCallback(self.on_disconnect),
                ),
            )
        }
    }
}

/// How the operation begins: a device that is connected already is refused; if no device was
/// discovered yet, a scan is started first; then any scan is stopped.
pub open spec fn connect_begin<S, A, C, T>(
    h: HandlerView<S, A, C, T>,
    address: Seq<char>,
    on_disconnect: OnDisconnectHandler<S, A>,
    allow_ibeacons: bool,
) -> Step<ConnectView<S, A>, S, A, Result<(), ErrorView>> {
    let op = ConnectView {
        address,
        on_disconnect,
        allow_ibeacons,
        stage: ConnectStageView::StoppingScan,
    };
    if h.tracks(address) {
        Step::Done(Err(ErrorView::AlreadyConnected))
    } else if h.devices.dom() =~= Set::<Seq<char>>::empty() {
        Step::Do(
            op.at(ConnectStageView::Scanning),
            Action::Discover { timeout: SCAN_BEFORE_CONNECT_MS, allow_ibeacons },
        )
    } else {
        Step::Do(op, Action::StopScan)
    }
}

/// How the operation goes on.
pub open spec fn connect_step<S, A, C, T>(
    h: HandlerView<S, A, C, T>,
    op: ConnectView<S, A>,
    reply: Reply,
) -> ConnectOutcome<S, A, C, T> {
    match (op.stage, reply) {
        (ConnectStageView::Scanning, Reply::Settled(Err(e))) => (h, Step::Done(Err(e@))),
        (ConnectStageView::Scanning, Reply::Settled(Ok(_))) => (
            h,
            Step::Do(op.at(ConnectStageView::StoppingScan), Action::StopScan),
        ),
        (ConnectStageView::StoppingScan, Reply::Settled(_)) => op.attempt(h, 0),
        (ConnectStageView::Attempting { failed, attempt }, _) => {
            let (h1, step) = connect_device_step(h, attempt, reply);
            op.after_attempt(h1, failed, step)
        },
        (ConnectStageView::Pausing { failed }, Reply::Acknowledged) => op.attempt(
            h,
            (failed + 1) as u32,
        ),
        (ConnectStageView::Retracting { error }, Reply::Acknowledged) => op.settle(h, Err(error)),
        (ConnectStageView::Discovering { peripheral, lock }, Reply::Timed(done)) => match timed_outcome(
            done,
            "discover services"@,
        ) {
            Ok(_) => (
                h,
                Step::Do(op.at(ConnectStageView::Listing { lock }), Action::ListServices(peripheral)),
            ),
            Err(e) => op.settle(h, Err(e)),
        },
        (ConnectStageView::Listing { lock }, Reply::Listed(services)) => op.set_up(h, lock, services@),
        (ConnectStageView::StartingToListen, Reply::Acknowledged) => op.settle(h, Ok(())),
        (ConnectStageView::RunningCallback, Reply::Acknowledged) => op.settle(h, Ok(())),
        (ConnectStageView::Announcing { result }, Reply::Acknowledged) => (h, Step::Done(result)),
        _ => arbitrary(),
    }
}

impl<S, A> Connect<S, A> {
    /// Whether the operation can go on with the reply.
    pub fn is_awaiting<C, T>(&self, handler: &Handler<S, A, C, T>, reply: &Reply) -> (r: bool)
        requires
            handler.wf(),
        ensures
            r == self@.awaits(handler@, *reply),
    {
        match (&self.stage, reply) {
            (ConnectStage::Scanning, Reply::Settled(_)) => true,
            (ConnectStage::StoppingScan, Reply::Settled(_)) => true,
            (ConnectStage::Attempting { failed: _, attempt }, _) => same_text(
                attempt.address.as_str(),
                self.address.as_str(),
            ) && attempt.is_awaiting(handler, reply),
            (ConnectStage::Pausing { failed }, Reply::Acknowledged) => *failed < RETRIES,
            (ConnectStage::Retracting { error: _ }, Reply::Acknowledged) => true,
            (ConnectStage::Discovering { peripheral: _, lock: _ }, Reply::Timed(_)) => true,
            (ConnectStage::Listing { lock: _ }, Reply::Listed(_)) => true,
            (ConnectStage::StartingToListen, Reply::Acknowledged) => true,
            (ConnectStage::RunningCallback, Reply::Acknowledged) => true,
            (ConnectStage::Announcing { result: _ }, Reply::Acknowledged) => true,
            _ => false,
        }
    }
}

/// The operation without its stage.
struct Request<S, A> {
    address: String,
    on_disconnect: OnDisconnectHandler<S, A>,
    allow_ibeacons: bool,
}

impl<S, A> Request<S, A> {
    spec fn model(self, stage: ConnectStageView) -> ConnectView<S, A> {
        ConnectView {
            address: self.address@,
            on_disconnect: self.on_disconnect,
            allow_ibeacons: self.allow_ibeacons,
            stage,
        }
    }

    fn at(self, stage: ConnectStage) -> (r: Connect<S, A>)
        ensures
            r@ == self.model(stage@),
    {
        Connect {
            address: self.address,
            on_disconnect: self.on_disconnect,
            allow_ibeacons: self.allow_ibeacons,
            stage,
        }
    }

    fn settle<C, T>(self, handler: &mut Handler<S, A, C, T>, result: Result<(), BleError>) -> (r: Step<
        Connect<S, A>,
        S,
        A,
        Result<(), BleError>,
    >)
        requires
            old(handler).wf(),
        ensures
            final(handler).wf(),
            forall|stage: ConnectStageView|
                (final(handler)@, r.model()) == (#[trigger] self.model(stage)).settle(
                    old(handler)@,
                    outcome(result),
                ),
    {
        match handler.refresh_aggregate_connected() {
            Some(any) => Step::Do(self.at(ConnectStage::Announcing { result }), Action::Announce(any)),
            None => Step::Done(result),
        }
    }

    fn connect_services<C, T>(self, handler: &mut Handler<S, A, C, T>) -> (r: Step<
        Connect<S, A>,
        S,
        A,
        Result<(), BleError>,
    >)
        requires
            old(handler).wf(),
        ensures
            final(handler).wf(),
            forall|stage: ConnectStageView|
                (final(handler)@, r.model()) == (#[trigger] self.model(stage)).connect_services(
                    old(handler)@,
                ),
    {
        let found = match handler.connection(self.address.as_str()) {
            Some(c) => Some((c.peripheral, c.lock)),
            None => None,
        };
        match found {
            Some((peripheral, lock)) => Step::Do(
                self.at(ConnectStage::Discovering { peripheral, lock }),
                Action::DiscoverServices { peripheral, guard: Some(lock) },
            ),
            None => self.settle(handler, Err(BleError::NoDeviceConnected)),
        }
    }

    fn give_up<C, T>(self, handler: &mut Handler<S, A, C, T>, error: BleError) -> (r: Step<
        Connect<S, A>,
        S,
        A,
        Result<(), BleError>,
    >)
        requires
            old(handler).wf(),
        ensures
            final(handler).wf(),
            forall|stage: ConnectStageView|
                (final(handler)@, r.model()) == (#[trigger] self.model(stage)).give_up(
                    old(handler)@,
                    error@,
                ),
    {
        match handler.give_up_connection(self.address.as_str()) {
            Some(link) => Step::Do(
                self.at(ConnectStage::Retracting { error }),
                Action::SendLink { link, value: false },
            ),
            None => self.settle(handler, Err(error)),
        }
    }

    fn after_attempt<C, T>(
        self,
        handler: &mut Handler<S, A, C, T>,
        failed: u32,
        step: Step<ConnectDevice, S, A, Result<(), BleError>>,
    ) -> (r: Step<Connect<S, A>, S, A, Result<(), BleError>>)
        requires
            old(handler).wf(),
        ensures
            final(handler).wf(),
            forall|stage: ConnectStageView|
                (final(handler)@, r.model()) == (#[trigger] self.model(stage)).after_attempt(
                    old(handler)@,
                    failed,
                    step.model(),
                ),
    {
        match step {
            Step::Do(attempt, action) => Step::Do(
                self.at(ConnectStage::Attempting { failed, attempt }),
                action,
            ),
            Step::Done(Ok(_)) => self.connect_services(handler),
            Step::Done(Err(e)) => {
                if failed < RETRIES {
                    Step::Do(
                        self.at(ConnectStage::Pausing { failed }),
                        Action::Sleep(RETRY_PAUSE_MS),
                    )
                } else {
                    self.give_up(handler, e)
                }
            },
        }
    }

    fn attempt<C, T>(self, handler: &mut Handler<S, A, C, T>, failed: u32) -> (r: Step<
        Connect<S, A>,
        S,
        A,
        Result<(), BleError>,
    >)
        requires
            old(handler).wf(),
            old(handler)@.has_tokens(),
        ensures
            final(handler).wf(),
            forall|stage: ConnectStageView|
                (final(handler)@, r.model()) == (#[trigger] self.model(stage)).attempt(
                    old(handler)@,
                    failed,
                ),
    {
        let step = handler.connect_device(self.address.as_str());
        self.after_attempt(handler, failed, step)
    }

    fn set_up<C, T>(self, handler: &mut Handler<S, A, C, T>, lock: LockId, services: &Vec<Service>) -> (r: Step<
        Connect<S, A>,
        S,
        A,
        Result<(), BleError>,
    >)
        requires
            old(handler).wf(),
            old(handler)@.next_token < u64::MAX,
        ensures
            final(handler).wf(),
            forall|stage: ConnectStageView|
                (final(handler)@, r.model()) == (#[trigger] self.model(stage)).set_up(
                    old(handler)@,
                    lock,
                    services@,
                ),
    {
        let mut this = self;
        let held = match handler.connection(this.address.as_str()) {
            Some(c) => c.lock == lock,
            None => false,
        };
        if !held {
            return match this.on_disconnect.take() {
                OnDisconnectHandler::Unset => this.settle(handler, Ok(())),
                callback => Step::Do(
                    this.at(ConnectStage::RunningCallback),
                    Action::RunCallback(callback),
                ),
            };
        }
        let ghost before = handler@;
        match handler.untrack(this.address.as_str()) {
            None => unreached(),
            Some(c) => {
                let mut c = c;
                let task = handler.fresh_token();
                let peripheral = c.peripheral;
                let replaced = c.listen_task;
                c.characs = collect_characs(services);
                c.on_disconnect = this.on_disconnect.take();
                c.listen_task = Some(task);
                handler.put_back(this.address.as_str(), c);
                assert(handler@.connections =~= before.connections.insert(this.address@, c@));
                Step::Do(
                    this.at(ConnectStage::StartingToListen),
                    Action::StartListening { peripheral, lock, task, replaced },
                )
            },
        }
    }
}

impl<S, A, C, T> Handler<S, A, C, T> {
    /// Connects the device at the address, in addition to those that are connected already.
    /// `on_disconnect` runs when it disconnects. An attempt that fails is repeated twice.
    pub fn connect(
        &self,
        address: &str,
        on_disconnect: OnDisconnectHandler<S, A>,
        allow_ibeacons: bool,
    ) -> (r: Step<Connect<S, A>, S, A, Result<(), BleError>>)
        requires
            self.wf(),
        ensures
            r.model() == connect_begin(self@, address@, on_disconnect, allow_ibeacons),
    {
        if self.has_connection(address) {
            return Step::Done(Err(BleError::AlreadyConnected));
        }
        let request = Request { address: address.to_owned(), on_disconnect, allow_ibeacons };
        if self.has_no_devices() {
            Step::Do(
                request.at(ConnectStage::Scanning),
                Action::Discover { timeout: SCAN_BEFORE_CONNECT_MS, allow_ibeacons },
            )
        } else {
            Step::Do(request.at(ConnectStage::StoppingScan), Action::StopScan)
        }
    }

    /// Goes on with connecting a device.
    pub fn resume_connect(&mut self, op: Connect<S, A>, reply: Reply) -> (r: Step<
        Connect<S, A>,
        S,
        A,
        Result<(), BleError>,
    >)
        requires
            old(self).wf(),
            old(self)@.has_tokens(),
            op@.awaits(old(self)@, reply),
        ensures
            final(self).wf(),
            (final(self)@, r.model()) == connect_step(old(self)@, op@, reply),
    {
        let ghost op0 = op@;
        let request = Request {
            address: op.address,
            on_disconnect: op.on_disconnect,
            allow_ibeacons: op.allow_ibeacons,
        };
        assert(request.model(op0.stage) == op0);
        match (op.stage, reply) {
            (ConnectStage::Scanning, Reply::Settled(Err(e))) => Step::Done(Err(e)),
            (ConnectStage::Scanning, Reply::Settled(Ok(_))) => Step::Do(
                request.at(ConnectStage::StoppingScan),
                Action::StopScan,
            ),
            (ConnectStage::StoppingScan, Reply::Settled(_)) => {
                request.attempt(self, 0)
            },
            (ConnectStage::Attempting { failed, attempt }, reply) => {
                let step = self.resume_connect_device(attempt, reply);
                request.after_attempt(self, failed, step)
            },
            (ConnectStage::Pausing { failed }, Reply::Acknowledged) => {
                request.attempt(self, failed + 1)
            },
            (ConnectStage::Retracting { error }, Reply::Acknowledged) => request.settle(
                self,
                Err(error),
            ),
            (ConnectStage::Discovering { peripheral, lock }, Reply::Timed(done)) => {
                match run_with_timeout(done, "discover services") {
                    Ok(_) => Step::Do(
                        request.at(ConnectStage::Listing { lock }),
                        Action::ListServices(peripheral),
                    ),
                    Err(e) => request.settle(self, Err(e)),
                }
            },
            (ConnectStage::Listing { lock }, Reply::Listed(services)) => request.set_up(
                self,
                lock,
                &services,
            ),
            (ConnectStage::StartingToListen, Reply::Acknowledged) => request.settle(self, Ok(())),
            (ConnectStage::RunningCallback, Reply::Acknowledged) => request.settle(self, Ok(())),
            (ConnectStage::Announcing { result }, Reply::Acknowledged) => Step::Done(result),
            _ => unreached(),
        }
    }
}

} // verus!

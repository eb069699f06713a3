//! Reading, writing and notifications.
use vstd::pervasive::unreached;
use vstd::prelude::*;

use crate::connection::{callbacks_for, find_charac, without_uuid, ConnectionView, Listener};
use crate::error::{
    adapter_outcome, outcome, run, run_with_timeout, timed_outcome, BleError, ErrorView,
};
use crate::handler::{Handler, HandlerView};
use crate::models::{Characteristic, LockId, LockName, PeripheralId, Uuid, WriteType};
use crate::step::{Action, Reply, Step};

verus! {

/// What an operation on a characteristic works with.
#[derive(Clone, Copy, Debug, PartialEq, Eq, Structural)]
pub struct Target {
    pub peripheral: PeripheralId,
    pub lock: LockId,
    pub charac: Characteristic,
}

impl<S, A, C, T> HandlerView<S, A, C, T> {
    /// The characteristic of the device at the address, with the peripheral and the lock of its
    /// connection.
    pub open spec fn target(self, address: Seq<char>, c: Uuid, service: Option<Uuid>) -> Result<
        Target,
        ErrorView,
    > {
        match self.connection_at(address) {
            Err(e) => Err(e),
            Ok(conn) => match find_charac(conn.characs, c, service) {
                Err(e) => Err(e),
                Ok(charac) => Ok(Target { peripheral: conn.peripheral, lock: conn.lock, charac }),
            },
        }
    }

    /// The characteristic of the only connected device.
    pub open spec fn default_target(self, c: Uuid, service: Option<Uuid>) -> Result<Target, ErrorView> {
        match self.default_address() {
            Ok(a) => self.target(a, c, service),
            Err(e) => Err(e),
        }
    }

    /// The connection that has the lock, if there is one, has one more listener.
    pub open spec fn with_listener(self, lock: LockId, listener: Listener<C>) -> Self {
        HandlerView {
            connections: self.connections.map_values(
                |c: ConnectionView<S, A, C>|
                    if c.lock == lock {
                        ConnectionView { listeners: c.listeners.push(listener), ..c }
                    } else {
                        c
                    },
            ),
            ..self
        }
    }

    /// The connection that has the lock, if there is one, has no listeners for the
    /// characteristic `uuid`.
    pub open spec fn without_listeners(self, lock: LockId, uuid: Uuid) -> Self {
        HandlerView {
            connections: self.connections.map_values(
                |c: ConnectionView<S, A, C>|
                    if c.lock == lock {
                        ConnectionView { listeners: without_uuid(c.listeners, uuid), ..c }
                    } else {
                        c
                    },
            ),
            ..self
        }
    }

    /// The listeners of the connection that has the lock.
    pub open spec fn listeners_of(self, lock: LockId) -> Seq<Listener<C>> {
        if self.lock_in_use(lock) {
            self.connections[choose|a: Seq<char>| self.holds_lock(a, lock)].listeners
        } else {
            Seq::empty()
        }
    }
}

/// The operation that sends data. It waits for the adapter to have written them.
#[derive(Clone, Copy, Debug, PartialEq, Eq, Structural)]
pub struct SendData;

/// The operation that receives data. It waits for what the adapter has read.
#[derive(Clone, Copy, Debug, PartialEq, Eq, Structural)]
pub struct RecvData;

/// What subscribing waits for.
#[derive(Clone, Copy, Debug, PartialEq, Eq, Structural)]
pub enum SubscribeStage {
    /// The lock of the connection, which it holds to its end.
    Locking,
    /// That the adapter has subscribed.
    Asking,
    /// That the callbacks of the connection's notifications have ended.
    Quieting,
}

/// The operation that subscribes to a characteristic.
#[derive(Debug)]
pub struct Subscribe<C> {
    pub target: Target,
    pub callback: C,
    pub stage: SubscribeStage,
}

/// What unsubscribing waits for.
#[derive(Clone, Copy, Debug, PartialEq, Eq, Structural)]
pub enum UnsubscribeStage {
    /// The lock of the connection, which it holds to its end.
    Locking,
    /// That the adapter has unsubscribed.
    Asking,
    /// That the callbacks of the notifications of the connection with that lock have ended.
    Quieting(LockId),
}

/// The operation that unsubscribes from a characteristic of the device at `address`.
#[derive(Debug)]
pub struct Unsubscribe {
    pub address: String,
    pub target: Target,
    pub stage: UnsubscribeStage,
}

/// The mathematical model of [`Unsubscribe`].
#[verifier::ext_equal]
pub struct UnsubscribeView {
    pub address: Seq<char>,
    pub target: Target,
    pub stage: UnsubscribeStage,
}

impl View for SendData {
    type V = SendData;

    open spec fn view(&self) -> SendData {
        *self
    }
}

impl View for RecvData {
    type V = RecvData;

    open spec fn view(&self) -> RecvData {
        *self
    }
}

impl<C> View for Subscribe<C> {
    type V = Subscribe<C>;

    open spec fn view(&self) -> Subscribe<C> {
        *self
    }
}

impl View for Unsubscribe {
    type V = UnsubscribeView;

    open spec fn view(&self) -> UnsubscribeView {
        UnsubscribeView { address: self.address@, target: self.target, stage: self.stage }
    }
}

/// How sending begins.
pub open spec fn send_begin<S, A>(target: Result<Target, ErrorView>, data: Vec<u8>, write_type: WriteType) -> Step<
    SendData,
    S,
    A,
    Result<(), ErrorView>,
> {
    match target {
        Err(e) => Step::Done(Err(e)),
        Ok(t) => Step::Do(
            SendData,
            Action::Write {
                peripheral: t.peripheral,
                lock: t.lock,
                charac: t.charac,
                data,
                write_type,
            },
        ),
    }
}

/// How receiving begins.
pub open spec fn recv_begin<S, A>(target: Result<Target, ErrorView>) -> Step<
    RecvData,
    S,
    A,
    Result<Vec<u8>, ErrorView>,
> {
    match target {
        Err(e) => Step::Done(Err(e)),
        Ok(t) => Step::Do(
            RecvData,
            Action::Read { peripheral: t.peripheral, lock: t.lock, charac: t.charac },
        ),
    }
}

/// How receiving ends.
pub open spec fn recv_end(done: Option<Result<Vec<u8>, btleplug::Error>>) -> Result<Vec<u8>, ErrorView> {
    timed_outcome(done, "read"@)
}

/// A step of subscribing.
pub type SubscribeStep<S, A, C> = Step<Subscribe<C>, S, A, Result<(), ErrorView>>;

/// A step of unsubscribing.
pub type UnsubscribeStep<S, A> = Step<UnsubscribeView, S, A, Result<(), ErrorView>>;

/// How subscribing begins: the lock of the connection is taken.
pub open spec fn subscribe_begin<S, A, C>(target: Result<Target, ErrorView>, callback: C) -> SubscribeStep<
    S,
    A,
    C,
> {
    match target {
        Err(e) => Step::Done(Err(e)),
        Ok(t) => Step::Do(
            Subscribe { target: t, callback, stage: SubscribeStage::Locking },
            Action::Lock(LockName::Device(t.lock)),
        ),
    }
}

impl<C> Subscribe<C> {
    /// The operation in another stage.
    pub open spec fn at(self, stage: SubscribeStage) -> Self {
        Subscribe { stage, ..self }
    }

    /// The name of the lock of the connection.
    pub open spec fn lock_name(self) -> LockName {
        LockName::Device(self.target.lock)
    }

    /// The listener that is added.
    pub open spec fn listener(self) -> Listener<C> {
        Listener {
            uuid: self.target.charac.uuid,
            service: self.target.charac.service_uuid,
            callback: self.callback,
        }
    }

    /// The replies that the operation can go on with. It takes the lock of the connection only
    /// where no other holds it, and then holds it to its end. It adds the listener only when no
    /// notification of the connection is being handed out.
    pub open spec fn awaits<S, A, T>(self, h: HandlerView<S, A, C, T>, reply: Reply) -> bool {
        match self.stage {
            SubscribeStage::Locking => reply is Acknowledged && !h.held.contains(self.lock_name()),
            SubscribeStage::Asking => reply is Timed && h.held.contains(self.lock_name()),
            SubscribeStage::Quieting => reply is Acknowledged && h.held.contains(self.lock_name())
                && !h.is_notifying(self.target.lock),
        }
    }

    /// Whether the operation can go on with the reply.
    pub fn is_awaiting<S, A, T>(&self, handler: &Handler<S, A, C, T>, reply: &Reply) -> (r: bool)
        ensures
            r == self.awaits(handler@, *reply),
    {
        let held = handler.is_held(LockName::Device(self.target.lock));
        match (self.stage, reply) {
            (SubscribeStage::Locking, Reply::Acknowledged) => !held,
            (SubscribeStage::Asking, Reply::Timed(_)) => held,
            (SubscribeStage::Quieting, Reply::Acknowledged) => held && !handler.is_held(
                LockName::Listeners(self.target.lock),
            ),
            _ => false,
        }
    }
}

/// How subscribing goes on: under the lock of the connection the adapter subscribes, and then
/// the callback listens to the characteristic.
pub open spec fn subscribe_step<S, A, C, T>(
    h: HandlerView<S, A, C, T>,
    op: Subscribe<C>,
    reply: Reply,
) -> (HandlerView<S, A, C, T>, SubscribeStep<S, A, C>) {
    match (op.stage, reply) {
        (SubscribeStage::Locking, Reply::Acknowledged) => (
            h.holding(op.lock_name()),
            Step::Do(
                op.at(SubscribeStage::Asking),
                Action::Subscribe { peripheral: op.target.peripheral, charac: op.target.charac },
            ),
        ),
        (SubscribeStage::Asking, Reply::Timed(done)) => match timed_outcome(done, "subscribe"@) {
            Ok(_) => (
                h,
                Step::Do(op.at(SubscribeStage::Quieting), Action::Quiet(op.target.lock)),
            ),
            Err(e) => (h.releasing(op.lock_name()), Step::Done(Err(e))),
        },
        (SubscribeStage::Quieting, Reply::Acknowledged) => (
            h.with_listener(op.target.lock, op.listener()).releasing(op.lock_name()),
            Step::Done(Ok(())),
        ),
        _ => arbitrary(),
    }
}

/// How unsubscribing begins: the lock of the connection is taken.
pub open spec fn unsubscribe_begin<S, A, C, T>(h: HandlerView<S, A, C, T>, address: Seq<char>, c: Uuid) -> UnsubscribeStep<
    S,
    A,
> {
    match h.target(address, c, None) {
        Err(e) => Step::Done(Err(e)),
        Ok(t) => Step::Do(
            UnsubscribeView { address, target: t, stage: UnsubscribeStage::Locking },
            Action::Lock(LockName::Device(t.lock)),
        ),
    }
}

/// How unsubscribing begins for the only connected device.
pub open spec fn unsubscribe_default_begin<S, A, C, T>(h: HandlerView<S, A, C, T>, c: Uuid) -> UnsubscribeStep<
    S,
    A,
> {
    match h.default_address() {
        Ok(a) => unsubscribe_begin(h, a, c),
        Err(e) => Step::Done(Err(e)),
    }
}

impl UnsubscribeView {
    /// The operation in another stage.
    pub open spec fn at(self, stage: UnsubscribeStage) -> Self {
        UnsubscribeView { stage, ..self }
    }

    /// The name of the lock of the connection.
    pub open spec fn lock_name(self) -> LockName {
        LockName::Device(self.target.lock)
    }

    /// The replies that the operation can go on with. It takes the lock of the connection only
    /// where no other holds it, and then holds it to its end. It takes listeners out only when
    /// no notification of their connection is being handed out.
    pub open spec fn awaits<S, A, C, T>(self, h: HandlerView<S, A, C, T>, reply: Reply) -> bool {
        match self.stage {
            UnsubscribeStage::Locking => reply is Acknowledged && !h.held.contains(self.lock_name()),
            UnsubscribeStage::Asking => reply is Timed && h.held.contains(self.lock_name()),
            UnsubscribeStage::Quieting(lock) => reply is Acknowledged && h.held.contains(
                self.lock_name(),
            ) && !h.is_notifying(lock),
        }
    }
}

impl Unsubscribe {
    /// Whether the operation can go on with the reply.
    pub fn is_awaiting<S, A, C, T>(&self, handler: &Handler<S, A, C, T>, reply: &Reply) -> (r: bool)
        ensures
            r == self@.awaits(handler@, *reply),
    {
        let held = handler.is_held(LockName::Device(self.target.lock));
        match (self.stage, reply) {
            (UnsubscribeStage::Locking, Reply::Acknowledged) => !held,
            (UnsubscribeStage::Asking, Reply::Timed(_)) => held,
            (UnsubscribeStage::Quieting(lock), Reply::Acknowledged) => held && !handler.is_held(
                LockName::Listeners(lock),
            ),
            _ => false,
        }
    }
}

/// How unsubscribing goes on: under the lock of the connection the adapter unsubscribes, and
/// then nothing listens to the characteristic any more. The device must still have a connection
/// when the adapter has unsubscribed.
pub open spec fn unsubscribe_step<S, A, C, T>(
    h: HandlerView<S, A, C, T>,
    op: UnsubscribeView,
    reply: Reply,
) -> (HandlerView<S, A, C, T>, UnsubscribeStep<S, A>) {
    match (op.stage, reply) {
        (UnsubscribeStage::Locking, Reply::Acknowledged) => (
            h.holding(op.lock_name()),
            Step::Do(
                op.at(UnsubscribeStage::Asking),
                Action::Unsubscribe { peripheral: op.target.peripheral, charac: op.target.charac },
            ),
        ),
        (UnsubscribeStage::Asking, Reply::Timed(done)) => match timed_outcome(done, "unsubscribe"@) {
            Ok(_) => match h.connection_at(op.address) {
                Ok(c) => (
                    h,
                    Step::Do(op.at(UnsubscribeStage::Quieting(c.lock)), Action::Quiet(c.lock)),
                ),
                Err(e) => (h.releasing(op.lock_name()), Step::Done(Err(e))),
            },
            Err(e) => (h.releasing(op.lock_name()), Step::Done(Err(e))),
        },
        (UnsubscribeStage::Quieting(lock), Reply::Acknowledged) => (
            h.without_listeners(lock, op.target.charac.uuid).releasing(op.lock_name()),
            Step::Done(Ok(())),
        ),
        _ => arbitrary(),
    }
}

fn begin_send<S, A>(target: Result<Target, BleError>, data: Vec<u8>, write_type: WriteType) -> (r: Step<
    SendData,
    S,
    A,
    Result<(), BleError>,
>)
    ensures
        r.model() == send_begin::<S, A>(outcome(target), data, write_type),
{
    match target {
        Err(e) => Step::Done(Err(e)),
        Ok(t) => Step::Do(
            SendData,
            Action::Write {
                peripheral: t.peripheral,
                lock: t.lock,
                charac: t.charac,
                data,
                write_type,
            },
        ),
    }
}

fn begin_recv<S, A>(target: Result<Target, BleError>) -> (r: Step<
    RecvData,
    S,
    A,
    Result<Vec<u8>, BleError>,
>)
    ensures
        r.model() == recv_begin::<S, A>(outcome(target)),
{
    match target {
        Err(e) => Step::Done(Err(e)),
        Ok(t) => Step::Do(
            RecvData,
            Action::Read { peripheral: t.peripheral, lock: t.lock, charac: t.charac },
        ),
    }
}

fn begin_subscribe<S, A, C>(target: Result<Target, BleError>, callback: C) -> (r: Step<
    Subscribe<C>,
    S,
    A,
    Result<(), BleError>,
>)
    ensures
        r.model() == subscribe_begin::<S, A, C>(outcome(target), callback),
{
    match target {
        Err(e) => Step::Done(Err(e)),
        Ok(t) => Step::Do(
            Subscribe { target: t, callback, stage: SubscribeStage::Locking },
            Action::Lock(LockName::Device(t.lock)),
        ),
    }
}

impl<S, A, C, T> Handler<S, A, C, T> {
    /// The characteristic of the device at the address, with the peripheral and the lock of its
    /// connection. With a service, the characteristic must be of that service.
    pub fn resolve_charac(&self, address: &str, c: Uuid, service: Option<Uuid>) -> (r: Result<
        Target,
        BleError,
    >)
        requires
            self.wf(),
        ensures
            outcome(r) == self@.target(address@, c, service),
    {
        match self.connection(address) {
            None => Err(BleError::NoDeviceConnected),
            Some(conn) => {
                let found = match service {
                    Some(s) => conn.get_charac_from_service(c, s),
                    None => conn.get_charac(c),
                };
                match found {
                    Ok(charac) => Ok(
                        Target { peripheral: conn.peripheral, lock: conn.lock, charac },
                    ),
                    Err(e) => Err(e),
                }
            },
        }
    }

    /// The characteristic of the only connected device.
    fn resolve_default_charac(&self, c: Uuid, service: Option<Uuid>) -> (r: Result<Target, BleError>)
        requires
            self.wf(),
        ensures
            outcome(r) == self@.default_target(c, service),
    {
        match self.default_address() {
            Ok(address) => self.resolve_charac(address.as_str(), c, service),
            Err(e) => Err(e),
        }
    }

    /// Sends data to a characteristic of the device at the address.
    pub fn send_data_to(
        &self,
        address: &str,
        c: Uuid,
        service: Option<Uuid>,
        data: Vec<u8>,
        write_type: WriteType,
    ) -> (r: Step<SendData, S, A, Result<(), BleError>>)
        requires
            self.wf(),
        ensures
            r.model() == send_begin::<S, A>(self@.target(address@, c, service), data, write_type),
            r matches Step::Do(_, action) ==> (action matches Action::Write {
                peripheral,
                lock,
                data: d,
                write_type: w,
                ..
            } && peripheral == self@.connections[address@].peripheral && lock
                == self@.connections[address@].lock && d@ == data@ && w == write_type),
    {
        begin_send(self.resolve_charac(address, c, service), data, write_type)
    }

    /// Sends data to a characteristic of the only connected device.
    pub fn send_data(&self, c: Uuid, service: Option<Uuid>, data: Vec<u8>, write_type: WriteType) -> (r: Step<
        SendData,
        S,
        A,
        Result<(), BleError>,
    >)
        requires
            self.wf(),
        ensures
            r.model() == send_begin::<S, A>(self@.default_target(c, service), data, write_type),
            r matches Step::Do(_, action) ==> (action matches Action::Write {
                data: d,
                write_type: w,
                ..
            } && d@ == data@ && w == write_type),
    {
        begin_send(self.resolve_default_charac(c, service), data, write_type)
    }

    /// Receives data from a characteristic of the device at the address.
    pub fn recv_data_from(&self, address: &str, c: Uuid, service: Option<Uuid>) -> (r: Step<
        RecvData,
        S,
        A,
        Result<Vec<u8>, BleError>,
    >)
        requires
            self.wf(),
        ensures
            r.model() == recv_begin::<S, A>(self@.target(address@, c, service)),
            r matches Step::Do(_, action) ==> (action matches Action::Read { peripheral, lock, .. }
                && peripheral == self@.connections[address@].peripheral && lock
                == self@.connections[address@].lock),
    {
        begin_recv(self.resolve_charac(address, c, service))
    }

    /// Receives data from a characteristic of the only connected device.
    pub fn recv_data(&self, c: Uuid, service: Option<Uuid>) -> (r: Step<
        RecvData,
        S,
        A,
        Result<Vec<u8>, BleError>,
    >)
        requires
            self.wf(),
        ensures
            r.model() == recv_begin::<S, A>(self@.default_target(c, service)),
    {
        begin_recv(self.resolve_default_charac(c, service))
    }

    /// Subscribes to the notifications of a characteristic of the device at the address.
    pub fn subscribe_to(&self, address: &str, c: Uuid, service: Option<Uuid>, callback: C) -> (r: Step<
        Subscribe<C>,
        S,
        A,
        Result<(), BleError>,
    >)
        requires
            self.wf(),
        ensures
            r.model() == subscribe_begin::<S, A, C>(self@.target(address@, c, service), callback),
            r matches Step::Do(op, action) ==> {
                &&& op.target.peripheral == self@.connections[address@].peripheral
                &&& op.target.lock == self@.connections[address@].lock
                &&& op.callback == callback
                &&& action == Action::<S, A>::Lock(LockName::Device(self@.connections[address@].lock))
            },
    {
        begin_subscribe(self.resolve_charac(address, c, service), callback)
    }

    /// Subscribes to the notifications of a characteristic of the only connected device.
    pub fn subscribe(&self, c: Uuid, service: Option<Uuid>, callback: C) -> (r: Step<
        Subscribe<C>,
        S,
        A,
        Result<(), BleError>,
    >)
        requires
            self.wf(),
        ensures
            r.model() == subscribe_begin::<S, A, C>(self@.default_target(c, service), callback),
    {
        begin_subscribe(self.resolve_default_charac(c, service), callback)
    }

    /// Unsubscribes from the notifications of a characteristic of the device at the address.
    pub fn unsubscribe_from(&self, address: &str, c: Uuid) -> (r: Step<
        Unsubscribe,
        S,
        A,
        Result<(), BleError>,
    >)
        requires
            self.wf(),
        ensures
            r.model() == unsubscribe_begin(self@, address@, c),
    {
        match self.resolve_charac(address, c, None) {
            Err(e) => Step::Done(Err(e)),
            Ok(t) => Step::Do(
                Unsubscribe {
                    address: address.to_owned(),
                    target: t,
                    stage: UnsubscribeStage::Locking,
                },
                Action::Lock(LockName::Device(t.lock)),
            ),
        }
    }

    /// Unsubscribes from the notifications of a characteristic of the only connected device.
    pub fn unsubscribe(&self, c: Uuid) -> (r: Step<Unsubscribe, S, A, Result<(), BleError>>)
        requires
            self.wf(),
        ensures
            r.model() == unsubscribe_default_begin(self@, c),
    {
        match self.default_address() {
            Ok(address) => self.unsubscribe_from(address.as_str(), c),
            Err(e) => Step::Done(Err(e)),
        }
    }

    /// Ends the sending of data with how the adapter's write ended.
    pub fn finish_send_data(&self, op: SendData, done: Result<(), btleplug::Error>) -> (r: Result<
        (),
        BleError,
    >)
        ensures
            outcome(r) == adapter_outcome(done),
            r is Ok == done is Ok,
            done matches Err(e) ==> r == Err::<(), BleError>(BleError::Btleplug(e)),
    {
        let _ = op;
        run(done)
    }

    /// Ends the receiving of data with what the adapter has read.
    pub fn finish_recv_data(&self, op: RecvData, done: Option<Result<Vec<u8>, btleplug::Error>>) -> (r: Result<
        Vec<u8>,
        BleError,
    >)
        ensures
            outcome(r) == timed_outcome(done, "read"@),
            outcome(r) == recv_end(done),
            done matches Some(Ok(data)) ==> (r matches Ok(received) && received@ == data@),
            done matches Some(Err(e)) ==> r == Err::<Vec<u8>, BleError>(BleError::Btleplug(e)),
            done is None ==> (r matches Err(BleError::Timeout(name)) && name@ == "read"@),
    {
        let _ = op;
        run_with_timeout(done, "read")
    }

    /// Goes on with subscribing.
    pub fn resume_subscribe(&mut self, op: Subscribe<C>, reply: Reply) -> (r: Step<
        Subscribe<C>,
        S,
        A,
        Result<(), BleError>,
    >)
        requires
            old(self).wf(),
            op.awaits(old(self)@, reply),
        ensures
            final(self).wf(),
            (final(self)@, r.model()) == subscribe_step(old(self)@, op, reply),
    {
        let mut op = op;
        let t = op.target;
        match (op.stage, reply) {
            (SubscribeStage::Locking, Reply::Acknowledged) => {
                self.hold(LockName::Device(t.lock));
                op.stage = SubscribeStage::Asking;
                Step::Do(op, Action::Subscribe { peripheral: t.peripheral, charac: t.charac })
            },
            (SubscribeStage::Asking, Reply::Timed(done)) => {
                match run_with_timeout(done, "subscribe") {
                    Ok(_) => {
                        op.stage = SubscribeStage::Quieting;
                        Step::Do(op, Action::Quiet(t.lock))
                    },
                    Err(e) => {
                        self.release(LockName::Device(t.lock));
                        Step::Done(Err(e))
                    },
                }
            },
            (SubscribeStage::Quieting, Reply::Acknowledged) => {
                let listener = Listener {
                    uuid: t.charac.uuid,
                    service: t.charac.service_uuid,
                    callback: op.callback,
                };
                self.add_listener(t.lock, listener);
                self.release(LockName::Device(t.lock));
                Step::Done(Ok(()))
            },
            _ => unreached(),
        }
    }

    fn add_listener(&mut self, lock: LockId, listener: Listener<C>)
        requires
            old(self).wf(),
        ensures
            final(self).wf(),
            final(self)@ == old(self)@.with_listener(lock, listener),
    {
        let ghost before = self@;
        match self.address_of_lock(lock) {
            None => {
                assert(self@.connections =~= before.with_listener(lock, listener).connections);
            },
            Some(address) => {
                match self.untrack(address.as_str()) {
                    None => unreached(),
                    Some(c) => {
                        let mut c = c;
                        c.listeners.push(listener);
                        self.put_back(address.as_str(), c);
                        assert(self@.connections =~= before.with_listener(lock, listener).connections);
                    },
                }
            },
        }
    }

    fn take_listeners(&mut self, lock: LockId, uuid: Uuid)
        requires
            old(self).wf(),
        ensures
            final(self).wf(),
            final(self)@ == old(self)@.without_listeners(lock, uuid),
    {
        let ghost before = self@;
        match self.address_of_lock(lock) {
            None => {
                assert(self@.connections =~= before.without_listeners(lock, uuid).connections);
            },
            Some(address) => {
                match self.untrack(address.as_str()) {
                    None => unreached(),
                    Some(c) => {
                        let mut c = c;
                        c.drop_listeners(uuid);
                        self.put_back(address.as_str(), c);
                        assert(self@.connections =~= before.without_listeners(lock, uuid).connections);
                    },
                }
            },
        }
    }

    /// Goes on with unsubscribing.
    pub fn resume_unsubscribe(&mut self, op: Unsubscribe, reply: Reply) -> (r: Step<
        Unsubscribe,
        S,
        A,
        Result<(), BleError>,
    >)
        requires
            old(self).wf(),
            op@.awaits(old(self)@, reply),
        ensures
            final(self).wf(),
            (final(self)@, r.model()) == unsubscribe_step(old(self)@, op@, reply),
    {
        let mut op = op;
        let t = op.target;
        match (op.stage, reply) {
            (UnsubscribeStage::Locking, Reply::Acknowledged) => {
                self.hold(LockName::Device(t.lock));
                op.stage = UnsubscribeStage::Asking;
                Step::Do(op, Action::Unsubscribe { peripheral: t.peripheral, charac: t.charac })
            },
            (UnsubscribeStage::Asking, Reply::Timed(done)) => {
                match run_with_timeout(done, "unsubscribe") {
                    Ok(_) => {
                        let found = match self.connection(op.address.as_str()) {
                            Some(c) => Some(c.lock),
                            None => None,
                        };
                        match found {
                            Some(lock) => {
                                op.stage = UnsubscribeStage::Quieting(lock);
                                Step::Do(op, Action::Quiet(lock))
                            },
                            None => {
                                self.release(LockName::Device(t.lock));
                                Step::Done(Err(BleError::NoDeviceConnected))
                            },
                        }
                    },
                    Err(e) => {
                        self.release(LockName::Device(t.lock));
                        Step::Done(Err(e))
                    },
                }
            },
            (UnsubscribeStage::Quieting(lock), Reply::Acknowledged) => {
                self.take_listeners(lock, t.charac.uuid);
                self.release(LockName::Device(t.lock));
                Step::Done(Ok(()))
            },
            _ => unreached(),
        }
    }

    /// The callbacks that a notification runs, in the order of their subscription. `lock` is
    /// that of the connection whose notifications are listened to; if it is gone, there are
    /// none.
    pub fn notified(&self, lock: LockId, uuid: Uuid, service: Uuid) -> (r: Vec<&C>)
        requires
            self.wf(),
        ensures
            r@.len() == callbacks_for(self@.listeners_of(lock), uuid, service).len(),
            forall|i: int|
                0 <= i < r@.len() ==> *(#[trigger] r@[i]) == callbacks_for(
                    self@.listeners_of(lock),
                    uuid,
                    service,
                )[i],
    {
        match self.address_of_lock(lock) {
            None => {
                assert forall|a: Seq<char>| !self@.holds_lock(a, lock) by {}
                Vec::new()
            },
            Some(address) => {
                assert(self@.holds_lock(address@, lock));
                match self.connection(address.as_str()) {
                    None => unreached(),
                    Some(c) => {
                        let ghost a = choose|a: Seq<char>| self@.holds_lock(a, lock);
                        assert(self@.holds_lock(a, lock));
                        assert(a == address@);
                        c.callbacks(uuid, service)
                    },
                }
            },
        }
    }
}

} // verus!

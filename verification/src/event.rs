//! Events of the adapter.
use vstd::pervasive::unreached;
use vstd::prelude::*;

use crate::callbacks::OnDisconnectHandler;
use crate::connection::ConnectionView;
use crate::error::{BleError, ErrorView};
use crate::handler::{Handler, HandlerView};
use crate::models::{LinkId, LockId, LockName, PeripheralId, TaskId};
use crate::step::{Action, Reply, Step};

verus! {

/// An event of the adapter.
#[derive(Clone, Copy, Debug, PartialEq, Eq, Structural)]
pub enum CentralEvent {
    DeviceConnected(PeripheralId),
    DeviceDisconnected(PeripheralId),
    /// Any other event.
    Other,
}

/// The operation that handles an event, by what it waits for.
#[derive(Debug)]
pub enum HandleEvent<S, A> {
    /// That the callbacks of its notifications have ended.
    Quieting {
        on_disconnect: OnDisconnectHandler<S, A>,
        link: LinkId,
        lock: LockId,
        task: Option<TaskId>,
    },
    /// That the task that hands out notifications was aborted.
    Aborting { on_disconnect: OnDisconnectHandler<S, A>, link: LinkId },
    /// That the callback has run.
    RunningCallback { link: LinkId },
    /// That the link was told.
    Signalling,
    /// That the change was announced.
    Announcing,
}

impl<S, A> View for HandleEvent<S, A> {
    type V = HandleEvent<S, A>;

    open spec fn view(&self) -> HandleEvent<S, A> {
        *self
    }
}

/// A step of handling an event.
pub type EventStep<S, A> = Step<HandleEvent<S, A>, S, A, Result<(), ErrorView>>;

impl<S, A> HandleEvent<S, A> {
    /// The replies that the operation can go on with. A connection is wound up only when no
    /// notification of it is being handed out.
    pub open spec fn awaits<C, T>(self, h: HandlerView<S, A, C, T>, reply: Reply) -> bool {
        reply is Acknowledged && (self matches HandleEvent::Quieting { lock, .. } ==> !h.is_notifying(lock))
    }

    /// Whether the operation can go on with the reply.
    pub fn is_awaiting<C, T>(&self, handler: &Handler<S, A, C, T>, reply: &Reply) -> (r: bool)
        ensures
            r == self.awaits(handler@, *reply),
    {
        let quiet = match self {
            HandleEvent::Quieting { on_disconnect: _, link: _, lock, task: _ } => !handler.is_held(
                LockName::Listeners(*lock),
            ),
            _ => true,
        };
        quiet && matches!(reply, Reply::Acknowledged)
    }
}

/// The address is that of a connection with the peripheral.
pub open spec fn is_address_of<S, A, C, T>(
    h: HandlerView<S, A, C, T>,
    address: Seq<char>,
    peripheral: PeripheralId,
) -> bool {
    h.tracks(address) && h.connections[address].peripheral == peripheral
}

/// How a connection that was given up is wound up: callbacks of its notifications that are
/// running end first, then its task is aborted if there is one, then its callback runs.
pub open spec fn wind_up<S, A, C>(c: ConnectionView<S, A, C>) -> EventStep<S, A> {
    Step::Do(
        HandleEvent::Quieting {
            on_disconnect: c.on_disconnect,
            link: c.link,
            lock: c.lock,
            task: c.listen_task,
        },
        Action::Quiet(c.lock),
    )
}

/// How the disconnection of a peripheral begins: the connection with it is given up and wound
/// up. If there is none, nothing happens.
pub open spec fn handle_disconnect_begin<S, A, C, T>(
    h: HandlerView<S, A, C, T>,
    peripheral: PeripheralId,
    h2: HandlerView<S, A, C, T>,
    step: EventStep<S, A>,
) -> bool {
    if exists|a: Seq<char>| is_address_of(h, a, peripheral) {
        exists|a: Seq<char>| #[trigger]
            is_address_of(h, a, peripheral) && h2 == h.without(a) && step == wind_up(h.connections[a])
    } else {
        h2 == h && step == EventStep::<S, A>::Done(Ok(()))
    }
}

/// How the connection of a peripheral begins: the device is connected from then on, and the
/// link of the connection with it is told. If there is none, nothing happens.
pub open spec fn handle_connect_begin<S, A, C, T>(
    h: HandlerView<S, A, C, T>,
    peripheral: PeripheralId,
    h2: HandlerView<S, A, C, T>,
    step: EventStep<S, A>,
) -> bool {
    if exists|a: Seq<char>| is_address_of(h, a, peripheral) {
        exists|a: Seq<char>| #[trigger]
            is_address_of(h, a, peripheral) && h2 == h.marked(a) && step == EventStep::<S, A>::Do(
                HandleEvent::Signalling,
                Action::SendLink { link: h.connections[a].link, value: true },
            )
    } else {
        h2 == h && step == EventStep::<S, A>::Done(Ok(()))
    }
}

/// How an event is begun to be handled.
pub open spec fn handle_event_begin<S, A, C, T>(
    h: HandlerView<S, A, C, T>,
    event: CentralEvent,
    h2: HandlerView<S, A, C, T>,
    step: EventStep<S, A>,
) -> bool {
    match event {
        CentralEvent::DeviceDisconnected(p) => handle_disconnect_begin(h, p, h2, step),
        CentralEvent::DeviceConnected(p) => handle_connect_begin(h, p, h2, step),
        CentralEvent::Other => h2 == h && step == EventStep::<S, A>::Done(Ok(())),
    }
}

/// The end of handling an event: whether any device is connected is recomputed and, if that
/// changed, announced.
pub open spec fn event_end<S, A, C, T>(h: HandlerView<S, A, C, T>) -> (
    HandlerView<S, A, C, T>,
    EventStep<S, A>,
) {
    (
        h.refreshed(),
        match h.refresh_news() {
            Some(any) => Step::Do(HandleEvent::Announcing, Action::Announce(any)),
            None => Step::Done(Ok(())),
        },
    )
}

/// How handling an event goes on. After the callback of a connection that was given up, its
/// link is told, unless the address has a new connection by then: the link is that one's. In
/// the end whether any device is connected is recomputed and, if that changed, announced.
pub open spec fn handle_event_step<S, A, C, T>(
    h: HandlerView<S, A, C, T>,
    op: HandleEvent<S, A>,
) -> (HandlerView<S, A, C, T>, EventStep<S, A>) {
    match op {
        HandleEvent::Quieting { on_disconnect, link, lock, task } => (
            h,
            match task {
                Some(task) => Step::Do(
                    HandleEvent::Aborting { on_disconnect, link },
                    Action::AbortTask(task),
                ),
                None => Step::Do(
                    HandleEvent::RunningCallback { link },
                    Action::RunCallback(on_disconnect),
                ),
            },
        ),
        HandleEvent::Aborting { on_disconnect, link } => (
            h,
            Step::Do(
                HandleEvent::RunningCallback { link },
                Action::RunCallback(on_disconnect),
            ),
        ),
        HandleEvent::RunningCallback { link } => if h.link_in_use(link) {
            event_end(h)
        } else {
            (
                h.silenced(link),
                Step::Do(HandleEvent::Signalling, Action::SendLink { link, value: false }),
            )
        },
        HandleEvent::Signalling => event_end(h),
        HandleEvent::Announcing => (h, Step::Done(Ok(()))),
    }
}

impl<S, A, C, T> Handler<S, A, C, T> {
    /// Handles the disconnection of a peripheral: its connection is given up, and the callback
    /// for that runs.
    pub fn handle_disconnect(&mut self, peripheral: PeripheralId) -> (r: Step<
        HandleEvent<S, A>,
        S,
        A,
        Result<(), BleError>,
    >)
        requires
            old(self).wf(),
        ensures
            final(self).wf(),
            handle_disconnect_begin(old(self)@, peripheral, final(self)@, r.model()),
    {
        let ghost before = self@;
        match self.address_of(peripheral) {
            None => Step::Done(Ok(())),
            Some(address) => {
                assert(is_address_of(before, address@, peripheral));
                match self.untrack(address.as_str()) {
                    None => unreached(),
                    Some(c) => {
                        let mut c = c;
                        let on_disconnect = c.on_disconnect.take();
                        let lock = c.lock;
                        Step::Do(
                            HandleEvent::Quieting {
                                on_disconnect,
                                link: c.link,
                                lock,
                                task: c.listen_task,
                            },
                            Action::Quiet(lock),
                        )
                    },
                }
            },
        }
    }

    fn end_event(&mut self) -> (r: Step<HandleEvent<S, A>, S, A, Result<(), BleError>>)
        requires
            old(self).wf(),
        ensures
            final(self).wf(),
            (final(self)@, r.model()) == event_end(old(self)@),
    {
        match self.refresh_aggregate_connected() {
            Some(any) => Step::Do(HandleEvent::Announcing, Action::Announce(any)),
            None => Step::Done(Ok(())),
        }
    }

    /// Handles the connection of a peripheral: the device is connected from then on, and the
    /// link of its connection is told.
    pub fn handle_connect(&mut self, peripheral: PeripheralId) -> (r: Step<
        HandleEvent<S, A>,
        S,
        A,
        Result<(), BleError>,
    >)
        requires
            old(self).wf(),
        ensures
            final(self).wf(),
            handle_connect_begin(old(self)@, peripheral, final(self)@, r.model()),
    {
        let ghost before = self@;
        match self.address_of(peripheral) {
            None => Step::Done(Ok(())),
            Some(address) => {
                assert(is_address_of(before, address@, peripheral));
                let link = match self.connection(address.as_str()) {
                    None => unreached(),
                    Some(c) => c.link,
                };
                self.mark(address.as_str());
                Step::Do(HandleEvent::Signalling, Action::SendLink { link, value: true })
            },
        }
    }

    /// Handles an event of the adapter.
    pub fn handle_event(&mut self, event: CentralEvent) -> (r: Step<
        HandleEvent<S, A>,
        S,
        A,
        Result<(), BleError>,
    >)
        requires
            old(self).wf(),
        ensures
            final(self).wf(),
            handle_event_begin(old(self)@, event, final(self)@, r.model()),
    {
        match event {
            CentralEvent::DeviceDisconnected(p) => self.handle_disconnect(p),
            CentralEvent::DeviceConnected(p) => self.handle_connect(p),
            CentralEvent::Other => Step::Done(Ok(())),
        }
    }

    /// Goes on with handling an event.
    pub fn resume_handle_event(&mut self, op: HandleEvent<S, A>, reply: Reply) -> (r: Step<
        HandleEvent<S, A>,
        S,
        A,
        Result<(), BleError>,
    >)
        requires
            old(self).wf(),
            op.awaits(old(self)@, reply),
        ensures
            final(self).wf(),
            (final(self)@, r.model()) == handle_event_step(old(self)@, op),
    {
        match op {
            HandleEvent::Quieting { on_disconnect, link, lock: _, task } => match task {
                Some(task) => Step::Do(
                    HandleEvent::Aborting { on_disconnect, link },
                    Action::AbortTask(task),
                ),
                None => Step::Do(
                    HandleEvent::RunningCallback { link },
                    Action::RunCallback(on_disconnect),
                ),
            },
            HandleEvent::Aborting { on_disconnect, link } => Step::Do(
                HandleEvent::RunningCallback { link },
                Action::RunCallback(on_disconnect),
            ),
            HandleEvent::RunningCallback { link } => {
                if self.is_link_in_use(link) {
                    self.end_event()
                } else {
                    self.silence(link);
                    Step::Do(HandleEvent::Signalling, Action::SendLink { link, value: false })
                }
            },
            HandleEvent::Signalling => self.end_event(),
            HandleEvent::Announcing => Step::Done(Ok(())),
        }
    }
}

} // verus!

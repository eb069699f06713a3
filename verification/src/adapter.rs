//! The adapter.
use vstd::pervasive::unreached;
use vstd::prelude::*;

use crate::error::{outcome, BleError, ErrorView};
use crate::handler::{Handler, HandlerView};
use crate::models::{AdapterId, AdapterState, CentralState, LockName};
use crate::step::{Action, Reply, Step};

verus! {

/// The operation that initializes the adapter, by what it waits for.
#[derive(Clone, Copy, Debug, PartialEq, Eq, Structural)]
pub enum InitAdapter {
    /// The lock, so that the adapter is initialized once.
    Locking,
    /// The adapters of the host.
    Listing,
    /// That the events of the adapter are listened to.
    Listening(AdapterId),
}

impl View for InitAdapter {
    type V = InitAdapter;

    open spec fn view(&self) -> InitAdapter {
        *self
    }
}

impl InitAdapter {
    /// The replies that the operation can go on with. It takes the lock only where no other
    /// holds it, and then holds it to its end.
    pub open spec fn awaits<S, A, C, T>(self, h: HandlerView<S, A, C, T>, reply: Reply) -> bool {
        match self {
            InitAdapter::Locking => reply is Acknowledged && !h.held.contains(LockName::Adapter),
            InitAdapter::Listing => reply is Adapters && h.held.contains(LockName::Adapter),
            InitAdapter::Listening(_) => reply is Acknowledged && h.held.contains(LockName::Adapter),
        }
    }

    /// Whether the operation can go on with the reply.
    pub fn is_awaiting<S, A, C, T>(&self, handler: &Handler<S, A, C, T>, reply: &Reply) -> (r: bool)
        ensures
            r == self.awaits(handler@, *reply),
    {
        let held = handler.is_held(LockName::Adapter);
        match (self, reply) {
            (InitAdapter::Locking, Reply::Acknowledged) => !held,
            (InitAdapter::Listing, Reply::Adapters(_)) => held,
            (InitAdapter::Listening(_), Reply::Acknowledged) => held,
            _ => false,
        }
    }
}

/// The adapter to use out of those of the host: the first one.
pub open spec fn central_of<D>(adapters: Seq<D>) -> Result<D, ErrorView> {
    if adapters.len() == 0 {
        Err(ErrorView::NoAdapters)
    } else {
        Ok(adapters[0])
    }
}

/// A step of the operation, with the handler after it.
pub type InitOutcome<S, A, C, T> = (
    HandlerView<S, A, C, T>,
    Step<InitAdapter, S, A, Result<AdapterId, ErrorView>>,
);

/// How the operation begins: an adapter that was initialized is used again.
pub open spec fn init_adapter_begin<S, A, C, T>(h: HandlerView<S, A, C, T>) -> Step<
    InitAdapter,
    S,
    A,
    Result<AdapterId, ErrorView>,
> {
    match h.adapter {
        Some(adapter) => Step::Done(Ok(adapter)),
        None => Step::Do(InitAdapter::Locking, Action::Lock(LockName::Adapter)),
    }
}

/// How the operation goes on: the first adapter's events are listened to, and from then on it
/// is the adapter. An adapter that was stored meanwhile is kept and given instead.
pub open spec fn init_adapter_step<S, A, C, T>(
    h: HandlerView<S, A, C, T>,
    op: InitAdapter,
    reply: Reply,
) -> InitOutcome<S, A, C, T> {
    match (op, reply) {
        (InitAdapter::Locking, Reply::Acknowledged) => match h.adapter {
            Some(adapter) => (h, Step::Done(Ok(adapter))),
            None => (
                h.holding(LockName::Adapter),
                Step::Do(InitAdapter::Listing, Action::ListAdapters),
            ),
        },
        (InitAdapter::Listing, Reply::Adapters(Err(e))) => (
            h.releasing(LockName::Adapter),
            Step::Done(Err(ErrorView::Btleplug(e))),
        ),
        (InitAdapter::Listing, Reply::Adapters(Ok(adapters))) => match central_of(adapters@) {
            Ok(adapter) => (
                h,
                Step::Do(InitAdapter::Listening(adapter), Action::ListenToEvents(adapter)),
            ),
            Err(e) => (h.releasing(LockName::Adapter), Step::Done(Err(e))),
        },
        (InitAdapter::Listening(adapter), Reply::Acknowledged) => match h.adapter {
            Some(stored) => (h.releasing(LockName::Adapter), Step::Done(Ok(stored))),
            None => (
                HandlerView { adapter: Some(adapter), ..h }.releasing(LockName::Adapter),
                Step::Done(Ok(adapter)),
            ),
        },
        _ => arbitrary(),
    }
}

/// The state of an adapter that reports so, or could not.
pub open spec fn state_of(reading: Result<Result<CentralState, btleplug::Error>, BleError>) -> AdapterState {
    match reading {
        Ok(Ok(CentralState::PoweredOn)) => AdapterState::On,
        Ok(Ok(CentralState::PoweredOff)) => AdapterState::Off,
        _ => AdapterState::Unknown,
    }
}

/// The adapter to use out of those of the host: the first one.
pub fn get_central<D>(adapters: Vec<D>) -> (r: Result<D, BleError>)
    ensures
        outcome(r) == central_of(adapters@),
{
    let mut adapters = adapters;
    if adapters.len() == 0 {
        Err(BleError::NoAdapters)
    } else {
        Ok(adapters.remove(0))
    }
}

impl<S, A, C, T> Handler<S, A, C, T> {
    /// Gives the adapter, and initializes it unless that was done.
    pub fn get_or_init_adapter(&self) -> (r: Step<InitAdapter, S, A, Result<AdapterId, BleError>>)
        requires
            self.wf(),
        ensures
            r.model() == init_adapter_begin(self@),
    {
        match self.adapter() {
            Some(adapter) => Step::Done(Ok(adapter)),
            None => Step::Do(InitAdapter::Locking, Action::Lock(LockName::Adapter)),
        }
    }

    /// Goes on with initializing the adapter.
    pub fn resume_init_adapter(&mut self, op: InitAdapter, reply: Reply) -> (r: Step<
        InitAdapter,
        S,
        A,
        Result<AdapterId, BleError>,
    >)
        requires
            old(self).wf(),
            op.awaits(old(self)@, reply),
        ensures
            final(self).wf(),
            (final(self)@, r.model()) == init_adapter_step(old(self)@, op, reply),
    {
        match (op, reply) {
            (InitAdapter::Locking, Reply::Acknowledged) => {
                match self.adapter() {
                    Some(adapter) => Step::Done(Ok(adapter)),
                    None => {
                        self.hold(LockName::Adapter);
                        Step::Do(InitAdapter::Listing, Action::ListAdapters)
                    },
                }
            },
            (InitAdapter::Listing, Reply::Adapters(Err(e))) => {
                self.release(LockName::Adapter);
                Step::Done(Err(BleError::Btleplug(e)))
            },
            (InitAdapter::Listing, Reply::Adapters(Ok(adapters))) => {
                match get_central(adapters) {
                    Ok(adapter) => Step::Do(
                        InitAdapter::Listening(adapter),
                        Action::ListenToEvents(adapter),
                    ),
                    Err(e) => {
                        self.release(LockName::Adapter);
                        Step::Done(Err(e))
                    },
                }
            },
            (InitAdapter::Listening(adapter), Reply::Acknowledged) => {
                match self.adapter() {
                    Some(stored) => {
                        self.release(LockName::Adapter);
                        Step::Done(Ok(stored))
                    },
                    None => {
                        self.set_adapter(adapter);
                        self.release(LockName::Adapter);
                        Step::Done(Ok(adapter))
                    },
                }
            },
            _ => unreached(),
        }
    }

    /// The state of the adapter. `reading` is what the adapter reports, or the error with which
    /// it could not be initialized; on an error of either kind the state is unknown.
    pub fn get_adapter_state(
        &self,
        reading: &Result<Result<CentralState, btleplug::Error>, BleError>,
    ) -> (r: AdapterState)
        ensures
            r == match *reading {
                Ok(Ok(CentralState::PoweredOn)) => AdapterState::On,
                Ok(Ok(CentralState::PoweredOff)) => AdapterState::Off,
                _ => AdapterState::Unknown,
            },
            r == state_of(*reading),
    {
        match reading {
            Ok(reported) => match reported {
                Ok(state) => match state {
                    CentralState::Unknown => AdapterState::Unknown,
                    CentralState::PoweredOn => AdapterState::On,
                    CentralState::PoweredOff => AdapterState::Off,
                },
                Err(_) => AdapterState::Unknown,
            },
            Err(_) => AdapterState::Unknown,
        }
    }
}

} // verus!

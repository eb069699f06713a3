//! Whole histories: any number of operations that take their steps in any order.
use vstd::prelude::*;

use crate::adapter::{init_adapter_step, InitAdapter};
use crate::callbacks::OnDisconnectHandler;
use crate::connect::{connect_begin, connect_step, ConnectView};
use crate::disconnect::{disconnect_begin, disconnect_step, DisconnectDevice, DisconnectStage, DisconnectStep};
use crate::error::ErrorView;
use crate::event::{
    handle_disconnect_begin, handle_event_begin, handle_event_step, is_address_of, wind_up,
    CentralEvent, EventStep, HandleEvent,
};
use crate::gatt::{subscribe_step, unsubscribe_step, Subscribe, UnsubscribeView};
use crate::handler::HandlerView;
use crate::laws::{
    links_are_kept, links_are_kept_by_disconnecting, links_are_kept_by_events, refreshing_is_lasting,
};
use crate::models::{LinkId, LockName};
use crate::scan::{
    discover_step, scan_task_begin, scan_task_step, stop_scan_step, Discover, ScanTaskStep,
    ScanTaskView, StopScan,
};
use crate::services::{services_begin, services_step, DiscoverServicesView, ServicesStep};
use crate::step::{Reply, Step};

verus! {

/// An operation that can change which devices are connected, as far as it has got.
pub enum Activity<S, A> {
    /// It has ended.
    Ended,
    Connecting(ConnectView<S, A>),
    Discovering(DiscoverServicesView),
    Handling(HandleEvent<S, A>),
    Disconnecting(DisconnectDevice<S, A>),
}

/// The handler and all operations that were begun.
pub struct SystemView<S, A, C, T> {
    pub handler: HandlerView<S, A, C, T>,
    pub activities: Seq<Activity<S, A>>,
}

/// What is left of connecting after a step.
pub open spec fn connecting<S, A>(step: Step<ConnectView<S, A>, S, A, Result<(), ErrorView>>) -> Activity<
    S,
    A,
> {
    match step {
        Step::Do(op, _) => Activity::Connecting(op),
        Step::Done(_) => Activity::Ended,
    }
}

/// What is left of discovering services after a step.
pub open spec fn discovering<S, A>(step: ServicesStep<S, A>) -> Activity<S, A> {
    match step {
        Step::Do(op, _) => Activity::Discovering(op),
        Step::Done(_) => Activity::Ended,
    }
}

/// What is left of handling an event after a step.
pub open spec fn handling<S, A>(step: EventStep<S, A>) -> Activity<S, A> {
    match step {
        Step::Do(op, _) => Activity::Handling(op),
        Step::Done(_) => Activity::Ended,
    }
}

/// What is left of disconnecting after a step.
pub open spec fn disconnecting<S, A>(step: DisconnectStep<S, A>) -> Activity<S, A> {
    match step {
        Step::Do(op, _) => Activity::Disconnecting(op),
        Step::Done(_) => Activity::Ended,
    }
}

/// An operation begins, and `begun` is what is left of it.
pub open spec fn begins<S, A, C, T>(
    h: HandlerView<S, A, C, T>,
    h2: HandlerView<S, A, C, T>,
    begun: Activity<S, A>,
) -> bool {
    ||| h2 == h && exists|address: Seq<char>, on_disconnect: OnDisconnectHandler<S, A>, allow: bool|
        begun == connecting(#[trigger] connect_begin(h, address, on_disconnect, allow))
    ||| h2 == h && exists|address: Seq<char>| begun == discovering(#[trigger] services_begin(h, address))
    ||| h2 == h && exists|address: Seq<char>| begun == disconnecting(#[trigger] disconnect_begin(h, address))
    ||| exists|event: CentralEvent, step: EventStep<S, A>| #[trigger]
        handle_event_begin(h, event, h2, step) && begun == handling(step)
}

/// An operation goes on with a reply, and `rest` is what is left of it.
pub open spec fn goes_on<S, A, C, T>(
    h: HandlerView<S, A, C, T>,
    activity: Activity<S, A>,
    reply: Reply,
    h2: HandlerView<S, A, C, T>,
    rest: Activity<S, A>,
) -> bool {
    match activity {
        Activity::Ended => false,
        Activity::Connecting(op) => {
            &&& op.awaits(h, reply)
            &&& h2 == connect_step(h, op, reply).0
            &&& rest == connecting(connect_step(h, op, reply).1)
        },
        Activity::Discovering(op) => {
            &&& op.awaits(h, reply)
            &&& h2 == services_step(h, op, reply).0
            &&& rest == discovering(services_step(h, op, reply).1)
        },
        Activity::Handling(op) => {
            &&& op.awaits(h, reply)
            &&& h2 == handle_event_step(h, op).0
            &&& rest == handling(handle_event_step(h, op).1)
        },
        Activity::Disconnecting(op) => {
            &&& op.awaits(h, reply)
            &&& exists|step: DisconnectStep<S, A>| #[trigger]
                disconnect_step(h, op, reply, h2, step) && rest == disconnecting(step)
        },
    }
}

/// Nothing changed of which devices have a connection and are connected, of the links and of
/// the flag.
pub open spec fn stands_still<S, A, C, T>(h: HandlerView<S, A, C, T>, h2: HandlerView<S, A, C, T>) -> bool {
    &&& h2.links == h.links
    &&& h2.connected == h.connected
    &&& forall|a: Seq<char>| #[trigger] h2.tracks(a) == h.tracks(a)
    &&& forall|a: Seq<char>| #[trigger] h2.is_connected_at(a) == h.is_connected_at(a)
}

/// All other operations leave this as it is: scanning, initializing the adapter, subscribing and
/// unsubscribing, taking and giving back locks, and whatever else leaves the connections, the
/// links and the flag alone.
pub proof fn other_operations_stand_still<S, A, C, T>(
    h: HandlerView<S, A, C, T>,
    discover: Discover,
    stop: StopScan,
    init: InitAdapter,
    scan: ScanTaskView,
    reply: Reply,
    h2: HandlerView<S, A, C, T>,
    step: ScanTaskStep<S, A>,
    subscription: Subscribe<C>,
    unsubscription: UnsubscribeView,
    name: LockName,
)
    ensures
        discover.awaits(h, reply) ==> stands_still(h, discover_step(h, discover, reply).0),
        stop.awaits(h, reply) ==> stands_still(h, stop_scan_step(h, stop, reply).0),
        init.awaits(h, reply) ==> stands_still(h, init_adapter_step(h, init, reply).0),
        stands_still(h, scan_task_begin(h, scan).0),
        scan_task_step(h, scan, reply, h2, step) ==> stands_still(h, h2),
        subscription.awaits(h, reply) ==> stands_still(h, subscribe_step(h, subscription, reply).0),
        unsubscription.awaits(h, reply) ==> stands_still(
            h,
            unsubscribe_step(h, unsubscription, reply).0,
        ),
        h2.connections == h.connections && h2.links == h.links && h2.connected == h.connected
            ==> stands_still(h, h2),
        stands_still(h, h.holding(name)),
        stands_still(h, h.releasing(name)),
{
}

/// One thing happens: an operation begins, or one goes on, or the flag is recomputed, or
/// something else that leaves the connections as they are.
pub open spec fn moves<S, A, C, T>(s: SystemView<S, A, C, T>, s2: SystemView<S, A, C, T>) -> bool {
    ||| exists|begun: Activity<S, A>| #[trigger]
        begins(s.handler, s2.handler, begun) && s2.activities == s.activities.push(begun)
    ||| exists|i: int, reply: Reply, rest: Activity<S, A>|
        0 <= i < s.activities.len() && #[trigger] goes_on(
            s.handler,
            s.activities[i],
            reply,
            s2.handler,
            rest,
        ) && s2.activities == s.activities.update(i, rest)
    ||| s2.handler == s.handler.refreshed() && s2.activities == s.activities
    ||| stands_still(s.handler, s2.handler) && s2.activities == s.activities
}

/// The states follow one another from a new handler on.
pub open spec fn is_history<S, A, C, T>(history: Seq<SystemView<S, A, C, T>>) -> bool {
    &&& history.len() > 0
    &&& history[0].handler.connections.dom() =~= Set::<Seq<char>>::empty()
    &&& history[0].handler.links.dom() =~= Set::<Seq<char>>::empty()
    &&& !history[0].handler.connected
    &&& history[0].activities.len() == 0
    &&& forall|i: int| 0 <= i < history.len() ==> (#[trigger] history[i]).handler.inv()
    &&& forall|i: int| 0 < i < history.len() ==> #[trigger] moves(history[i - 1], history[i])
}

/// No operation is under way.
pub open spec fn at_rest<S, A, C, T>(s: SystemView<S, A, C, T>) -> bool {
    forall|i: int| 0 <= i < s.activities.len() ==> (#[trigger] s.activities[i]) is Ended
}

/// Handling the event ends with the flag recomputed.
spec fn event_owes<S, A>(op: HandleEvent<S, A>) -> bool {
    !(op is Announcing)
}

/// The operation ends with the flag recomputed.
spec fn owes_refresh<S, A>(activity: Activity<S, A>) -> bool {
    match activity {
        Activity::Ended => false,
        Activity::Connecting(op) => !(op.stage is Scanning) && !(op.stage is StoppingScan) && !(
        op.stage is Announcing),
        Activity::Discovering(op) => !op.already_connected && !(op.stage is Querying) && !(
        op.stage is Announcing),
        Activity::Handling(op) => event_owes(op),
        Activity::Disconnecting(op) => op.stage matches DisconnectStage::WindingUp(w) && event_owes(w),
    }
}

/// The link will be told that its device is not connected.
spec fn event_owes_word<S, A>(op: HandleEvent<S, A>, l: LinkId) -> bool {
    match op {
        HandleEvent::Quieting { on_disconnect, link, lock, task } => link == l,
        HandleEvent::Aborting { on_disconnect, link } => link == l,
        HandleEvent::RunningCallback { link } => link == l,
        _ => false,
    }
}

/// The link will be told that its device is not connected.
spec fn owes_word<S, A>(activity: Activity<S, A>, l: LinkId) -> bool {
    match activity {
        Activity::Handling(op) => event_owes_word(op, l),
        Activity::Disconnecting(op) => op.stage matches DisconnectStage::WindingUp(w)
            && event_owes_word(w, l),
        _ => false,
    }
}

/// A device that was connected before is only looked at.
spec fn is_sound<S, A>(activity: Activity<S, A>) -> bool {
    activity matches Activity::Discovering(op) ==> op.already_connected ==> op.stage is Checking
        || op.stage is Discovering || op.stage is Listing
}

/// The flag says whether any device is connected.
spec fn flag_is_right<S, A, C, T>(h: HandlerView<S, A, C, T>) -> bool {
    h.connected == h.any_connected()
}

/// The link of the address was left saying that the device is connected.
spec fn is_stale<S, A, C, T>(h: HandlerView<S, A, C, T>, a: Seq<char>) -> bool {
    h.links.dom().contains(a) && h.links[a].told && !h.tracks(a)
}

/// Whatever is not right is owed by an operation under way.
spec fn is_settled<S, A, C, T>(s: SystemView<S, A, C, T>) -> bool {
    &&& forall|i: int| 0 <= i < s.activities.len() ==> is_sound(#[trigger] s.activities[i])
    &&& flag_is_right(s.handler) || exists|i: int|
        0 <= i < s.activities.len() && owes_refresh(#[trigger] s.activities[i])
    &&& forall|a: Seq<char>| #[trigger]
        is_stale(s.handler, a) ==> exists|i: int|
            0 <= i < s.activities.len() && owes_word(#[trigger] s.activities[i], s.handler.links[a].link)
}

/// What one step of one operation may leave undone, it owes.
spec fn pays<S, A, C, T>(
    h: HandlerView<S, A, C, T>,
    before: Activity<S, A>,
    h2: HandlerView<S, A, C, T>,
    after: Activity<S, A>,
) -> bool {
    &&& is_sound(after)
    &&& owes_refresh(after) || flag_is_right(h2) || (!owes_refresh(before) && (flag_is_right(h)
        ==> flag_is_right(h2)))
    &&& forall|a: Seq<char>| #[trigger]
        is_stale(h2, a) ==> owes_word(after, h2.links[a].link) || (is_stale(h, a) && h2.links[a].link
            == h.links[a].link && !owes_word(before, h.links[a].link))
}

proof fn same_any<S, A, C, T>(h: HandlerView<S, A, C, T>, h2: HandlerView<S, A, C, T>)
    requires
        forall|a: Seq<char>| #[trigger] h2.is_connected_at(a) == h.is_connected_at(a),
    ensures
        h2.any_connected() == h.any_connected(),
{
    if h.any_connected() {
        let a = choose|a: Seq<char>| h.is_connected_at(a);
        assert(h2.is_connected_at(a));
    }
    if h2.any_connected() {
        let a = choose|a: Seq<char>| h2.is_connected_at(a);
        assert(h.is_connected_at(a));
    }
}

proof fn connecting_pays<S, A, C, T>(h: HandlerView<S, A, C, T>, op: ConnectView<S, A>, reply: Reply)
    requires
        h.inv(),
        op.awaits(h, reply),
    ensures
        ({
            let (h2, step) = connect_step(h, op, reply);
            pays(h, Activity::Connecting(op), h2, connecting(step))
        }),
{
    refreshing_is_lasting::<S, A, C, T>();
}

proof fn discovering_pays<S, A, C, T>(h: HandlerView<S, A, C, T>, op: DiscoverServicesView, reply: Reply)
    requires
        h.inv(),
        op.awaits(h, reply),
        is_sound(Activity::<S, A>::Discovering(op)),
    ensures
        ({
            let (h2, step) = services_step(h, op, reply);
            pays(h, Activity::Discovering(op), h2, discovering(step))
        }),
{
    refreshing_is_lasting::<S, A, C, T>();
}

proof fn handling_pays<S, A, C, T>(h: HandlerView<S, A, C, T>, op: HandleEvent<S, A>)
    requires
        h.inv(),
    ensures
        ({
            let (h2, step) = handle_event_step(h, op);
            pays(h, Activity::Handling(op), h2, handling(step))
        }),
{
    refreshing_is_lasting::<S, A, C, T>();
    let h2 = handle_event_step(h, op).0;
    if let HandleEvent::RunningCallback { link } = op {
        if h.link_in_use(link) {
            let b = choose|b: Seq<char>| h.holds_link(b, link);
            assert forall|a: Seq<char>| #[trigger] is_stale(h2, a) implies h.links[a].link != link by {
                if h.links[a].link == link {
                    assert(h.links.dom().contains(a) && h.links.dom().contains(b));
                }
            }
        }
    }
}

proof fn events_pay<S, A, C, T>(
    h: HandlerView<S, A, C, T>,
    event: CentralEvent,
    h2: HandlerView<S, A, C, T>,
    step: EventStep<S, A>,
)
    requires
        h.inv(),
        handle_event_begin(h, event, h2, step),
    ensures
        pays(h, Activity::<S, A>::Ended, h2, handling(step)),
{
    assert forall|a: Seq<char>| #[trigger] is_stale(h2, a) implies owes_word(
        handling(step),
        h2.links[a].link,
    ) || (is_stale(h, a) && h2.links[a].link == h.links[a].link) by {
        if let CentralEvent::DeviceDisconnected(p) = event {
            if exists|b: Seq<char>| is_address_of(h, b, p) {
                let b = choose|b: Seq<char>| #[trigger]
                    is_address_of(h, b, p) && h2 == h.without(b) && step == wind_up(
                        h.connections[b],
                    );
                if a == b {
                    assert(h.tracks(b));
                }
            }
        }
    }
}

proof fn disconnecting_pays<S, A, C, T>(
    h: HandlerView<S, A, C, T>,
    op: DisconnectDevice<S, A>,
    reply: Reply,
    h2: HandlerView<S, A, C, T>,
    step: DisconnectStep<S, A>,
)
    requires
        h.inv(),
        disconnect_step(h, op, reply, h2, step),
    ensures
        pays(h, Activity::Disconnecting(op), h2, disconnecting(step)),
{
    match (op.stage, reply) {
        (DisconnectStage::Querying, Reply::Queried(q)) => {
            if q != Ok::<bool, btleplug::Error>(true) {
                let s = choose|s: EventStep<S, A>| #[trigger]
                    handle_disconnect_begin(h, op.peripheral, h2, s) && step
                        == op.after_winding_up(s);
                assert(handle_event_begin(h, CentralEvent::DeviceDisconnected(op.peripheral), h2, s));
                events_pay(h, CentralEvent::DeviceDisconnected(op.peripheral), h2, s);
            }
        },
        (DisconnectStage::WindingUp(w), Reply::Acknowledged) => {
            handling_pays(h, w);
        },
        _ => {},
    }
}

proof fn one_move<S, A, C, T>(s: SystemView<S, A, C, T>, s2: SystemView<S, A, C, T>)
    requires
        s.handler.inv(),
        s2.handler.inv(),
        is_settled(s),
        moves(s, s2),
    ensures
        is_settled(s2),
{
    let h = s.handler;
    let h2 = s2.handler;
    if exists|begun: Activity<S, A>| #[trigger]
        begins(h, h2, begun) && s2.activities == s.activities.push(begun) {
        let begun = choose|begun: Activity<S, A>| #[trigger]
            begins(h, h2, begun) && s2.activities == s.activities.push(begun);
        assert(pays(h, Activity::<S, A>::Ended, h2, begun)) by {
            if exists|event: CentralEvent, step: EventStep<S, A>| #[trigger]
                handle_event_begin(h, event, h2, step) && begun == handling(step) {
                let (event, step) = choose|event: CentralEvent, step: EventStep<S, A>| #[trigger]
                    handle_event_begin(h, event, h2, step) && begun == handling(step);
                events_pay(h, event, h2, step);
            }
        }
        let n = s.activities.len() as int;
        assert(s2.activities[n] == begun);
        assert forall|i: int| 0 <= i < n implies s2.activities[i] == #[trigger] s.activities[i] by {}
        after_paying(s, s2, Activity::Ended, begun, n);
    } else if exists|i: int, reply: Reply, rest: Activity<S, A>|
        0 <= i < s.activities.len() && #[trigger] goes_on(h, s.activities[i], reply, h2, rest)
            && s2.activities == s.activities.update(i, rest) {
        let (i, reply, rest) = choose|i: int, reply: Reply, rest: Activity<S, A>|
            0 <= i < s.activities.len() && #[trigger] goes_on(h, s.activities[i], reply, h2, rest)
                && s2.activities == s.activities.update(i, rest);
        let before = s.activities[i];
        assert(pays(h, before, h2, rest)) by {
            match before {
                Activity::Ended => {},
                Activity::Connecting(op) => {
                    connecting_pays(h, op, reply);
                },
                Activity::Discovering(op) => {
                    discovering_pays(h, op, reply);
                },
                Activity::Handling(op) => {
                    handling_pays(h, op);
                },
                Activity::Disconnecting(op) => {
                    let step = choose|step: DisconnectStep<S, A>| #[trigger]
                        disconnect_step(h, op, reply, h2, step) && rest == disconnecting(step);
                    disconnecting_pays(h, op, reply, h2, step);
                },
            }
        }
        after_paying(s, s2, before, rest, i);
    } else {
        if h2 == h.refreshed() {
            refreshing_is_lasting::<S, A, C, T>();
        } else {
            same_any(h, h2);
        }
        assert forall|a: Seq<char>| #[trigger] is_stale(h2, a) implies exists|i: int|
            0 <= i < s2.activities.len() && owes_word(#[trigger] s2.activities[i], h2.links[a].link) by {
            assert(h2.tracks(a) == h.tracks(a));
            assert(is_stale(h, a));
        }
    }
}

proof fn after_paying<S, A, C, T>(
    s: SystemView<S, A, C, T>,
    s2: SystemView<S, A, C, T>,
    before: Activity<S, A>,
    after: Activity<S, A>,
    n: int,
)
    requires
        is_settled(s),
        pays(s.handler, before, s2.handler, after),
        0 <= n < s2.activities.len(),
        s2.activities[n] == after,
        s2.activities.len() >= s.activities.len(),
        s2.activities.len() <= s.activities.len() + 1,
        s2.activities.len() == s.activities.len() + 1 ==> n == s.activities.len() && before is Ended,
        n < s.activities.len() ==> before == s.activities[n],
        forall|i: int| 0 <= i < s.activities.len() && i != n ==> s2.activities[i] == #[trigger] s.activities[i],
    ensures
        is_settled(s2),
{
    let h = s.handler;
    let h2 = s2.handler;
    assert forall|i: int| 0 <= i < s2.activities.len() implies is_sound(#[trigger] s2.activities[i]) by {
        if i != n {
            assert(s2.activities[i] == s.activities[i]);
        }
    }
    if !flag_is_right(h2) {
        if !owes_refresh(after) {
            let i = choose|i: int| 0 <= i < s.activities.len() && owes_refresh(#[trigger] s.activities[i]);
            assert(i != n);
            assert(owes_refresh(s2.activities[i]));
        } else {
            assert(owes_refresh(s2.activities[n]));
        }
    }
    assert forall|a: Seq<char>| #[trigger] is_stale(h2, a) implies exists|i: int|
        0 <= i < s2.activities.len() && owes_word(#[trigger] s2.activities[i], h2.links[a].link) by {
        let l = h2.links[a].link;
        if owes_word(after, l) {
            assert(owes_word(s2.activities[n], l));
        } else {
            assert(is_stale(h, a));
            let i = choose|i: int| 0 <= i < s.activities.len() && owes_word(#[trigger] s.activities[i], l);
            assert(i != n);
            assert(owes_word(s2.activities[i], l));
        }
    }
}

proof fn histories_are_settled<S, A, C, T>(history: Seq<SystemView<S, A, C, T>>)
    requires
        is_history(history),
    ensures
        is_settled(history.last()),
    decreases history.len(),
{
    if history.len() > 1 {
        let before = history.drop_last();
        assert(is_history(before)) by {
            assert forall|i: int| 0 <= i < before.len() implies (#[trigger] before[i]).handler.inv() by {
                assert(before[i] == history[i]);
            }
            assert forall|i: int| 0 < i < before.len() implies #[trigger] moves(before[i - 1], before[i]) by {
                assert(moves(history[i - 1], history[i]));
            }
        }
        histories_are_settled(before);
        let n = history.len() - 1;
        assert(moves(history[n - 1], history[n]));
        one_move(history[n - 1], history[n]);
    } else {
        let h = history[0].handler;
        assert(flag_is_right(h)) by {
            assert forall|a: Seq<char>| !h.is_connected_at(a) by {}
        }
        assert forall|a: Seq<char>| !is_stale(h, a) by {}
    }
}

/// The flag is true if and only if a device is connected, whenever no operation is under way:
/// after any history of operations and events, with whatever results.
pub proof fn at_rest_the_flag_is_right<S, A, C, T>(history: Seq<SystemView<S, A, C, T>>)
    requires
        is_history(history),
        at_rest(history.last()),
    ensures
        history.last().handler.connected == history.last().handler.any_connected(),
{
    histories_are_settled(history);
}

/// The link of each address says whether its device is connected, whenever no operation is
/// under way: what it was told last is that.
pub proof fn at_rest_the_links_are_right<S, A, C, T>(history: Seq<SystemView<S, A, C, T>>, address: Seq<char>)
    requires
        is_history(history),
        at_rest(history.last()),
        history.last().handler.links.dom().contains(address),
    ensures
        history.last().handler.links[address].told == history.last().handler.is_connected_at(address),
{
    histories_are_settled(history);
    let h = history.last().handler;
    assert(h.inv()) by {
        assert(history[history.len() - 1].handler.inv());
    }
    if is_stale(h, address) {
        let i = choose|i: int|
            0 <= i < history.last().activities.len() && owes_word(
                #[trigger] history.last().activities[i],
                h.links[address].link,
            );
    }
}

/// Each link of the first handler is a link of the second, for the same address.
spec fn links_stay<S, A, C, T>(h: HandlerView<S, A, C, T>, h2: HandlerView<S, A, C, T>) -> bool {
    forall|a: Seq<char>| #[trigger]
        h.links.dom().contains(a) ==> h2.links.dom().contains(a) && h2.links[a].link == h.links[a].link
}

proof fn one_move_keeps_links<S, A, C, T>(s: SystemView<S, A, C, T>, s2: SystemView<S, A, C, T>)
    requires
        s.handler.inv(),
        moves(s, s2),
    ensures
        links_stay(s.handler, s2.handler),
{
    let h = s.handler;
    let h2 = s2.handler;
    if exists|begun: Activity<S, A>| #[trigger]
        begins(h, h2, begun) && s2.activities == s.activities.push(begun) {
        let begun = choose|begun: Activity<S, A>| #[trigger]
            begins(h, h2, begun) && s2.activities == s.activities.push(begun);
        if h2 != h {
            let (event, step) = choose|event: CentralEvent, step: EventStep<S, A>| #[trigger]
                handle_event_begin(h, event, h2, step) && begun == handling(step);
            links_are_kept_by_events(h, event, h2, step);
        }
    } else if exists|i: int, reply: Reply, rest: Activity<S, A>|
        0 <= i < s.activities.len() && #[trigger] goes_on(h, s.activities[i], reply, h2, rest)
            && s2.activities == s.activities.update(i, rest) {
        let (i, reply, rest) = choose|i: int, reply: Reply, rest: Activity<S, A>|
            0 <= i < s.activities.len() && #[trigger] goes_on(h, s.activities[i], reply, h2, rest)
                && s2.activities == s.activities.update(i, rest);
        let c: ConnectView<S, A> = arbitrary();
        let d: DiscoverServicesView = arbitrary();
        let e: HandleEvent<S, A> = arbitrary();
        match s.activities[i] {
            Activity::Ended => {},
            Activity::Connecting(op) => {
                links_are_kept(h, op, d, e, reply);
            },
            Activity::Discovering(op) => {
                links_are_kept(h, c, op, e, reply);
            },
            Activity::Handling(op) => {
                links_are_kept(h, c, d, op, reply);
            },
            Activity::Disconnecting(op) => {
                let step = choose|step: DisconnectStep<S, A>| #[trigger]
                    disconnect_step(h, op, reply, h2, step) && rest == disconnecting(step);
                links_are_kept_by_disconnecting(h, op, reply, h2, step);
            },
        }
    }
}

/// In any history, an address that has a link keeps that link: through disconnections and new
/// connections, whoever holds it hears of the device.
pub proof fn an_address_keeps_its_link<S, A, C, T>(
    history: Seq<SystemView<S, A, C, T>>,
    i: int,
    j: int,
    address: Seq<char>,
)
    requires
        is_history(history),
        0 <= i <= j < history.len(),
        history[i].handler.links.dom().contains(address),
    ensures
        history[j].handler.links.dom().contains(address),
        history[j].handler.links[address].link == history[i].handler.links[address].link,
    decreases j - i,
{
    if i < j {
        an_address_keeps_its_link(history, i, j - 1, address);
        assert(history[j - 1].handler.inv());
        assert(moves(history[j - 1], history[j]));
        one_move_keeps_links(history[j - 1], history[j]);
    }
}

/// A device that has a connection at two times of a history has the same link at both, whatever
/// happened between them, and the link was told last whether the device is connected.
pub proof fn a_receiver_outlives_the_connection<S, A, C, T>(
    history: Seq<SystemView<S, A, C, T>>,
    i: int,
    j: int,
    address: Seq<char>,
)
    requires
        is_history(history),
        0 <= i <= j < history.len(),
        history[i].handler.tracks(address),
        history[j].handler.tracks(address),
    ensures
        history[j].handler.connections[address].link == history[i].handler.connections[address].link,
        history[j].handler.links[address].told == history[j].handler.is_connected_at(address),
{
    assert(history[i].handler.inv());
    assert(history[j].handler.inv());
    an_address_keeps_its_link(history, i, j, address);
}

} // verus!

//! Scanning for devices.
use vstd::pervasive::unreached;
use vstd::prelude::*;

use crate::error::{BleError, ErrorView};
use crate::filter::{filter_peripherals, is_valid_filter, survivors, valid_filter, Sighting};
use crate::handler::{Handler, HandlerView};
use crate::models::{AdapterId, BleDevice, LockName, PeripheralId, ScanFilter, TaskId};
use crate::step::{Action, Reply, Step};
use crate::text::{is_sorted_form, sort_by_address, sorted_form_has_length};

verus! {

/// How long a round of a scan takes, in milliseconds.
pub const ROUND_MS: u64 = 200;

/// How many rounds a scan of so many milliseconds has: at least one.
pub open spec fn rounds_of(timeout: u64) -> u64 {
    if timeout / ROUND_MS < 1 {
        1
    } else {
        timeout / ROUND_MS
    }
}

/// The descriptions among the readings, in order.
pub open spec fn readable(readings: Seq<Result<BleDevice, BleError>>) -> Seq<BleDevice>
    decreases readings.len(),
{
    if readings.len() == 0 {
        Seq::empty()
    } else {
        let before = readable(readings.drop_last());
        match readings.last() {
            Ok(d) => before.push(d),
            Err(_) => before,
        }
    }
}

/// The discovered devices after the peripherals were described: each that has a description
/// stands under its address, the last one where several have the same.
pub open spec fn with_devices(
    devices: Map<Seq<char>, PeripheralId>,
    discovered: Seq<PeripheralId>,
    readings: Seq<Result<BleDevice, BleError>>,
) -> Map<Seq<char>, PeripheralId>
    decreases readings.len(),
{
    if readings.len() == 0 {
        devices
    } else {
        let before = with_devices(devices, discovered, readings.drop_last());
        match readings.last() {
            Ok(d) => before.insert(d.address@, discovered[readings.len() - 1]),
            Err(_) => before,
        }
    }
}

/// The reading is a description with the address.
pub open spec fn is_described_as(reading: Result<BleDevice, BleError>, address: Seq<char>) -> bool {
    reading matches Ok(d) && d.address@ == address
}

/// A described peripheral can be connected under its address: the address stands for the last
/// peripheral that was described with it.
pub proof fn described_peripherals_are_remembered(
    devices: Map<Seq<char>, PeripheralId>,
    discovered: Seq<PeripheralId>,
    readings: Seq<Result<BleDevice, BleError>>,
    address: Seq<char>,
    i: int,
)
    requires
        0 <= i < readings.len(),
        is_described_as(readings[i], address),
        forall|j: int| i < j < readings.len() ==> !is_described_as(#[trigger] readings[j], address),
    ensures
        with_devices(devices, discovered, readings).dom().contains(address),
        with_devices(devices, discovered, readings)[address] == discovered[i],
    decreases readings.len(),
{
    if i < readings.len() - 1 {
        assert(!is_described_as(readings[readings.len() - 1], address));
        let before = readings.drop_last();
        assert forall|j: int| i < j < before.len() implies !is_described_as(#[trigger] before[j], address) by {
            assert(before[j] == readings[j]);
        }
        described_peripherals_are_remembered(devices, discovered, before, address, i);
    }
}

/// An address that no reading has keeps what it had.
pub proof fn other_devices_are_kept(
    devices: Map<Seq<char>, PeripheralId>,
    discovered: Seq<PeripheralId>,
    readings: Seq<Result<BleDevice, BleError>>,
    address: Seq<char>,
)
    requires
        forall|j: int| 0 <= j < readings.len() ==> !is_described_as(#[trigger] readings[j], address),
    ensures
        with_devices(devices, discovered, readings).dom().contains(address) == devices.dom().contains(address),
        devices.dom().contains(address) ==> with_devices(devices, discovered, readings)[address]
            == devices[address],
    decreases readings.len(),
{
    if readings.len() > 0 {
        assert(!is_described_as(readings[readings.len() - 1], address));
        let before = readings.drop_last();
        assert forall|j: int| 0 <= j < before.len() implies !is_described_as(#[trigger] before[j], address) by {
            assert(before[j] == readings[j]);
        }
        other_devices_are_kept(devices, discovered, before, address);
    }
}

/// The peripherals of the sightings, in order.
pub open spec fn peripherals_of(seen: Seq<Sighting>) -> Seq<PeripheralId> {
    seen.map_values(|s: Sighting| s.peripheral)
}

/// What a running scan waits for.
#[derive(Debug)]
pub enum ScanStage {
    /// To be started.
    Spawned,
    /// The end of a round.
    Sleeping,
    /// The peripherals that the adapter has seen.
    Listing,
    /// The descriptions of these peripherals.
    Describing(Vec<PeripheralId>),
    /// That the devices were reported.
    Reporting,
    /// That the adapter has stopped.
    Stopping,
    /// That the end was announced.
    Announcing,
}

/// A scan that runs in the background.
#[derive(Debug)]
pub struct ScanTask {
    pub task: TaskId,
    pub adapter: AdapterId,
    pub filter: ScanFilter,
    /// Whether the devices that were found are reported.
    pub reports: bool,
    /// How many rounds come after this one.
    pub rounds_left: u64,
    pub stage: ScanStage,
}

/// The mathematical model of [`ScanStage`].
#[verifier::ext_equal]
pub enum ScanStageView {
    Spawned,
    Sleeping,
    Listing,
    Describing(Seq<PeripheralId>),
    Reporting,
    Stopping,
    Announcing,
}

/// The mathematical model of [`ScanTask`].
#[verifier::ext_equal]
pub struct ScanTaskView {
    pub task: TaskId,
    pub adapter: AdapterId,
    pub filter: ScanFilter,
    pub reports: bool,
    pub rounds_left: u64,
    pub stage: ScanStageView,
}

impl View for ScanStage {
    type V = ScanStageView;

    open spec fn view(&self) -> ScanStageView {
        match *self {
            ScanStage::Spawned => ScanStageView::Spawned,
            ScanStage::Sleeping => ScanStageView::Sleeping,
            ScanStage::Listing => ScanStageView::Listing,
            ScanStage::Describing(list) => ScanStageView::Describing(list@),
            ScanStage::Reporting => ScanStageView::Reporting,
            ScanStage::Stopping => ScanStageView::Stopping,
            ScanStage::Announcing => ScanStageView::Announcing,
        }
    }
}

impl View for ScanTask {
    type V = ScanTaskView;

    open spec fn view(&self) -> ScanTaskView {
        ScanTaskView {
            task: self.task,
            adapter: self.adapter,
            filter: self.filter,
            reports: self.reports,
            rounds_left: self.rounds_left,
            stage: self.stage@,
        }
    }
}

/// A step of a running scan.
pub type ScanTaskStep<S, A> = Step<ScanTaskView, S, A, Result<(), ErrorView>>;

impl ScanTaskView {
    /// The scan in another stage.
    pub open spec fn at(self, stage: ScanStageView) -> Self {
        ScanTaskView { stage, ..self }
    }

    /// The replies that the scan can go on with.
    pub open spec fn awaits(self, reply: Reply) -> bool {
        match self.stage {
            ScanStageView::Spawned => false,
            ScanStageView::Sleeping => reply is Acknowledged,
            ScanStageView::Listing => reply is Sighted,
            ScanStageView::Describing(list) => reply matches Reply::Described(readings)
                && readings@.len() == list.len(),
            ScanStageView::Reporting => reply is Acknowledged,
            ScanStageView::Stopping => reply is Finished,
            ScanStageView::Announcing => reply is Acknowledged,
        }
    }

    /// After a round: the next one, or the adapter stops.
    pub open spec fn next_round<S, A>(self) -> ScanTaskStep<S, A> {
        if self.rounds_left == 0 {
            Step::Do(self.at(ScanStageView::Stopping), Action::StopAdapterScan(self.adapter))
        } else {
            Step::Do(
                ScanTaskView {
                    rounds_left: (self.rounds_left - 1) as u64,
                    ..self.at(ScanStageView::Sleeping)
                },
                Action::Sleep(ROUND_MS),
            )
        }
    }
}

/// How a scan starts: what was discovered before is forgotten, and the first round begins.
pub open spec fn scan_task_begin<S, A, C, T>(h: HandlerView<S, A, C, T>, op: ScanTaskView) -> (
    HandlerView<S, A, C, T>,
    ScanTaskStep<S, A>,
) {
    (
        HandlerView { devices: Map::empty(), ..h },
        Step::Do(op.at(ScanStageView::Sleeping), Action::Sleep(ROUND_MS)),
    )
}

/// How a scan goes on. At the end of each round the peripherals that pass the filter are
/// described and those with a description remembered; if there are any and reports are wanted,
/// they are reported, sorted by address. After the last round the adapter stops, which may
/// fail, and the end is announced.
pub open spec fn scan_task_step<S, A, C, T>(
    h: HandlerView<S, A, C, T>,
    op: ScanTaskView,
    reply: Reply,
    h2: HandlerView<S, A, C, T>,
    step: ScanTaskStep<S, A>,
) -> bool {
    match (op.stage, reply) {
        (ScanStageView::Sleeping, Reply::Acknowledged) => {
            &&& h2 == h
            &&& step == ScanTaskStep::<S, A>::Do(
                op.at(ScanStageView::Listing),
                Action::ListPeripherals {
                    adapter: op.adapter,
                    with_properties: !(op.filter is Unfiltered),
                },
            )
        },
        (ScanStageView::Listing, Reply::Sighted(seen)) => {
            &&& h2 == h
            &&& step matches Step::Do(op2, Action::Describe(list))
            &&& list@ == peripherals_of(survivors(seen@, op.filter))
            &&& op2 == op.at(ScanStageView::Describing(list@))
        },
        (ScanStageView::Describing(list), Reply::Described(readings)) => {
            &&& h2 == HandlerView { devices: with_devices(h.devices, list, readings@), ..h }
            &&& if op.reports && readable(readings@).len() > 0 {
                &&& step matches Step::Do(op2, Action::Report { scan, devices })
                &&& scan == op.task
                &&& is_sorted_form(devices@, readable(readings@))
                &&& op2 == op.at(ScanStageView::Reporting)
            } else {
                step == op.next_round::<S, A>()
            }
        },
        (ScanStageView::Reporting, Reply::Acknowledged) => h2 == h && step == op.next_round::<S, A>(),
        (ScanStageView::Stopping, Reply::Finished(_)) => {
            &&& h2 == h
            &&& step == ScanTaskStep::<S, A>::Do(
                op.at(ScanStageView::Announcing),
                Action::AnnounceScan(false),
            )
        },
        (ScanStageView::Announcing, Reply::Acknowledged) => h2 == h && step == ScanTaskStep::<S, A>::Done(
            Ok(()),
        ),
        _ => false,
    }
}

impl ScanTask {
    /// Whether the scan can go on with the reply.
    pub fn is_awaiting(&self, reply: &Reply) -> (r: bool)
        ensures
            r == self@.awaits(*reply),
    {
        match (&self.stage, reply) {
            (ScanStage::Sleeping, Reply::Acknowledged) => true,
            (ScanStage::Listing, Reply::Sighted(_)) => true,
            (ScanStage::Describing(list), Reply::Described(readings)) => readings.len() == list.len(),
            (ScanStage::Reporting, Reply::Acknowledged) => true,
            (ScanStage::Stopping, Reply::Finished(_)) => true,
            (ScanStage::Announcing, Reply::Acknowledged) => true,
            _ => false,
        }
    }

    fn next_round<S, A>(self) -> (r: Step<ScanTask, S, A, Result<(), BleError>>)
        ensures
            r.model() == self@.next_round::<S, A>(),
            forall|stage: ScanStageView| #[trigger] self@.at(stage).next_round::<S, A>() == r.model(),
    {
        let mut this = self;
        if this.rounds_left == 0 {
            let adapter = this.adapter;
            this.stage = ScanStage::Stopping;
            Step::Do(this, Action::StopAdapterScan(adapter))
        } else {
            this.rounds_left = this.rounds_left - 1;
            this.stage = ScanStage::Sleeping;
            Step::Do(this, Action::Sleep(ROUND_MS))
        }
    }
}

/// The peripherals of the sightings, in order.
fn collect_peripherals(seen: &Vec<Sighting>) -> (r: Vec<PeripheralId>)
    ensures
        r@ == peripherals_of(seen@),
{
    let mut out: Vec<PeripheralId> = Vec::new();
    let mut i: usize = 0;
    while i < seen.len()
        invariant
            i <= seen@.len(),
            out@ == peripherals_of(seen@.take(i as int)),
        decreases seen@.len() - i,
    {
        out.push(seen[i].peripheral);
        i = i + 1;
        assert(out@ =~= peripherals_of(seen@.take(i as int)));
    }
    assert(seen@.take(i as int) =~= seen@);
    out
}

/// The same peripherals.
fn copy_peripherals(list: &Vec<PeripheralId>) -> (r: Vec<PeripheralId>)
    ensures
        r@ == list@,
{
    let mut out: Vec<PeripheralId> = Vec::new();
    let mut i: usize = 0;
    while i < list.len()
        invariant
            i <= list@.len(),
            out@ == list@.take(i as int),
        decreases list@.len() - i,
    {
        out.push(list[i]);
        i = i + 1;
        assert(out@ =~= list@.take(i as int));
    }
    assert(list@.take(i as int) =~= list@);
    out
}

/// The descriptions among the readings, in order.
pub fn readable_devices(readings: Vec<Result<BleDevice, BleError>>) -> (r: Vec<BleDevice>)
    ensures
        r@ == readable(readings@),
{
    let ghost all = readings@;
    let mut rest = readings;
    let mut out: Vec<BleDevice> = Vec::new();
    let ghost mut i: int = 0;
    assert(all.skip(0) =~= all);
    while rest.len() > 0
        invariant
            0 <= i <= all.len(),
            rest@ == all.skip(i),
            out@ == readable(all.take(i)),
        decreases rest.len(),
    {
        let reading = rest.remove(0);
        proof {
            assert(all.take(i + 1).drop_last() =~= all.take(i));
            assert(all.take(i + 1).last() == reading);
            i = i + 1;
            assert(rest@ =~= all.skip(i));
        }
        match reading {
            Ok(d) => {
                out.push(d);
            },
            Err(_) => {},
        }
    }
    assert(all.take(i) =~= all);
    out
}

impl<S, A, C, T> Handler<S, A, C, T> {
    /// Remembers the peripherals that have a description and gives the descriptions, sorted by
    /// address.
    pub fn add_devices(
        &mut self,
        discovered: Vec<PeripheralId>,
        readings: Vec<Result<BleDevice, BleError>>,
    ) -> (r: Vec<BleDevice>)
        requires
            old(self).wf(),
            discovered@.len() == readings@.len(),
        ensures
            final(self).wf(),
            final(self)@ == (HandlerView {
                devices: with_devices(old(self)@.devices, discovered@, readings@),
                ..old(self)@
            }),
            is_sorted_form(r@, readable(readings@)),
    {
        let ghost before = self@;
        let mut i: usize = 0;
        while i < readings.len()
            invariant
                self.wf(),
                i <= readings@.len(),
                discovered@.len() == readings@.len(),
                self@ == (HandlerView {
                    devices: with_devices(before.devices, discovered@, readings@.take(i as int)),
                    ..before
                }),
            decreases readings@.len() - i,
        {
            proof {
                assert(readings@.take(i + 1).drop_last() =~= readings@.take(i as int));
                assert(readings@.take(i + 1).last() == readings@[i as int]);
            }
            match &readings[i] {
                Ok(d) => {
                    self.add_device(d.address.clone(), discovered[i]);
                },
                Err(_) => {},
            }
            i = i + 1;
        }
        assert(readings@.take(i as int) =~= readings@);
        sort_by_address(readable_devices(readings))
    }

    /// Starts a scan that was spawned.
    pub fn start_scan_task(&mut self, op: ScanTask) -> (r: Step<ScanTask, S, A, Result<(), BleError>>)
        requires
            old(self).wf(),
        ensures
            final(self).wf(),
            (final(self)@, r.model()) == scan_task_begin(old(self)@, op@),
    {
        let mut op = op;
        self.clear_devices();
        op.stage = ScanStage::Sleeping;
        Step::Do(op, Action::Sleep(ROUND_MS))
    }

    /// Goes on with a scan.
    pub fn resume_scan_task(&mut self, op: ScanTask, reply: Reply) -> (r: Step<
        ScanTask,
        S,
        A,
        Result<(), BleError>,
    >)
        requires
            old(self).wf(),
            op@.awaits(reply),
        ensures
            final(self).wf(),
            scan_task_step(old(self)@, op@, reply, final(self)@, r.model()),
    {
        let ghost op0 = op@;
        let mut op = op;
        let mut stage = ScanStage::Announcing;
        core::mem::swap(&mut op.stage, &mut stage);
        match (stage, reply) {
            (ScanStage::Sleeping, Reply::Acknowledged) => {
                let with_properties = match &op.filter {
                    ScanFilter::Unfiltered => false,
                    _ => true,
                };
                let adapter = op.adapter;
                op.stage = ScanStage::Listing;
                Step::Do(op, Action::ListPeripherals { adapter, with_properties })
            },
            (ScanStage::Listing, Reply::Sighted(seen)) => {
                let mut seen = seen;
                filter_peripherals(&mut seen, &op.filter);
                let list = collect_peripherals(&seen);
                op.stage = ScanStage::Describing(copy_peripherals(&list));
                Step::Do(op, Action::Describe(list))
            },
            (ScanStage::Describing(list), Reply::Described(readings)) => {
                let ghost all = readings@;
                let devices = self.add_devices(list, readings);
                proof {
                    sorted_form_has_length(devices@, readable(all));
                }
                if op.reports && devices.len() > 0 {
                    let scan = op.task;
                    op.stage = ScanStage::Reporting;
                    Step::Do(op, Action::Report { scan, devices })
                } else {
                    assert(op@.at(op0.stage) == op0);
                    op.next_round()
                }
            },
            (ScanStage::Reporting, Reply::Acknowledged) => {
                assert(op@.at(op0.stage) == op0);
                op.next_round()
            },
            (ScanStage::Stopping, Reply::Finished(_)) => {
                op.stage = ScanStage::Announcing;
                Step::Do(op, Action::AnnounceScan(false))
            },
            (ScanStage::Announcing, Reply::Acknowledged) => Step::Done(Ok(())),
            _ => unreached(),
        }
    }
}

/// What the start of a scan waits for.
#[derive(Clone, Copy, Debug, PartialEq, Eq, Structural)]
pub enum DiscoverStage {
    /// The adapter.
    Initializing,
    /// The lock, which it holds until the adapter scans.
    Locking(AdapterId),
    /// That the task of the last scan was aborted.
    Aborting(AdapterId),
    /// That the adapter has stopped the last scan.
    Stopping(AdapterId),
    /// That the adapter scans.
    Starting(AdapterId),
    /// That the lock was given back.
    Unlocking(AdapterId),
    /// That the start was announced.
    Announcing(AdapterId),
    /// The lock again, to store the task.
    Storing(AdapterId),
    /// That the scan runs in the background.
    Spawning,
}

/// The operation that starts a scan.
#[derive(Debug)]
pub struct Discover {
    pub reports: bool,
    pub timeout: u64,
    pub filter: ScanFilter,
    pub allow_ibeacons: bool,
    pub stage: DiscoverStage,
}

impl View for Discover {
    type V = Discover;

    open spec fn view(&self) -> Discover {
        *self
    }
}

impl Discover {
    /// The operation in another stage.
    pub open spec fn at(self, stage: DiscoverStage) -> Self {
        Discover { stage, ..self }
    }

    /// The replies that the operation can go on with. It takes the lock only where no other
    /// holds it, and holds it from ending the last scan until the adapter scans, and again
    /// while the task is stored.
    pub open spec fn awaits<S, A, C, T>(self, h: HandlerView<S, A, C, T>, reply: Reply) -> bool {
        match self.stage {
            DiscoverStage::Initializing => reply is Initialized,
            DiscoverStage::Locking(_) => reply is Acknowledged && !h.held.contains(LockName::Scan),
            DiscoverStage::Aborting(_) => reply is Acknowledged && h.held.contains(LockName::Scan),
            DiscoverStage::Stopping(_) => reply is Finished && h.held.contains(LockName::Scan),
            DiscoverStage::Starting(_) => reply is Finished && h.held.contains(LockName::Scan),
            DiscoverStage::Unlocking(_) => reply is Acknowledged,
            DiscoverStage::Announcing(_) => reply is Acknowledged,
            DiscoverStage::Storing(_) => reply is Acknowledged && !h.held.contains(LockName::Scan),
            DiscoverStage::Spawning => reply is Acknowledged && h.held.contains(LockName::Scan),
        }
    }

    /// The adapter is told to scan.
    pub open spec fn start<S, A>(self, adapter: AdapterId) -> Step<
        Discover,
        S,
        A,
        Result<(), ErrorView>,
    > {
        Step::Do(
            self.at(DiscoverStage::Starting(adapter)),
            Action::StartAdapterScan { adapter, allow_ibeacons: self.allow_ibeacons },
        )
    }

    /// Whether the operation can go on with the reply.
    pub fn is_awaiting<S, A, C, T>(&self, handler: &Handler<S, A, C, T>, reply: &Reply) -> (r: bool)
        ensures
            r == self.awaits(handler@, *reply),
    {
        let held = handler.is_held(LockName::Scan);
        match (&self.stage, reply) {
            (DiscoverStage::Initializing, Reply::Initialized(_)) => true,
            (DiscoverStage::Locking(_), Reply::Acknowledged) => !held,
            (DiscoverStage::Aborting(_), Reply::Acknowledged) => held,
            (DiscoverStage::Stopping(_), Reply::Finished(_)) => held,
            (DiscoverStage::Starting(_), Reply::Finished(_)) => held,
            (DiscoverStage::Unlocking(_), Reply::Acknowledged) => true,
            (DiscoverStage::Announcing(_), Reply::Acknowledged) => true,
            (DiscoverStage::Storing(_), Reply::Acknowledged) => !held,
            (DiscoverStage::Spawning, Reply::Acknowledged) => held,
            _ => false,
        }
    }

    fn begin_start<S, A>(self, adapter: AdapterId) -> (r: Step<Discover, S, A, Result<(), BleError>>)
        ensures
            r.model() == self.start::<S, A>(adapter),
    {
        let mut this = self;
        this.stage = DiscoverStage::Starting(adapter);
        let allow_ibeacons = this.allow_ibeacons;
        Step::Do(this, Action::StartAdapterScan { adapter, allow_ibeacons })
    }
}

/// How the operation begins: a filter that cannot be used is refused; then the adapter is
/// asked for.
pub open spec fn discover_begin<S, A>(op: Discover) -> Step<Discover, S, A, Result<(), ErrorView>> {
    if valid_filter(op.filter) {
        Step::Do(op.at(DiscoverStage::Initializing), Action::InitAdapter)
    } else {
        Step::Done(Err(ErrorView::InvalidFilterMask))
    }
}

/// The scan that runs in the background once it was started.
pub open spec fn spawned(op: Discover, adapter: AdapterId, task: TaskId) -> ScanTask {
    ScanTask {
        task,
        adapter,
        filter: op.filter,
        reports: op.reports,
        rounds_left: (rounds_of(op.timeout) - 1) as u64,
        stage: ScanStage::Spawned,
    }
}

/// How the operation goes on. Under the lock the last scan, if its task is known, is ended
/// first; whether the adapter could stop it does not matter. When the adapter scans, the lock is
/// given back and the start announced, and under the lock again the scan is handed to a new
/// task.
pub open spec fn discover_step<S, A, C, T>(h: HandlerView<S, A, C, T>, op: Discover, reply: Reply) -> (
    HandlerView<S, A, C, T>,
    Step<Discover, S, A, Result<(), ErrorView>>,
) {
    match (op.stage, reply) {
        (DiscoverStage::Initializing, Reply::Initialized(Err(e))) => (h, Step::Done(Err(e@))),
        (DiscoverStage::Initializing, Reply::Initialized(Ok(adapter))) => (
            h,
            Step::Do(op.at(DiscoverStage::Locking(adapter)), Action::Lock(LockName::Scan)),
        ),
        (DiscoverStage::Locking(adapter), Reply::Acknowledged) => (
            HandlerView { scan_task: None, ..h.holding(LockName::Scan) },
            match h.scan_task {
                Some(task) => Step::Do(
                    op.at(DiscoverStage::Aborting(adapter)),
                    Action::AbortTask(task),
                ),
                None => op.start(adapter),
            },
        ),
        (DiscoverStage::Aborting(adapter), Reply::Acknowledged) => (
            h,
            Step::Do(op.at(DiscoverStage::Stopping(adapter)), Action::StopAdapterScan(adapter)),
        ),
        (DiscoverStage::Stopping(adapter), Reply::Finished(_)) => (h, op.start(adapter)),
        (DiscoverStage::Starting(adapter), Reply::Finished(done)) => (
            h.releasing(LockName::Scan),
            match done {
                Ok(_) => Step::Do(
                    op.at(DiscoverStage::Unlocking(adapter)),
                    Action::Unlock(LockName::Scan),
                ),
                Err(e) => Step::Done(Err(ErrorView::Btleplug(e))),
            },
        ),
        (DiscoverStage::Unlocking(adapter), Reply::Acknowledged) => (
            h,
            Step::Do(op.at(DiscoverStage::Announcing(adapter)), Action::AnnounceScan(true)),
        ),
        (DiscoverStage::Announcing(adapter), Reply::Acknowledged) => (
            h,
            Step::Do(op.at(DiscoverStage::Storing(adapter)), Action::Lock(LockName::Scan)),
        ),
        (DiscoverStage::Storing(adapter), Reply::Acknowledged) => (
            HandlerView {
                scan_task: Some(h.next_token),
                ..h.with_token().holding(LockName::Scan)
            },
            Step::Do(
                Discover { filter: ScanFilter::Unfiltered, ..op.at(DiscoverStage::Spawning) },
                Action::SpawnScan(spawned(op, adapter, h.next_token)),
            ),
        ),
        (DiscoverStage::Spawning, Reply::Acknowledged) => (
            h.releasing(LockName::Scan),
            Step::Done(Ok(())),
        ),
        _ => arbitrary(),
    }
}

impl<S, A, C, T> Handler<S, A, C, T> {
    /// Scans for `timeout` milliseconds in the background. If `reports` is set, the devices
    /// found are reported after each round.
    pub fn discover(&self, reports: bool, timeout: u64, filter: ScanFilter, allow_ibeacons: bool) -> (r: Step<
        Discover,
        S,
        A,
        Result<(), BleError>,
    >)
        requires
            self.wf(),
        ensures
            r.model() == discover_begin::<S, A>(
                (Discover {
                    reports,
                    timeout,
                    filter,
                    allow_ibeacons,
                    stage: DiscoverStage::Initializing,
                }),
            ),
    {
        if is_valid_filter(&filter) {
            Step::Do(
                Discover {
                    reports,
                    timeout,
                    filter,
                    allow_ibeacons,
                    stage: DiscoverStage::Initializing,
                },
                Action::InitAdapter,
            )
        } else {
            Step::Done(Err(BleError::InvalidFilterMask))
        }
    }

    /// Goes on with starting a scan.
    pub fn resume_discover(&mut self, op: Discover, reply: Reply) -> (r: Step<
        Discover,
        S,
        A,
        Result<(), BleError>,
    >)
        requires
            old(self).wf(),
            old(self)@.has_tokens(),
            op.awaits(old(self)@, reply),
        ensures
            final(self).wf(),
            (final(self)@, r.model()) == discover_step(old(self)@, op, reply),
    {
        let mut op = op;
        match (op.stage, reply) {
            (DiscoverStage::Initializing, Reply::Initialized(Err(e))) => Step::Done(Err(e)),
            (DiscoverStage::Initializing, Reply::Initialized(Ok(adapter))) => {
                op.stage = DiscoverStage::Locking(adapter);
                Step::Do(op, Action::Lock(LockName::Scan))
            },
            (DiscoverStage::Locking(adapter), Reply::Acknowledged) => {
                self.hold(LockName::Scan);
                match self.replace_scan_task(None) {
                    Some(task) => {
                        op.stage = DiscoverStage::Aborting(adapter);
                        Step::Do(op, Action::AbortTask(task))
                    },
                    None => op.begin_start(adapter),
                }
            },
            (DiscoverStage::Aborting(adapter), Reply::Acknowledged) => {
                op.stage = DiscoverStage::Stopping(adapter);
                Step::Do(op, Action::StopAdapterScan(adapter))
            },
            (DiscoverStage::Stopping(adapter), Reply::Finished(_)) => op.begin_start(adapter),
            (DiscoverStage::Starting(adapter), Reply::Finished(done)) => {
                self.release(LockName::Scan);
                match done {
                    Ok(_) => {
                        op.stage = DiscoverStage::Unlocking(adapter);
                        Step::Do(op, Action::Unlock(LockName::Scan))
                    },
                    Err(e) => Step::Done(Err(BleError::Btleplug(e))),
                }
            },
            (DiscoverStage::Unlocking(adapter), Reply::Acknowledged) => {
                op.stage = DiscoverStage::Announcing(adapter);
                Step::Do(op, Action::AnnounceScan(true))
            },
            (DiscoverStage::Announcing(adapter), Reply::Acknowledged) => {
                op.stage = DiscoverStage::Storing(adapter);
                Step::Do(op, Action::Lock(LockName::Scan))
            },
            (DiscoverStage::Storing(adapter), Reply::Acknowledged) => {
                self.hold(LockName::Scan);
                let task = self.fresh_token();
                let _ = self.replace_scan_task(Some(task));
                let rounds: u64 = if op.timeout / ROUND_MS < 1 {
                    1
                } else {
                    op.timeout / ROUND_MS
                };
                let mut filter = ScanFilter::Unfiltered;
                core::mem::swap(&mut op.filter, &mut filter);
                op.stage = DiscoverStage::Spawning;
                let scan = ScanTask {
                    task,
                    adapter,
                    filter,
                    reports: op.reports,
                    rounds_left: rounds - 1,
                    stage: ScanStage::Spawned,
                };
                Step::Do(op, Action::SpawnScan(scan))
            },
            (DiscoverStage::Spawning, Reply::Acknowledged) => {
                self.release(LockName::Scan);
                Step::Done(Ok(()))
            },
            _ => unreached(),
        }
    }
}

/// The operation that stops a scan, by what it waits for.
#[derive(Clone, Copy, Debug, PartialEq, Eq, Structural)]
pub enum StopScan {
    /// The lock.
    Locking,
    /// That the task was aborted.
    Aborting,
    /// That the lock was given back.
    Unlocking,
    /// The adapter.
    Initializing,
    /// That the adapter has stopped.
    Stopping,
    /// That the end was announced.
    Announcing,
}

impl View for StopScan {
    type V = StopScan;

    open spec fn view(&self) -> StopScan {
        *self
    }
}

impl StopScan {
    /// The replies that the operation can go on with. It takes the lock only where no other
    /// holds it, and holds it while the task is aborted.
    pub open spec fn awaits<S, A, C, T>(self, h: HandlerView<S, A, C, T>, reply: Reply) -> bool {
        match self {
            StopScan::Locking => reply is Acknowledged && !h.held.contains(LockName::Scan),
            StopScan::Aborting => reply is Acknowledged && h.held.contains(LockName::Scan),
            StopScan::Unlocking => reply is Acknowledged,
            StopScan::Initializing => reply is Initialized,
            StopScan::Stopping => reply is Finished,
            StopScan::Announcing => reply is Acknowledged,
        }
    }

    /// Whether the operation can go on with the reply.
    pub fn is_awaiting<S, A, C, T>(&self, handler: &Handler<S, A, C, T>, reply: &Reply) -> (r: bool)
        ensures
            r == self.awaits(handler@, *reply),
    {
        let held = handler.is_held(LockName::Scan);
        match (self, reply) {
            (StopScan::Locking, Reply::Acknowledged) => !held,
            (StopScan::Aborting, Reply::Acknowledged) => held,
            (StopScan::Unlocking, Reply::Acknowledged) => true,
            (StopScan::Initializing, Reply::Initialized(_)) => true,
            (StopScan::Stopping, Reply::Finished(_)) => true,
            (StopScan::Announcing, Reply::Acknowledged) => true,
            _ => false,
        }
    }
}

/// A step of stopping a scan.
pub type StopScanStep<S, A> = Step<StopScan, S, A, Result<(), ErrorView>>;

/// How the operation begins: it takes the lock.
pub open spec fn stop_scan_begin<S, A>() -> StopScanStep<S, A> {
    Step::Do(StopScan::Locking, Action::Lock(LockName::Scan))
}

/// How the operation goes on: under the lock the task of the scan, if it is known, is aborted;
/// then the adapter is stopped, which may fail, and the end is announced.
pub open spec fn stop_scan_step<S, A, C, T>(h: HandlerView<S, A, C, T>, op: StopScan, reply: Reply) -> (
    HandlerView<S, A, C, T>,
    StopScanStep<S, A>,
) {
    match (op, reply) {
        (StopScan::Locking, Reply::Acknowledged) => match h.scan_task {
            Some(task) => (
                HandlerView { scan_task: None, ..h.holding(LockName::Scan) },
                Step::Do(StopScan::Aborting, Action::AbortTask(task)),
            ),
            None => (h, Step::Do(StopScan::Unlocking, Action::Unlock(LockName::Scan))),
        },
        (StopScan::Aborting, Reply::Acknowledged) => (
            h.releasing(LockName::Scan),
            Step::Do(StopScan::Unlocking, Action::Unlock(LockName::Scan)),
        ),
        (StopScan::Unlocking, Reply::Acknowledged) => (
            h,
            Step::Do(StopScan::Initializing, Action::InitAdapter),
        ),
        (StopScan::Initializing, Reply::Initialized(Err(e))) => (h, Step::Done(Err(e@))),
        (StopScan::Initializing, Reply::Initialized(Ok(adapter))) => (
            h,
            Step::Do(StopScan::Stopping, Action::StopAdapterScan(adapter)),
        ),
        (StopScan::Stopping, Reply::Finished(_)) => (
            h,
            Step::Do(StopScan::Announcing, Action::AnnounceScan(false)),
        ),
        (StopScan::Announcing, Reply::Acknowledged) => (h, Step::Done(Ok(()))),
        _ => arbitrary(),
    }
}

impl<S, A, C, T> Handler<S, A, C, T> {
    /// Stops the scan that is running.
    pub fn stop_scan(&self) -> (r: Step<StopScan, S, A, Result<(), BleError>>)
        ensures
            r.model() == stop_scan_begin::<S, A>(),
    {
        Step::Do(StopScan::Locking, Action::Lock(LockName::Scan))
    }

    /// Goes on with stopping a scan.
    pub fn resume_stop_scan(&mut self, op: StopScan, reply: Reply) -> (r: Step<
        StopScan,
        S,
        A,
        Result<(), BleError>,
    >)
        requires
            old(self).wf(),
            op.awaits(old(self)@, reply),
        ensures
            final(self).wf(),
            (final(self)@, r.model()) == stop_scan_step(old(self)@, op, reply),
    {
        match (op, reply) {
            (StopScan::Locking, Reply::Acknowledged) => {
                match self.scan_task() {
                    Some(task) => {
                        self.hold(LockName::Scan);
                        let _ = self.replace_scan_task(None);
                        Step::Do(StopScan::Aborting, Action::AbortTask(task))
                    },
                    None => Step::Do(StopScan::Unlocking, Action::Unlock(LockName::Scan)),
                }
            },
            (StopScan::Aborting, Reply::Acknowledged) => {
                self.release(LockName::Scan);
                Step::Do(StopScan::Unlocking, Action::Unlock(LockName::Scan))
            },
            (StopScan::Unlocking, Reply::Acknowledged) => Step::Do(
                StopScan::Initializing,
                Action::InitAdapter,
            ),
            (StopScan::Initializing, Reply::Initialized(Err(e))) => Step::Done(Err(e)),
            (StopScan::Initializing, Reply::Initialized(Ok(adapter))) => Step::Do(
                StopScan::Stopping,
                Action::StopAdapterScan(adapter),
            ),
            (StopScan::Stopping, Reply::Finished(_)) => Step::Do(
                StopScan::Announcing,
                Action::AnnounceScan(false),
            ),
            (StopScan::Announcing, Reply::Acknowledged) => Step::Done(Ok(())),
            _ => unreached(),
        }
    }
}

} // verus!

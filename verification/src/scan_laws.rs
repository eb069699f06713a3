//! What scanning for devices and initializing the adapter ask for, and what comes of them.
use vstd::prelude::*;

use crate::adapter::{
    central_of, init_adapter_begin, init_adapter_step, state_of, InitAdapter,
};
use crate::connect_laws::asks;
use crate::error::{BleError, ErrorView, TIME_LIMIT_MS};
use crate::filter::{keeps, survivors, Sighting};
use crate::handler::HandlerView;
use crate::models::{
    AdapterId, BleDevice, CentralState, LockName, PeripheralId, Properties, ScanFilter, Uuid,
};
use crate::scan::{
    discover_begin, discover_step, readable, rounds_of, scan_task_begin, scan_task_step,
    stop_scan_begin, stop_scan_step, with_devices, Discover, DiscoverStage, ScanStage,
    ScanStageView, ScanTask, ScanTaskStep, ScanTaskView, StopScan, StopScanStep,
};
use crate::step::{Action, Reply, Step};
use crate::text::{at_key, has_key, is_sorted_form, sorted_form_has_length, text_le, Addressed};

verus! {

/// Without a filter every sighting passes. With one, only a sighting passes whose properties and
/// signal strength are known.
pub proof fn a_filter_asks_for_properties_and_signal(filter: ScanFilter, seen: Sighting)
    ensures
        filter is Unfiltered ==> keeps(filter, seen),
        !(filter is Unfiltered) && keeps(filter, seen) ==> (seen.properties matches Some(p) && p.rssi is Some),
{
}

/// A filter for services looks for them among those that are advertised: for the one, for any of
/// the list, or for all of the list.
pub proof fn service_filters_look_at_the_advertised_services(
    uuid: Uuid,
    list: Vec<Uuid>,
    seen: Sighting,
    p: Properties,
)
    requires
        seen.properties == Some(p),
        p.rssi is Some,
    ensures
        keeps(ScanFilter::Service(uuid), seen) == exists|i: int|
            0 <= i < p.services@.len() && #[trigger] p.services@[i] == uuid,
        keeps(ScanFilter::AnyService(list), seen) == exists|i: int, j: int|
            0 <= i < p.services@.len() && 0 <= j < list@.len() && #[trigger] p.services@[i]
                == #[trigger] list@[j],
        keeps(ScanFilter::AllServices(list), seen) == forall|j: int|
            0 <= j < list@.len() ==> p.services@.contains(#[trigger] list@[j]),
{
    let any = ScanFilter::AnyService(list);
    if keeps(any, seen) {
        let u = choose|u: Uuid| #[trigger] p.services@.contains(u) && any->AnyService_0@.contains(u);
        let i = choose|i: int| 0 <= i < p.services@.len() && p.services@[i] == u;
        let j = choose|j: int| 0 <= j < list@.len() && list@[j] == u;
        assert(p.services@[i] == list@[j]);
    }
    if exists|i: int, j: int|
        0 <= i < p.services@.len() && 0 <= j < list@.len() && #[trigger] p.services@[i]
            == #[trigger] list@[j] {
        let (i, j) = choose|i: int, j: int|
            0 <= i < p.services@.len() && 0 <= j < list@.len() && #[trigger] p.services@[i]
                == #[trigger] list@[j];
        assert(p.services@.contains(p.services@[i]));
        assert(any->AnyService_0@.contains(p.services@[i]));
    }
    let all = ScanFilter::AllServices(list);
    if keeps(all, seen) {
        assert forall|j: int| 0 <= j < list@.len() implies p.services@.contains(#[trigger] list@[j]) by {
            assert(all->AllServices_0@.contains(list@[j]));
        }
    }
}

/// A filter for the exact data of a manufacturer lets a sighting pass exactly if it has data under
/// the key, and these are as many bytes as the wanted ones and the same.
pub proof fn exact_data_are_compared_byte_by_byte(
    key: u16,
    value: Vec<u8>,
    seen: Sighting,
    p: Properties,
)
    requires
        seen.properties == Some(p),
        p.rssi is Some,
    ensures
        keeps(ScanFilter::ManufacturerData(key, value), seen) == (p.manufacturer_data@.contains_key(key) && {
            let data = p.manufacturer_data@[key]@;
            data.len() == value@.len() && forall|i: int|
                0 <= i < data.len() ==> #[trigger] data[i] == value@[i]
        }),
{
    if p.manufacturer_data@.contains_key(key) {
        let data = p.manufacturer_data@[key]@;
        if data.len() == value@.len() && forall|i: int|
            0 <= i < data.len() ==> #[trigger] data[i] == value@[i] {
            assert(data =~= value@);
        }
    }
}

/// A filter with a mask lets a sighting pass exactly if it has data under the key, and every byte
/// of these agrees with the wanted byte wherever the mask has a one, as far as the data, the
/// wanted bytes and the mask reach.
pub proof fn masked_data_are_compared_byte_by_byte(
    key: u16,
    value: Vec<u8>,
    mask: Vec<u8>,
    seen: Sighting,
    p: Properties,
)
    requires
        seen.properties == Some(p),
        p.rssi is Some,
    ensures
        keeps(ScanFilter::ManufacturerDataMasked(key, value, mask), seen)
            == (p.manufacturer_data@.contains_key(key) && forall|i: int|
            0 <= i < p.manufacturer_data@[key]@.len() && i < value@.len() && i < mask@.len() ==> (
            #[trigger] p.manufacturer_data@[key]@[i] & mask@[i]) == (value@[i] & mask@[i])),
{
    let f = ScanFilter::ManufacturerDataMasked(key, value, mask);
    let data = p.manufacturer_data@[key]@;
    if p.manufacturer_data@.contains_key(key) && forall|i: int|
        0 <= i < data.len() && i < value@.len() && i < mask@.len() ==> (#[trigger] data[i] & mask@[i]) == (
        value@[i] & mask@[i]) {
        assert(keeps(f, seen));
    }
}

/// Under a mask of ones, data of the same length pass exactly if they are the wanted ones. Under a
/// mask of zeros, any data under the key pass.
pub proof fn masks_of_ones_and_of_zeros(
    key: u16,
    value: Vec<u8>,
    mask: Vec<u8>,
    seen: Sighting,
    p: Properties,
)
    requires
        seen.properties == Some(p),
        p.rssi is Some,
        p.manufacturer_data@.contains_key(key),
        mask@.len() == value@.len(),
    ensures
        (forall|i: int| 0 <= i < mask@.len() ==> #[trigger] mask@[i] == 0xff)
            && p.manufacturer_data@[key]@.len() == value@.len() ==> keeps(
            ScanFilter::ManufacturerDataMasked(key, value, mask),
            seen,
        ) == keeps(ScanFilter::ManufacturerData(key, value), seen),
        (forall|i: int| 0 <= i < mask@.len() ==> #[trigger] mask@[i] == 0) ==> keeps(
            ScanFilter::ManufacturerDataMasked(key, value, mask),
            seen,
        ),
{
    let data = p.manufacturer_data@[key]@;
    masked_data_are_compared_byte_by_byte(key, value, mask, seen, p);
    exact_data_are_compared_byte_by_byte(key, value, seen, p);
    assert(forall|x: u8| #[trigger] (x & 0xffu8) == x) by (bit_vector);
    assert(forall|x: u8| #[trigger] (x & 0u8) == 0u8) by (bit_vector);
    if keeps(ScanFilter::ManufacturerDataMasked(key, value, mask), seen) && data.len() == value@.len()
        && forall|i: int| 0 <= i < mask@.len() ==> #[trigger] mask@[i] == 0xff {
        assert forall|i: int| 0 <= i < data.len() implies #[trigger] data[i] == value@[i] by {
            assert(mask@[i] == 0xff);
            assert((p.manufacturer_data@[key]@[i] & mask@[i]) == (value@[i] & mask@[i]));
        }
    }
    if forall|i: int| 0 <= i < mask@.len() ==> #[trigger] mask@[i] == 0 {
        assert forall|i: int| 0 <= i < data.len() && i < value@.len() && i < mask@.len() implies (
        #[trigger] p.manufacturer_data@[key]@[i] & mask@[i]) == (value@[i] & mask@[i]) by {
            assert(mask@[i] == 0);
        }
    }
}

/// What a mask hides does not count: if two masked filters agree wherever the mask has a one, the
/// same sightings pass.
pub proof fn what_a_mask_hides_does_not_count(
    key: u16,
    value: Vec<u8>,
    other: Vec<u8>,
    mask: Vec<u8>,
    seen: Sighting,
)
    requires
        value@.len() == other@.len(),
        forall|i: int|
            0 <= i < value@.len() && i < mask@.len() ==> (#[trigger] value@[i] & mask@[i]) == (other@[i]
                & mask@[i]),
    ensures
        keeps(ScanFilter::ManufacturerDataMasked(key, value, mask), seen) == keeps(
            ScanFilter::ManufacturerDataMasked(key, other, mask),
            seen,
        ),
{
    if let Some(p) = seen.properties {
        if p.rssi is Some {
            masked_data_are_compared_byte_by_byte(key, value, mask, seen, p);
            masked_data_are_compared_byte_by_byte(key, other, mask, seen, p);
            let data = p.manufacturer_data@[key]@;
            if keeps(ScanFilter::ManufacturerDataMasked(key, value, mask), seen) {
                assert forall|i: int| 0 <= i < data.len() && i < other@.len() && i < mask@.len() implies (
                #[trigger] p.manufacturer_data@[key]@[i] & mask@[i]) == (other@[i] & mask@[i]) by {
                    assert((value@[i] & mask@[i]) == (other@[i] & mask@[i]));
                }
            }
            if keeps(ScanFilter::ManufacturerDataMasked(key, other, mask), seen) {
                assert forall|i: int| 0 <= i < data.len() && i < value@.len() && i < mask@.len() implies (
                #[trigger] p.manufacturer_data@[key]@[i] & mask@[i]) == (value@[i] & mask@[i]) by {
                    assert((value@[i] & mask@[i]) == (other@[i] & mask@[i]));
                }
            }
        }
    }
}

/// A sighting is left exactly if it was there and passes.
pub proof fn a_sighting_is_left_if_it_passes(s: Seq<Sighting>, filter: ScanFilter, seen: Sighting)
    ensures
        survivors(s, filter).contains(seen) == (s.contains(seen) && keeps(filter, seen)),
        survivors(s, filter).len() <= s.len(),
    decreases s.len(),
{
    if s.len() > 0 {
        let tail = s.drop_first();
        let rest = survivors(tail, filter);
        let all = survivors(s, filter);
        a_sighting_is_left_if_it_passes(tail, filter, seen);
        assert(s.contains(seen) == (s[0] == seen || tail.contains(seen))) by {
            if s.contains(seen) {
                let i = choose|i: int| 0 <= i < s.len() && s[i] == seen;
                if i > 0 {
                    assert(tail[i - 1] == seen);
                }
            }
            if tail.contains(seen) {
                let i = choose|i: int| 0 <= i < tail.len() && tail[i] == seen;
                assert(s[i + 1] == seen);
            }
        }
        if keeps(filter, s[0]) {
            assert(all == seq![s[0]] + rest);
            if all.contains(seen) {
                let i = choose|i: int| 0 <= i < all.len() && all[i] == seen;
                if i > 0 {
                    assert(rest[i - 1] == seen);
                }
            }
            if rest.contains(seen) {
                let i = choose|i: int| 0 <= i < rest.len() && rest[i] == seen;
                assert(all[i + 1] == seen);
            }
            assert(all[0] == s[0]);
        } else if rest.len() > 0 {
            assert(all == seq![rest.last()] + rest.drop_last());
            if all.contains(seen) {
                let i = choose|i: int| 0 <= i < all.len() && all[i] == seen;
                if i > 0 {
                    assert(rest[i - 1] == seen);
                } else {
                    assert(rest[rest.len() - 1] == seen);
                }
            }
            if rest.contains(seen) {
                let i = choose|i: int| 0 <= i < rest.len() && rest[i] == seen;
                if i == rest.len() - 1 {
                    assert(all[0] == seen);
                } else {
                    assert(all[i + 1] == seen);
                }
            }
        }
    }
}

/// How the order of the sightings comes about: one that passes keeps its place before those behind
/// it; the place of one that does not is taken by the last of those that are left behind it.
pub proof fn the_last_takes_the_place_of_one_that_goes(
    first: Sighting,
    behind: Seq<Sighting>,
    filter: ScanFilter,
)
    ensures
        ({
            let rest = survivors(behind, filter);
            survivors(seq![first] + behind, filter) == if keeps(filter, first) {
                seq![first] + rest
            } else if rest.len() == 0 {
                rest
            } else {
                seq![rest[rest.len() - 1]] + rest.take(rest.len() - 1)
            }
        }),
        survivors(Seq::empty(), filter).len() == 0,
{
    let s = seq![first] + behind;
    assert(s.drop_first() =~= behind);
    assert(s[0] == first);
    let rest = survivors(behind, filter);
    if rest.len() > 0 {
        assert(rest.drop_last() =~= rest.take(rest.len() - 1));
    }
}

/// A scan has a round for each 200 milliseconds, and at least one.
pub proof fn a_round_takes_a_fifth_of_a_second(timeout: u64)
    ensures
        timeout < 200 ==> rounds_of(timeout) == 1,
        timeout >= 200 ==> 200 * rounds_of(timeout) <= timeout < 200 * (rounds_of(timeout) + 1),
{
}

/// The readings that are descriptions are given in their order, and no others.
pub proof fn descriptions_keep_their_order(
    readings: Seq<Result<BleDevice, BleError>>,
    d: BleDevice,
    e: BleError,
)
    ensures
        readable(Seq::empty()).len() == 0,
        readable(readings.push(Ok(d))) == readable(readings).push(d),
        readable(readings.push(Err(e))) == readable(readings),
{
    assert(readings.push(Ok(d)).drop_last() =~= readings);
    assert(readings.push(Err(e)).drop_last() =~= readings);
}

/// Each description is added under its address, with the peripheral in the same place.
pub proof fn descriptions_are_added_one_by_one(
    devices: Map<Seq<char>, PeripheralId>,
    discovered: Seq<PeripheralId>,
    readings: Seq<Result<BleDevice, BleError>>,
    d: BleDevice,
    e: BleError,
)
    ensures
        with_devices(devices, discovered, Seq::empty()) == devices,
        with_devices(devices, discovered, readings.push(Ok(d))) == with_devices(
            devices,
            discovered,
            readings,
        ).insert(d.address@, discovered[readings.len() as int]),
        with_devices(devices, discovered, readings.push(Err(e))) == with_devices(
            devices,
            discovered,
            readings,
        ),
{
    assert(readings.push(Ok(d)).drop_last() =~= readings);
    assert(readings.push(Err(e)).drop_last() =~= readings);
}

/// What is sorted has the same items, each as often, in ascending order of their addresses, and
/// those with one address in the order that they had.
pub proof fn sorted_items_ascend_by_address<I: Addressed>(out: Seq<I>, s: Seq<I>, address: Seq<char>)
    requires
        is_sorted_form(out, s),
    ensures
        out.to_multiset() == s.to_multiset(),
        forall|i: int, j: int|
            0 <= i <= j < out.len() ==> text_le((#[trigger] out[i]).key(), (#[trigger] out[j]).key()),
        out.filter(|t: I| t.key() == address) == s.filter(|t: I| t.key() == address),
{
    let p = |t: I| t.key() == address;
    assert(has_key::<I>(address) =~= p);
    assert(at_key(out, address) == at_key(s, address));
}

/// A scan starts with nothing discovered and with a round of 200 milliseconds. Nothing else of the
/// handler changes.
pub proof fn a_scan_starts_afresh<S, A, C, T>(h: HandlerView<S, A, C, T>, op: ScanTaskView)
    ensures
        ({
            let (h2, step) = scan_task_begin(h, op);
            &&& h2 == (HandlerView { devices: Map::empty(), ..h })
            &&& step == ScanTaskStep::<S, A>::Do(
                ScanTaskView { stage: ScanStageView::Sleeping, ..op },
                Action::Sleep(200),
            )
        }),
{
}

/// A scan stays with its adapter, its filter and its task: it lists the peripherals of its adapter
/// and stops its adapter, and reports under its task. The stages go with what they wait for. It
/// reports only if reports are wanted, and each of its rounds takes 200 milliseconds.
pub proof fn a_scan_stays_with_its_adapter<S, A, C, T>(
    h: HandlerView<S, A, C, T>,
    op: ScanTaskView,
    reply: Reply,
    h2: HandlerView<S, A, C, T>,
    step: ScanTaskStep<S, A>,
)
    requires
        scan_task_step(h, op, reply, h2, step),
    ensures
        h2 == (HandlerView { devices: h2.devices, ..h }),
        !(op.stage is Describing) ==> h2 == h,
        step matches Step::Do(op2, action) ==> {
            &&& op2.task == op.task
            &&& op2.adapter == op.adapter
            &&& op2.filter == op.filter
            &&& op2.reports == op.reports
            &&& op2.rounds_left == if action is Sleep {
                op.rounds_left - 1
            } else {
                op.rounds_left as int
            }
            &&& match action {
                Action::Sleep(ms) => ms == 200 && op.rounds_left > 0 && op2.stage is Sleeping && (op.stage is Describing
                    || op.stage is Reporting),
                Action::ListPeripherals { adapter, with_properties } => adapter == op.adapter
                    && with_properties == !(op.filter is Unfiltered) && op2.stage is Listing && op.stage is Sleeping,
                Action::Describe(list) => op2.stage == ScanStageView::Describing(list@) && op.stage is Listing,
                Action::Report { scan, devices } => scan == op.task && op.reports && op2.stage is Reporting
                    && op.stage is Describing && devices@.len() > 0,
                Action::StopAdapterScan(adapter) => adapter == op.adapter && op.rounds_left == 0 && op2.stage is Stopping
                    && (op.stage is Describing || op.stage is Reporting),
                Action::AnnounceScan(running) => !running && op2.stage is Announcing && op.stage is Stopping,
                _ => false,
            }
        },
        step matches Step::Done(r) ==> r == Ok::<(), ErrorView>(()) && op.stage is Announcing,
{
    if let (ScanStageView::Describing(list), Reply::Described(readings)) = (op.stage, reply) {
        if op.reports && readable(readings@).len() > 0 {
            sorted_form_has_length(step->Do_1->devices@, readable(readings@));
        }
    }
}

/// At the end of a round the peripherals are described that were seen and pass the filter, and no
/// others.
pub proof fn peripherals_that_pass_are_described<S, A, C, T>(
    h: HandlerView<S, A, C, T>,
    op: ScanTaskView,
    seen: Vec<Sighting>,
    h2: HandlerView<S, A, C, T>,
    step: ScanTaskStep<S, A>,
    peripheral: PeripheralId,
)
    requires
        op.stage is Listing,
        scan_task_step(h, op, Reply::Sighted(seen), h2, step),
    ensures
        step matches Step::Do(_, Action::Describe(list)) && {
            &&& list@.len() == survivors(seen@, op.filter).len()
            &&& forall|i: int|
                0 <= i < list@.len() ==> #[trigger] list@[i] == survivors(seen@, op.filter)[i].peripheral
            &&& list@.contains(peripheral) == exists|i: int|
                0 <= i < seen@.len() && (#[trigger] seen@[i]).peripheral == peripheral && keeps(
                    op.filter,
                    seen@[i],
                )
        },
{
    let left = survivors(seen@, op.filter);
    let list = step->Do_1->Describe_0@;
    if list.contains(peripheral) {
        let j = choose|j: int| 0 <= j < list.len() && list[j] == peripheral;
        a_sighting_is_left_if_it_passes(seen@, op.filter, left[j]);
        assert(left.contains(left[j]));
        let i = choose|i: int| 0 <= i < seen@.len() && seen@[i] == left[j];
        assert(seen@[i].peripheral == peripheral);
    }
    if exists|i: int|
        0 <= i < seen@.len() && (#[trigger] seen@[i]).peripheral == peripheral && keeps(op.filter, seen@[i]) {
        let i = choose|i: int|
            0 <= i < seen@.len() && (#[trigger] seen@[i]).peripheral == peripheral && keeps(
                op.filter,
                seen@[i],
            );
        a_sighting_is_left_if_it_passes(seen@, op.filter, seen@[i]);
        assert(seen@.contains(seen@[i]));
        let j = choose|j: int| 0 <= j < left.len() && left[j] == seen@[i];
        assert(list[j] == peripheral);
    }
}

/// After the peripherals of a round were described, those with a description are remembered. If
/// reports are wanted and there is one, all descriptions are reported, in ascending order of their
/// addresses; else the round is over. After the last round the adapter stops, and before it the
/// next one begins.
pub proof fn a_round_ends_with_a_report<S, A, C, T>(
    h: HandlerView<S, A, C, T>,
    op: ScanTaskView,
    list: Seq<PeripheralId>,
    readings: Vec<Result<BleDevice, BleError>>,
    h2: HandlerView<S, A, C, T>,
    step: ScanTaskStep<S, A>,
)
    requires
        op.stage == ScanStageView::Describing(list),
        scan_task_step(h, op, Reply::Described(readings), h2, step),
    ensures
        h2.devices == with_devices(h.devices, list, readings@),
        (step matches Step::Do(_, Action::Report { .. })) == (op.reports && readable(readings@).len() > 0),
        step matches Step::Do(_, Action::Report { devices, .. }) ==> {
            &&& devices@.to_multiset() == readable(readings@).to_multiset()
            &&& forall|i: int, j: int|
                0 <= i <= j < devices@.len() ==> text_le(
                    (#[trigger] devices@[i]).address@,
                    (#[trigger] devices@[j]).address@,
                )
        },
        !(op.reports && readable(readings@).len() > 0) ==> asks(
            step,
            if op.rounds_left == 0 {
                Action::<S, A>::StopAdapterScan(op.adapter)
            } else {
                Action::<S, A>::Sleep(200)
            },
        ),
{
    if op.reports && readable(readings@).len() > 0 {
        let devices = step->Do_1->devices@;
        assert forall|i: int, j: int| 0 <= i <= j < devices.len() implies text_le(
            (#[trigger] devices[i]).address@,
            (#[trigger] devices[j]).address@,
        ) by {
            assert(text_le(devices[i].key(), devices[j].key()));
        }
    }
}

/// After a report the next round begins, or the adapter stops if there is none. Whether it could be
/// stopped makes no difference: the end is announced, and then the scan is over.
pub proof fn a_scan_ends_with_an_announcement<S, A, C, T>(
    h: HandlerView<S, A, C, T>,
    op: ScanTaskView,
    stopped: Result<(), btleplug::Error>,
    h2: HandlerView<S, A, C, T>,
    step: ScanTaskStep<S, A>,
)
    ensures
        op.stage is Reporting && scan_task_step(h, op, Reply::Acknowledged, h2, step) ==> asks(
            step,
            if op.rounds_left == 0 {
                Action::<S, A>::StopAdapterScan(op.adapter)
            } else {
                Action::<S, A>::Sleep(200)
            },
        ),
        op.stage is Sleeping && scan_task_step(h, op, Reply::Acknowledged, h2, step) ==> asks(
            step,
            Action::<S, A>::ListPeripherals {
                adapter: op.adapter,
                with_properties: !(op.filter is Unfiltered),
            },
        ),
        op.stage is Stopping && scan_task_step(h, op, Reply::Finished(stopped), h2, step) ==> asks(
            step,
            Action::<S, A>::AnnounceScan(false),
        ),
        op.stage is Announcing && scan_task_step(h, op, Reply::Acknowledged, h2, step) ==> step
            == ScanTaskStep::<S, A>::Done(Ok(())),
{
}

/// A scan with a mask that does not fit its data is refused, and no other: the adapter is asked for,
/// and the scan is as it was given.
pub proof fn only_a_mask_that_does_not_fit_is_refused<S, A>(op: Discover)
    ensures
        ({
            let misfit = op.filter matches ScanFilter::ManufacturerDataMasked(_, data, mask) && data@.len()
                != mask@.len();
            discover_begin::<S, A>(op) == if misfit {
                Step::<Discover, S, A, Result<(), ErrorView>>::Done(Err(ErrorView::InvalidFilterMask))
            } else {
                Step::<Discover, S, A, Result<(), ErrorView>>::Do(
                    Discover { stage: DiscoverStage::Initializing, ..op },
                    Action::InitAdapter,
                )
            }
        }),
{
}

/// Starting a scan carries what it was given, and stays with the adapter that it got: it stops and
/// starts no other, and finds iBeacons if that is allowed. The background task gets the filter,
/// the wish for reports, and the rounds that fit in the time.
pub proof fn a_scan_is_started_as_it_was_given<S, A, C, T>(
    h: HandlerView<S, A, C, T>,
    op: Discover,
    reply: Reply,
)
    requires
        op.awaits(h, reply),
    ensures
        discover_step(h, op, reply).1 matches Step::Do(op2, action) ==> {
            &&& op2.reports == op.reports
            &&& op2.timeout == op.timeout
            &&& op2.allow_ibeacons == op.allow_ibeacons
            &&& !(action is SpawnScan) ==> op2.filter == op.filter
            &&& adapter_of(op.stage) matches Some(adapter) ==> {
                &&& adapter_of(op2.stage) matches Some(a) ==> a == adapter
                &&& action matches Action::StopAdapterScan(a) ==> a == adapter
                &&& action matches Action::StartAdapterScan { adapter: a, allow_ibeacons } ==> a == adapter
                    && allow_ibeacons == op.allow_ibeacons
                &&& action matches Action::SpawnScan(scan) ==> scan == (ScanTask {
                    task: h.next_token,
                    adapter,
                    filter: op.filter,
                    reports: op.reports,
                    rounds_left: scan.rounds_left,
                    stage: ScanStage::Spawned,
                }) && scan.rounds_left + 1 == rounds_of(op.timeout)
            }
        },
{
}

/// The adapter that the start of a scan works with, once it has one.
pub open spec fn adapter_of(stage: DiscoverStage) -> Option<AdapterId> {
    match stage {
        DiscoverStage::Initializing => None,
        DiscoverStage::Locking(a) => Some(a),
        DiscoverStage::Aborting(a) => Some(a),
        DiscoverStage::Stopping(a) => Some(a),
        DiscoverStage::Starting(a) => Some(a),
        DiscoverStage::Unlocking(a) => Some(a),
        DiscoverStage::Announcing(a) => Some(a),
        DiscoverStage::Storing(a) => Some(a),
        DiscoverStage::Spawning => None,
    }
}

/// A scan starts in order, whatever else happens meanwhile: the lock is taken; the task of the
/// last scan is aborted and the adapter stopped, if there was one; then the adapter is told to
/// scan.
pub proof fn the_last_scan_is_ended_first<S, A, C, T>(
    op: Discover,
    adapter: AdapterId,
    h1: HandlerView<S, A, C, T>,
    h2: HandlerView<S, A, C, T>,
    h3: HandlerView<S, A, C, T>,
    h4: HandlerView<S, A, C, T>,
    stopped: Result<(), btleplug::Error>,
    e: BleError,
)
    requires
        op.stage is Initializing,
    ensures
        ({
            let locking = discover_step(h1, op, Reply::Initialized(Ok(adapter)));
            let locked = discover_step(h2, locking.1->Do_0, Reply::Acknowledged);
            let aborted = discover_step(h3, locked.1->Do_0, Reply::Acknowledged);
            let ended = discover_step(h4, aborted.1->Do_0, Reply::Finished(stopped));
            let start = Action::<S, A>::StartAdapterScan { adapter, allow_ibeacons: op.allow_ibeacons };
            &&& locking.0 == h1
            &&& asks(locking.1, Action::<S, A>::Lock(LockName::Scan))
            &&& locked.0 == (HandlerView {
                scan_task: None,
                held: h2.held.insert(LockName::Scan),
                ..h2
            })
            &&& match h2.scan_task {
                None => asks(locked.1, start),
                Some(task) => {
                    &&& asks(locked.1, Action::<S, A>::AbortTask(task))
                    &&& aborted.0 == h3
                    &&& asks(aborted.1, Action::<S, A>::StopAdapterScan(adapter))
                    &&& ended.0 == h4
                    &&& asks(ended.1, start)
                },
            }
        }),
        discover_step(h1, op, Reply::Initialized(Err(e))) == (
            h1,
            Step::<Discover, S, A, Result<(), ErrorView>>::Done(Err(e@)),
        ),
{
}

/// When the adapter scans, the lock is given back, the start is announced, and under the lock again
/// the scan is handed to a new task, which is noted. Then the lock is given back, and the start has
/// succeeded. If the adapter could not scan, its error is the result.
pub proof fn a_started_scan_is_announced_and_runs<S, A, C, T>(
    op: Discover,
    adapter: AdapterId,
    h1: HandlerView<S, A, C, T>,
    h2: HandlerView<S, A, C, T>,
    h3: HandlerView<S, A, C, T>,
    h4: HandlerView<S, A, C, T>,
    h5: HandlerView<S, A, C, T>,
    e: btleplug::Error,
)
    requires
        op.stage == DiscoverStage::Starting(adapter),
        h4.has_tokens(),
    ensures
        ({
            let unlocking = discover_step(h1, op, Reply::Finished(Ok(())));
            let announcing = discover_step(h2, unlocking.1->Do_0, Reply::Acknowledged);
            let locking = discover_step(h3, announcing.1->Do_0, Reply::Acknowledged);
            let spawning = discover_step(h4, locking.1->Do_0, Reply::Acknowledged);
            let ended = discover_step(h5, spawning.1->Do_0, Reply::Acknowledged);
            let released = HandlerView { held: h1.held.remove(LockName::Scan), ..h1 };
            &&& unlocking.0 == released
            &&& asks(unlocking.1, Action::<S, A>::Unlock(LockName::Scan))
            &&& announcing.0 == h2
            &&& asks(announcing.1, Action::<S, A>::AnnounceScan(true))
            &&& locking.0 == h3
            &&& asks(locking.1, Action::<S, A>::Lock(LockName::Scan))
            &&& spawning.0 == (HandlerView {
                scan_task: Some(h4.next_token),
                held: h4.held.insert(LockName::Scan),
                next_token: spawning.0.next_token,
                ..h4
            })
            &&& spawning.0.next_token == h4.next_token + 1
            &&& spawning.1 matches Step::Do(_, Action::SpawnScan(scan)) && {
                &&& scan.task == h4.next_token
                &&& scan.adapter == adapter
                &&& scan.filter == op.filter
                &&& scan.reports == op.reports
                &&& scan.rounds_left + 1 == rounds_of(op.timeout)
                &&& scan.stage is Spawned
            }
            &&& ended == (
                HandlerView { held: h5.held.remove(LockName::Scan), ..h5 },
                Step::<Discover, S, A, Result<(), ErrorView>>::Done(Ok(())),
            )
            &&& discover_step(h1, op, Reply::Finished(Err(e))) == (
                released,
                Step::<Discover, S, A, Result<(), ErrorView>>::Done(Err(ErrorView::Btleplug(e))),
            )
        }),
{
}

/// Stopping a scan goes in order, whatever else happens meanwhile: under the lock the task of the
/// scan, if there is one, is aborted and forgotten; the lock is given back; the adapter is asked
/// for and stopped; whether it could be makes no difference; the end is announced, and the
/// operation has succeeded. Only without an adapter it fails.
pub proof fn stopping_ends_the_scan<S, A, C, T>(
    h1: HandlerView<S, A, C, T>,
    h2: HandlerView<S, A, C, T>,
    h3: HandlerView<S, A, C, T>,
    h4: HandlerView<S, A, C, T>,
    h5: HandlerView<S, A, C, T>,
    h6: HandlerView<S, A, C, T>,
    adapter: AdapterId,
    stopped: Result<(), btleplug::Error>,
    e: BleError,
)
    ensures
        ({
            let begun = stop_scan_begin::<S, A>();
            let locked = stop_scan_step(h1, begun->Do_0, Reply::Acknowledged);
            let unlocking = if h1.scan_task is Some {
                stop_scan_step(h2, locked.1->Do_0, Reply::Acknowledged)
            } else {
                locked
            };
            let asking = stop_scan_step(h3, unlocking.1->Do_0, Reply::Acknowledged);
            let failed = stop_scan_step(h4, asking.1->Do_0, Reply::Initialized(Err(e)));
            let stopping = stop_scan_step(h4, asking.1->Do_0, Reply::Initialized(Ok(adapter)));
            let announcing = stop_scan_step(h5, stopping.1->Do_0, Reply::Finished(stopped));
            let ended = stop_scan_step(h6, announcing.1->Do_0, Reply::Acknowledged);
            &&& asks(begun, Action::<S, A>::Lock(LockName::Scan))
            &&& match h1.scan_task {
                Some(task) => {
                    &&& asks(locked.1, Action::<S, A>::AbortTask(task))
                    &&& locked.0 == (HandlerView {
                        scan_task: None,
                        held: h1.held.insert(LockName::Scan),
                        ..h1
                    })
                    &&& unlocking.0 == (HandlerView { held: h2.held.remove(LockName::Scan), ..h2 })
                },
                None => locked.0 == h1,
            }
            &&& asks(unlocking.1, Action::<S, A>::Unlock(LockName::Scan))
            &&& asking.0 == h3 && asks(asking.1, Action::<S, A>::InitAdapter)
            &&& failed == (h4, StopScanStep::<S, A>::Done(Err(e@)))
            &&& stopping.0 == h4 && asks(stopping.1, Action::<S, A>::StopAdapterScan(adapter))
            &&& announcing.0 == h5 && asks(announcing.1, Action::<S, A>::AnnounceScan(false))
            &&& ended == (h6, StopScanStep::<S, A>::Done(Ok(())))
        }),
{
}

/// Scanning goes on with every answer to what it asks for: with the lock once no other holds it,
/// and with the rest while it holds it.
pub proof fn scans_take_every_answer<S, A, C, T>(
    h: HandlerView<S, A, C, T>,
    discover: Discover,
    stop: StopScan,
    init: InitAdapter,
    scan: ScanTaskView,
    adapter: Result<AdapterId, BleError>,
    adapters: Result<Vec<AdapterId>, btleplug::Error>,
    done: Result<(), btleplug::Error>,
    seen: Vec<Sighting>,
    readings: Vec<Result<BleDevice, BleError>>,
)
    ensures
        ({
            let held = h.held.contains(LockName::Scan);
            let go = Reply::Acknowledged;
            &&& discover.stage is Initializing ==> discover.awaits(h, Reply::Initialized(adapter))
            &&& discover.stage is Locking || discover.stage is Storing ==> discover.awaits(h, go) == !held
            &&& discover.stage is Aborting || discover.stage is Spawning ==> discover.awaits(h, go) == held
            &&& discover.stage is Stopping || discover.stage is Starting ==> discover.awaits(
                h,
                Reply::Finished(done),
            ) == held
            &&& discover.stage is Unlocking || discover.stage is Announcing ==> discover.awaits(h, go)
            &&& stop is Locking ==> stop.awaits(h, go) == !held
            &&& stop is Aborting ==> stop.awaits(h, go) == held
            &&& stop is Unlocking || stop is Announcing ==> stop.awaits(h, go)
            &&& stop is Initializing ==> stop.awaits(h, Reply::Initialized(adapter))
            &&& stop is Stopping ==> stop.awaits(h, Reply::Finished(done))
        }),
        ({
            let held = h.held.contains(LockName::Adapter);
            &&& init is Locking ==> init.awaits(h, Reply::Acknowledged) == !held
            &&& init is Listing ==> init.awaits(h, Reply::Adapters(adapters)) == held
            &&& init is Listening ==> init.awaits(h, Reply::Acknowledged) == held
        }),
        scan.stage is Sleeping || scan.stage is Reporting || scan.stage is Announcing ==> scan.awaits(
            Reply::Acknowledged,
        ),
        scan.stage is Listing ==> scan.awaits(Reply::Sighted(seen)),
        scan.stage matches ScanStageView::Describing(list) ==> scan.awaits(Reply::Described(readings)) == (
        readings@.len() == list.len()),
        scan.stage is Stopping ==> scan.awaits(Reply::Finished(done)),
{
}

/// Of the adapters of the host the first one is used; without one there is an error.
pub proof fn the_first_adapter_is_taken<D>(adapters: Seq<D>)
    ensures
        match central_of(adapters) {
            Ok(d) => adapters.len() > 0 && d == adapters[0],
            Err(e) => adapters.len() == 0 && e == ErrorView::NoAdapters,
        },
{
}

/// Initializing the adapter takes the lock, lists the adapters of the host, listens to the events
/// of the first one, stores it and gives it, whatever else happens meanwhile. An adapter that was
/// stored meanwhile is given instead. Without an adapter, or if they cannot be listed, it fails
/// and stores nothing. In the end the lock is given back.
pub proof fn the_first_adapter_is_initialized<S, A, C, T>(
    h: HandlerView<S, A, C, T>,
    h1: HandlerView<S, A, C, T>,
    h2: HandlerView<S, A, C, T>,
    h3: HandlerView<S, A, C, T>,
    adapters: Vec<AdapterId>,
    e: btleplug::Error,
)
    requires
        h.adapter is None,
    ensures
        ({
            let begun = init_adapter_begin(h);
            let locked = init_adapter_step(h1, begun->Do_0, Reply::Acknowledged);
            let failed = init_adapter_step(h2, locked.1->Do_0, Reply::Adapters(Err(e)));
            let listed = init_adapter_step(h2, locked.1->Do_0, Reply::Adapters(Ok(adapters)));
            let ended = init_adapter_step(h3, listed.1->Do_0, Reply::Acknowledged);
            &&& asks(begun, Action::<S, A>::Lock(LockName::Adapter))
            &&& match h1.adapter {
                Some(a) => locked == (
                    h1,
                    Step::<InitAdapter, S, A, Result<AdapterId, ErrorView>>::Done(Ok(a)),
                ),
                None => {
                    let released = HandlerView { held: h2.held.remove(LockName::Adapter), ..h2 };
                    &&& locked.0 == (HandlerView { held: h1.held.insert(LockName::Adapter), ..h1 })
                    &&& asks(locked.1, Action::<S, A>::ListAdapters)
                    &&& failed == (
                        released,
                        Step::<InitAdapter, S, A, Result<AdapterId, ErrorView>>::Done(
                            Err(ErrorView::Btleplug(e)),
                        ),
                    )
                    &&& adapters@.len() == 0 ==> listed == (
                        released,
                        Step::<InitAdapter, S, A, Result<AdapterId, ErrorView>>::Done(
                            Err(ErrorView::NoAdapters),
                        ),
                    )
                    &&& adapters@.len() > 0 ==> {
                        let adapter = match h3.adapter {
                            Some(stored) => stored,
                            None => adapters@[0],
                        };
                        &&& listed.0 == h2
                        &&& asks(listed.1, Action::<S, A>::ListenToEvents(adapters@[0]))
                        &&& ended == (
                            HandlerView {
                                adapter: Some(adapter),
                                held: h3.held.remove(LockName::Adapter),
                                ..h3
                            },
                            Step::<InitAdapter, S, A, Result<AdapterId, ErrorView>>::Done(Ok(adapter)),
                        )
                    }
                },
            }
        }),
{
}

/// The adapter is on or off exactly if it reports so, and in any other case its state is unknown.
pub proof fn the_adapter_is_on_or_off_if_it_says_so(
    reading: Result<Result<CentralState, btleplug::Error>, BleError>,
)
    ensures
        (state_of(reading) is On) == (reading matches Ok(Ok(state)) && state is PoweredOn),
        (state_of(reading) is Off) == (reading matches Ok(Ok(state)) && state is PoweredOff),
        reading is Err ==> state_of(reading) is Unknown,
{
}

/// The adapter has five seconds for an operation with a time limit.
pub proof fn the_time_limit_is_five_seconds()
    ensures
        TIME_LIMIT_MS == 5 * 1000,
{
}

} // verus!

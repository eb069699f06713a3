//! Scan filters.
use vstd::prelude::*;

use crate::models::{PeripheralId, Properties, ScanFilter, Uuid};

verus! {

/// A peripheral that the adapter listed, with what it advertises. `properties` is `None`
/// when they could not be had.
#[derive(Debug)]
pub struct Sighting {
    pub peripheral: PeripheralId,
    pub properties: Option<Properties>,
}

/// The data and the mask of a masked filter have the same length.
pub open spec fn valid_filter(filter: ScanFilter) -> bool {
    filter matches ScanFilter::ManufacturerDataMasked(_, data, mask) ==> data@.len() == mask@.len()
}

/// Under the mask the data agree with the wanted value, as far as all three reach.
pub open spec fn masked_match(data: Seq<u8>, wanted: Seq<u8>, mask: Seq<u8>) -> bool {
    forall|i: int|
        0 <= i < data.len() && i < wanted.len() && i < mask.len() ==> (#[trigger] data[i] & mask[i]) == (
        wanted[i] & mask[i])
}

/// What the filter asks of an advertisement.
pub open spec fn advertises(filter: ScanFilter, p: Properties) -> bool {
    match filter {
        ScanFilter::Unfiltered => true,
        ScanFilter::Service(uuid) => p.services@.contains(uuid),
        ScanFilter::AnyService(uuids) => exists|u: Uuid|
            #[trigger] p.services@.contains(u) && uuids@.contains(u),
        ScanFilter::AllServices(uuids) => forall|u: Uuid| #[trigger]
            uuids@.contains(u) ==> p.services@.contains(u),
        ScanFilter::ManufacturerData(key, value) => p.manufacturer_data@.contains_key(key)
            && p.manufacturer_data@[key]@ == value@,
        ScanFilter::ManufacturerDataMasked(key, value, mask) => p.manufacturer_data@.contains_key(key)
            && masked_match(p.manufacturer_data@[key]@, value@, mask@),
    }
}

/// Whether the filter lets a sighting pass. Only the absence of a filter lets one pass whose
/// properties or signal strength are not known.
pub open spec fn keeps(filter: ScanFilter, seen: Sighting) -> bool {
    filter is Unfiltered || (seen.properties matches Some(p) && p.rssi is Some && advertises(filter, p))
}

/// What is left of `s`: in place of each sighting that does not pass stands the last of
/// those left behind it, if there is one.
pub open spec fn survivors(s: Seq<Sighting>, filter: ScanFilter) -> Seq<Sighting>
    decreases s.len(),
{
    if s.len() == 0 {
        s
    } else {
        let rest = survivors(s.drop_first(), filter);
        if keeps(filter, s[0]) {
            seq![s[0]] + rest
        } else if rest.len() == 0 {
            rest
        } else {
            seq![rest.last()] + rest.drop_last()
        }
    }
}

/// The filter takes out the sightings that do not pass and no others: what is left has the
/// same sightings as the list in which only those that pass are kept, each as often.
pub proof fn survivors_are_those_that_pass(s: Seq<Sighting>, filter: ScanFilter)
    ensures
        survivors(s, filter).to_multiset() == s.filter(
            |seen: Sighting| keeps(filter, seen),
        ).to_multiset(),
    decreases s.len(),
{
    broadcast use vstd::seq_lib::group_to_multiset_ensures;

    let p = |seen: Sighting| keeps(filter, seen);
    if s.len() == 0 {
        reveal(Seq::filter);
        assert(s.filter(p) =~= survivors(s, filter));
    } else {
        let one = seq![s[0]];
        let rest = survivors(s.drop_first(), filter);
        let kept = s.drop_first().filter(p);
        survivors_are_those_that_pass(s.drop_first(), filter);
        assert(s =~= one + s.drop_first());
        Seq::filter_distributes_over_add(one, s.drop_first(), p);
        reveal_with_fuel(Seq::filter, 2);
        assert(one.drop_last() =~= Seq::<Sighting>::empty());
        if keeps(filter, s[0]) {
            assert(one.filter(p) =~= one);
            vstd::seq_lib::lemma_multiset_commutative(one, rest);
            vstd::seq_lib::lemma_multiset_commutative(one, kept);
        } else {
            assert(one.filter(p) =~= Seq::<Sighting>::empty());
            assert(s.filter(p) =~= kept);
            if rest.len() > 0 {
                let last = seq![rest.last()];
                assert(rest =~= rest.drop_last() + last);
                vstd::seq_lib::lemma_multiset_commutative(rest.drop_last(), last);
                vstd::seq_lib::lemma_multiset_commutative(last, rest.drop_last());
            }
        }
    }
}

/// Without a filter all sightings are left, in their order.
pub proof fn unfiltered_keeps_all(s: Seq<Sighting>)
    ensures
        survivors(s, ScanFilter::Unfiltered) == s,
    decreases s.len(),
{
    if s.len() > 0 {
        unfiltered_keeps_all(s.drop_first());
        assert(seq![s[0]] + s.drop_first() =~= s);
    }
}

/// To ask for one service is to ask for any of a list, or for all of a list, that holds this
/// service alone.
pub proof fn one_service_is_any_or_all(uuid: Uuid, list: Vec<Uuid>, seen: Sighting)
    requires
        list@ == seq![uuid],
    ensures
        keeps(ScanFilter::Service(uuid), seen) == keeps(ScanFilter::AnyService(list), seen),
        keeps(ScanFilter::Service(uuid), seen) == keeps(ScanFilter::AllServices(list), seen),
{
    assert(list@[0] == uuid);
    assert(list@.contains(uuid));
    if let Some(p) = seen.properties {
        let all = ScanFilter::AllServices(list);
        if p.services@.contains(uuid) {
            assert forall|u: Uuid| #[trigger] list@.contains(u) implies p.services@.contains(u) by {
                assert(u == uuid);
            }
            assert(advertises(all, p));
        }
        if advertises(all, p) {
            assert(all->AllServices_0@.contains(uuid));
        }
    }
}

/// A sighting that passes for its exact data passes under every mask.
pub proof fn exact_data_pass_under_every_mask(key: u16, value: Vec<u8>, mask: Vec<u8>, seen: Sighting)
    requires
        keeps(ScanFilter::ManufacturerData(key, value), seen),
    ensures
        keeps(ScanFilter::ManufacturerDataMasked(key, value, mask), seen),
{
}

fn has_uuid(list: &Vec<Uuid>, uuid: Uuid) -> (r: bool)
    ensures
        r == list@.contains(uuid),
{
    let mut i: usize = 0;
    while i < list.len()
        invariant
            i <= list@.len(),
            forall|j: int| 0 <= j < i ==> list@[j] != uuid,
        decreases list@.len() - i,
    {
        if list[i] == uuid {
            return true;
        }
        i = i + 1;
    }
    false
}

fn shares_uuid(list: &Vec<Uuid>, wanted: &Vec<Uuid>) -> (r: bool)
    ensures
        r == exists|u: Uuid| #[trigger] list@.contains(u) && wanted@.contains(u),
{
    let mut i: usize = 0;
    while i < list.len()
        invariant
            i <= list@.len(),
            forall|j: int| 0 <= j < i ==> !wanted@.contains(#[trigger] list@[j]),
        decreases list@.len() - i,
    {
        if has_uuid(wanted, list[i]) {
            assert(list@.contains(list@[i as int]));
            return true;
        }
        i = i + 1;
    }
    false
}

fn has_all_uuids(list: &Vec<Uuid>, wanted: &Vec<Uuid>) -> (r: bool)
    ensures
        r == forall|u: Uuid| #[trigger] wanted@.contains(u) ==> list@.contains(u),
{
    let mut i: usize = 0;
    while i < wanted.len()
        invariant
            i <= wanted@.len(),
            forall|j: int| 0 <= j < i ==> list@.contains(#[trigger] wanted@[j]),
        decreases wanted@.len() - i,
    {
        if !has_uuid(list, wanted[i]) {
            assert(wanted@.contains(wanted@[i as int]));
            return false;
        }
        i = i + 1;
    }
    true
}

fn masked_equal(data: &Vec<u8>, wanted: &Vec<u8>, mask: &Vec<u8>) -> (r: bool)
    ensures
        r == masked_match(data@, wanted@, mask@),
{
    let mut i: usize = 0;
    while i < data.len() && i < mask.len() && i < wanted.len()
        invariant
            i <= data@.len(),
            forall|j: int|
                0 <= j < i && j < wanted@.len() && j < mask@.len() ==> (#[trigger] data@[j] & mask@[j]) == (
                wanted@[j] & mask@[j]),
        decreases data@.len() - i,
    {
        if (data[i] & mask[i]) != (wanted[i] & mask[i]) {
            return false;
        }
        i = i + 1;
    }
    true
}

/// Whether the filter lets a sighting pass.
pub fn passes(filter: &ScanFilter, seen: &Sighting) -> (r: bool)
    ensures
        r == keeps(*filter, *seen),
{
    broadcast use vstd::std_specs::hash::group_hash_axioms;

    if let ScanFilter::Unfiltered = filter {
        return true;
    }
    let properties = match &seen.properties {
        Some(p) => p,
        None => {
            return false;
        },
    };
    if properties.rssi.is_none() {
        return false;
    }
    match filter {
        ScanFilter::Unfiltered => true,
        ScanFilter::Service(uuid) => has_uuid(&properties.services, *uuid),
        ScanFilter::AnyService(uuids) => shares_uuid(&properties.services, uuids),
        ScanFilter::AllServices(uuids) => has_all_uuids(&properties.services, uuids),
        ScanFilter::ManufacturerData(key, value) => {
            match properties.manufacturer_data.get(key) {
                Some(data) => {
                    let same = *data == *value;
                    proof {
                        if same {
                            assert(data@ =~= value@);
                        }
                    }
                    same
                },
                None => false,
            }
        },
        ScanFilter::ManufacturerDataMasked(key, value, mask) => {
            match properties.manufacturer_data.get(key) {
                Some(data) => masked_equal(data, value, mask),
                None => false,
            }
        },
    }
}

/// Takes out the sightings that do not pass. The place of each that goes is taken by the
/// last one, so the order of those that stay may change.
pub fn filter_peripherals(discovered: &mut Vec<Sighting>, filter: &ScanFilter)
    ensures
        final(discovered)@ == survivors(old(discovered)@, *filter),
{
    let ghost s = discovered@;
    let mut i: usize = discovered.len();
    assert(discovered@ =~= s.take(i as int) + survivors(s.skip(i as int), *filter));
    while i > 0
        invariant
            i <= s.len(),
            discovered@ == s.take(i as int) + survivors(s.skip(i as int), *filter),
        decreases i,
    {
        let ghost tail = s.skip(i as int);
        let ghost rest = survivors(tail, *filter);
        i = i - 1;
        proof {
            assert(s.skip(i as int).drop_first() =~= tail);
            assert(s.skip(i as int)[0] == s[i as int]);
            assert(discovered@[i as int] == s[i as int]);
        }
        if !passes(filter, &discovered[i]) {
            discovered.swap_remove(i);
        }
        assert(discovered@ =~= s.take(i as int) + survivors(s.skip(i as int), *filter));
    }
    assert(s.skip(0) =~= s);
    assert(discovered@ =~= survivors(s, *filter));
}

/// Whether a filter can be used: the data and the mask of a masked filter must have the same
/// length.
pub fn is_valid_filter(filter: &ScanFilter) -> (r: bool)
    ensures
        r == valid_filter(*filter),
{
    if let ScanFilter::ManufacturerDataMasked(_, data, mask) = filter {
        data.len() == mask.len()
    } else {
        true
    }
}

} // verus!

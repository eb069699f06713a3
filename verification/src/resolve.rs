//! Which device a call without an address is for.
use vstd::prelude::*;
use vstd::relations::{sorted_by, total_ordering};

use crate::error::{texts, BleError, ErrorView};
use crate::text::{sort_by_address, text_le, text_le_total_order, Addressed};

verus! {

/// The order of texts as a relation.
pub open spec fn text_order() -> spec_fn(Seq<char>, Seq<char>) -> bool {
    |a: Seq<char>, b: Seq<char>| text_le(a, b)
}

/// The same texts in ascending order.
pub open spec fn ascending(s: Seq<Seq<char>>) -> Seq<Seq<char>> {
    s.sort_by(text_order())
}

/// The device meant by a call without an address: the only connected one. With none, or
/// with several, there is no such device.
pub open spec fn default_of(addresses: Seq<Seq<char>>) -> Result<Seq<char>, ErrorView> {
    if addresses.len() == 0 {
        Err(ErrorView::NoDeviceConnected)
    } else if addresses.len() == 1 {
        Ok(addresses[0])
    } else {
        Err(ErrorView::AmbiguousDevice(ascending(addresses)))
    }
}

/// The model of a result that holds a text.
pub open spec fn text_outcome(r: Result<String, BleError>) -> Result<Seq<char>, ErrorView> {
    match r {
        Ok(s) => Ok(s@),
        Err(e) => Err(e@),
    }
}

pub proof fn text_order_is_total()
    ensures
        total_ordering(text_order()),
{
    let r = text_order();
    assert forall|a: Seq<char>| #[trigger] r(a, a) by {
        text_le_total_order(a, a, a);
    }
    assert forall|a: Seq<char>, b: Seq<char>| #[trigger] r(a, b) && #[trigger] r(b, a) implies a == b by {
        text_le_total_order(a, b, b);
    }
    assert forall|a: Seq<char>, b: Seq<char>, c: Seq<char>| #[trigger] r(a, b) && #[trigger] r(b, c) implies r(
        a,
        c,
    ) by {
        text_le_total_order(a, b, c);
    }
    assert forall|a: Seq<char>, b: Seq<char>| #[trigger] r(a, b) || #[trigger] r(b, a) by {
        text_le_total_order(a, b, b);
    }
}

/// The list that `ascending` gives is in order and has the same texts, each as often.
pub proof fn ascending_is_sorted(s: Seq<Seq<char>>)
    ensures
        forall|i: int, j: int|
            0 <= i <= j < s.len() ==> text_le(#[trigger] ascending(s)[i], #[trigger] ascending(s)[j]),
        ascending(s).to_multiset() == s.to_multiset(),
        ascending(s).len() == s.len(),
{
    broadcast use vstd::seq_lib::group_to_multiset_ensures;

    text_order_is_total();
    s.lemma_sort_by_ensures(text_order());
    let t = ascending(s);
    assert(t.len() == t.to_multiset().len());
    assert(s.len() == s.to_multiset().len());
    assert forall|i: int, j: int| 0 <= i <= j < s.len() implies text_le(#[trigger] t[i], #[trigger] t[j]) by {
        text_le_total_order(t[i], t[i], t[i]);
        if i < j {
            assert(text_order()(t[i], t[j]));
        }
    }
}

/// There is a device to go to exactly when one is listed, and it is that one. With none and with
/// several the errors differ; the latter lists them all, each as often, in ascending order.
pub proof fn only_one_device_can_be_meant(list: Seq<Seq<char>>)
    ensures
        match default_of(list) {
            Ok(a) => list.len() == 1 && a == list[0],
            Err(ErrorView::NoDeviceConnected) => list.len() == 0,
            Err(ErrorView::AmbiguousDevice(all)) => {
                &&& list.len() > 1
                &&& all.to_multiset() == list.to_multiset()
                &&& forall|i: int, j: int|
                    0 <= i <= j < all.len() ==> text_le(#[trigger] all[i], #[trigger] all[j])
            },
            Err(_) => false,
        },
{
    ascending_is_sorted(list);
}

/// The answer does not depend on the order in which the connected devices are listed.
pub proof fn default_ignores_order(a: Seq<Seq<char>>, b: Seq<Seq<char>>)
    requires
        a.to_multiset() == b.to_multiset(),
    ensures
        default_of(a) == default_of(b),
{
    broadcast use vstd::seq_lib::group_to_multiset_ensures;

    assert(a.len() == a.to_multiset().len());
    assert(b.len() == b.to_multiset().len());
    if a.len() == 1 {
        assert(a.to_multiset().count(a[0]) > 0) by {
            assert(a.contains(a[0]));
        }
        assert(b.contains(a[0]));
    } else if a.len() > 1 {
        text_order_is_total();
        a.lemma_sort_by_ensures(text_order());
        b.lemma_sort_by_ensures(text_order());
        vstd::seq_lib::lemma_sorted_unique(ascending(a), ascending(b), text_order());
    }
}

proof fn texts_of_multiset(a: Seq<String>, b: Seq<String>)
    requires
        a.to_multiset() == b.to_multiset(),
    ensures
        texts(a).to_multiset() == texts(b).to_multiset(),
    decreases a.len(),
{
    broadcast use vstd::seq_lib::group_to_multiset_ensures;

    assert(a.len() == a.to_multiset().len());
    assert(b.len() == b.to_multiset().len());
    if a.len() == 0 {
        assert(texts(a) =~= texts(b));
    } else {
        let x = a.last();
        assert(a.contains(x));
        assert(a.to_multiset().count(x) > 0);
        assert(b.contains(x));
        let i = choose|i: int| 0 <= i < b.len() && b[i] == x;
        let a1 = a.drop_last();
        let b1 = b.remove(i);
        assert(a =~= a1.push(x));
        assert(a1.to_multiset() =~= a.to_multiset().remove(x));
        assert(b1.to_multiset() =~= b.to_multiset().remove(x));
        texts_of_multiset(a1, b1);
        assert(texts(a) =~= texts(a1).push(x@));
        assert(texts(b1) =~= texts(b).remove(i));
        assert(texts(b)[i] == x@);
        assert(texts(b).contains(x@));
        assert(texts(a).to_multiset() =~= texts(a1).to_multiset().insert(x@));
        assert(texts(b1).to_multiset() =~= texts(b).to_multiset().remove(x@));
        assert(texts(b).to_multiset() =~= texts(b1).to_multiset().insert(x@));
    }
}

/// The device meant by a call without an address, out of those that are connected: with
/// none the error is `NoDeviceConnected`, with more than one it is `AmbiguousDevice` with
/// all of them in ascending order.
pub fn resolve_default_address(addresses: &Vec<String>) -> (r: Result<String, BleError>)
    ensures
        text_outcome(r) == default_of(texts(addresses@)),
{
    if addresses.len() == 0 {
        Err(BleError::NoDeviceConnected)
    } else if addresses.len() == 1 {
        Ok(addresses[0].clone())
    } else {
        let mut list: Vec<String> = Vec::new();
        let mut i: usize = 0;
        while i < addresses.len()
            invariant
                i <= addresses@.len(),
                list@ == addresses@.subrange(0, i as int),
            decreases addresses@.len() - i,
        {
            list.push(addresses[i].clone());
            i = i + 1;
            assert(addresses@.subrange(0, i as int) =~= addresses@.subrange(0, i - 1).push(addresses@[i - 1]));
        }
        assert(list@ =~= addresses@);
        let sorted = sort_by_address(list);
        proof {
            texts_of_multiset(sorted@, addresses@);
            text_order_is_total();
            let t = texts(addresses@);
            t.lemma_sort_by_ensures(text_order());
            assert(sorted_by(texts(sorted@), text_order())) by {
                assert forall|i: int, j: int| 0 <= i < j < sorted@.len() implies text_order()(
                    #[trigger] texts(sorted@)[i],
                    #[trigger] texts(sorted@)[j],
                ) by {
                    assert(text_le(sorted@[i].key(), sorted@[j].key()));
                }
            }
            vstd::seq_lib::lemma_sorted_unique(texts(sorted@), ascending(t), text_order());
        }
        Err(BleError::AmbiguousDevice(sorted))
    }
}

} // verus!

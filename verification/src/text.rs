//! The order of texts, a stable sort by address, and UTF-8 conversion.
use vstd::prelude::*;
use vstd::utf8::{decode_utf8, encode_utf8, valid_utf8};

verus! {

/// Lexicographic order of byte sequences: a proper prefix comes first.
pub open spec fn bytes_le(a: Seq<u8>, b: Seq<u8>) -> bool
    decreases a.len(),
{
    if a.len() == 0 {
        true
    } else if b.len() == 0 {
        false
    } else if a[0] != b[0] {
        a[0] < b[0]
    } else {
        bytes_le(a.drop_first(), b.drop_first())
    }
}

/// The order of texts: lexicographic by the bytes of their UTF-8 encodings.
pub open spec fn text_le(a: Seq<char>, b: Seq<char>) -> bool {
    bytes_le(encode_utf8(a), encode_utf8(b))
}

/// `bytes_le` is total.
pub proof fn bytes_le_total(a: Seq<u8>, b: Seq<u8>)
    ensures
        bytes_le(a, b) || bytes_le(b, a),
    decreases a.len(),
{
    if a.len() != 0 && b.len() != 0 && a[0] == b[0] {
        bytes_le_total(a.drop_first(), b.drop_first());
    }
}

/// `bytes_le` is transitive.
pub proof fn bytes_le_transitive(a: Seq<u8>, b: Seq<u8>, c: Seq<u8>)
    requires
        bytes_le(a, b),
        bytes_le(b, c),
    ensures
        bytes_le(a, c),
    decreases a.len(),
{
    if a.len() != 0 && b.len() != 0 && c.len() != 0 && a[0] == b[0] && b[0] == c[0] {
        bytes_le_transitive(a.drop_first(), b.drop_first(), c.drop_first());
    }
}

/// `bytes_le` is antisymmetric.
pub proof fn bytes_le_antisymmetric(a: Seq<u8>, b: Seq<u8>)
    requires
        bytes_le(a, b),
        bytes_le(b, a),
    ensures
        a == b,
    decreases a.len(),
{
    if a.len() != 0 && b.len() != 0 {
        bytes_le_antisymmetric(a.drop_first(), b.drop_first());
        assert(a =~= seq![a[0]] + a.drop_first());
        assert(b =~= seq![b[0]] + b.drop_first());
    } else {
        assert(a =~= b);
    }
}

/// `text_le` is a total order: any two texts compare, the order is transitive, and
/// texts that come before each other are the same.
pub proof fn text_le_total_order(a: Seq<char>, b: Seq<char>, c: Seq<char>)
    ensures
        text_le(a, a),
        text_le(a, b) || text_le(b, a),
        text_le(a, b) && text_le(b, c) ==> text_le(a, c),
        text_le(a, b) && text_le(b, a) ==> a == b,
{
    bytes_le_total(encode_utf8(a), encode_utf8(a));
    bytes_le_total(encode_utf8(a), encode_utf8(b));
    if text_le(a, b) && text_le(b, c) {
        bytes_le_transitive(encode_utf8(a), encode_utf8(b), encode_utf8(c));
    }
    if text_le(a, b) && text_le(b, a) {
        bytes_le_antisymmetric(encode_utf8(a), encode_utf8(b));
        vstd::utf8::encode_utf8_decode_utf8(a);
        vstd::utf8::encode_utf8_decode_utf8(b);
    }
}

/// The bytes agree up to a place where those of `a` are smaller.
pub open spec fn is_smaller_at(a: Seq<u8>, b: Seq<u8>, i: int) -> bool {
    &&& 0 <= i < a.len()
    &&& i < b.len()
    &&& a[i] < b[i]
    &&& forall|j: int| 0 <= j < i ==> a[j] == b[j]
}

/// The first difference decides the order of two texts: one comes before the other if at the first
/// place where their UTF-8 encodings differ its byte is smaller, or if its encoding is a beginning
/// of the other's.
pub proof fn the_first_difference_decides(a: Seq<char>, b: Seq<char>)
    ensures
        text_le(a, b) == (encode_utf8(a).is_prefix_of(encode_utf8(b)) || exists|i: int|
            is_smaller_at(encode_utf8(a), encode_utf8(b), i)),
{
    bytes_differ_first(encode_utf8(a), encode_utf8(b));
}

proof fn bytes_differ_first(a: Seq<u8>, b: Seq<u8>)
    ensures
        bytes_le(a, b) == (a.is_prefix_of(b) || exists|i: int| is_smaller_at(a, b, i)),
    decreases a.len(),
{
    if a.len() == 0 {
        assert(b.subrange(0, 0) =~= a);
    } else if b.len() > 0 {
        let x = a.drop_first();
        let y = b.drop_first();
        if a[0] == b[0] {
            bytes_differ_first(x, y);
            if x.is_prefix_of(y) {
                assert(b.subrange(0, a.len() as int) =~= a) by {
                    assert forall|j: int| 0 <= j < a.len() implies b[j] == a[j] by {
                        if j > 0 {
                            assert(y.subrange(0, x.len() as int)[j - 1] == x[j - 1]);
                        }
                    }
                }
            }
            if a.is_prefix_of(b) {
                assert(y.subrange(0, x.len() as int) =~= x) by {
                    assert forall|j: int| 0 <= j < x.len() implies y[j] == x[j] by {
                        assert(b.subrange(0, a.len() as int)[j + 1] == a[j + 1]);
                    }
                }
            }
            if exists|i: int| is_smaller_at(x, y, i) {
                let i = choose|i: int| is_smaller_at(x, y, i);
                assert(is_smaller_at(a, b, i + 1)) by {
                    assert forall|j: int| 0 <= j < i + 1 implies a[j] == b[j] by {
                        if j > 0 {
                            assert(x[j - 1] == y[j - 1]);
                        }
                    }
                }
            }
            if exists|i: int| is_smaller_at(a, b, i) {
                let i = choose|i: int| is_smaller_at(a, b, i);
                assert(is_smaller_at(x, y, i - 1)) by {
                    assert forall|j: int| 0 <= j < i - 1 implies x[j] == y[j] by {
                        assert(a[j + 1] == b[j + 1]);
                    }
                }
            }
        } else {
            if a[0] < b[0] {
                assert(is_smaller_at(a, b, 0));
            }
            if a.is_prefix_of(b) {
                assert(b.subrange(0, a.len() as int)[0] == a[0]);
            }
            if exists|i: int| is_smaller_at(a, b, i) {
                let i = choose|i: int| is_smaller_at(a, b, i);
                assert(i == 0);
            }
        }
    }
}

/// Whether `a` comes before `b` or is the same text.
pub fn precedes(a: &str, b: &str) -> (r: bool)
    ensures
        r == text_le(a@, b@),
{
    let x = a.as_bytes();
    let y = b.as_bytes();
    let mut i: usize = 0;
    assert(x@.skip(0) =~= x@);
    assert(y@.skip(0) =~= y@);
    while i < x.len() && i < y.len() && x[i] == y[i]
        invariant
            i <= x@.len(),
            i <= y@.len(),
            bytes_le(x@, y@) == bytes_le(x@.skip(i as int), y@.skip(i as int)),
        decreases x@.len() - i,
    {
        assert(x@.skip(i as int).drop_first() =~= x@.skip(i + 1));
        assert(y@.skip(i as int).drop_first() =~= y@.skip(i + 1));
        i = i + 1;
    }
    if i >= x.len() {
        true
    } else if i >= y.len() {
        false
    } else {
        x[i] < y[i]
    }
}

/// Whether the texts are the same.
pub fn same_text(a: &str, b: &str) -> (r: bool)
    ensures
        r == (a@ == b@),
{
    proof {
        text_le_total_order(a@, b@, a@);
    }
    precedes(a, b) && precedes(b, a)
}

/// Something that is listed under an address.
pub trait Addressed {
    /// The address.
    spec fn key(&self) -> Seq<char>;

    /// The address as a string slice.
    fn address_str(&self) -> (r: &str)
        ensures
            r@ == self.key(),
    ;
}

impl Addressed for String {
    open spec fn key(&self) -> Seq<char> {
        self@
    }

    fn address_str(&self) -> (r: &str) {
        self.as_str()
    }
}

/// The items are in ascending order of their addresses.
pub open spec fn sorted_by_key<T: Addressed>(s: Seq<T>) -> bool {
    forall|i: int, j: int| 0 <= i <= j < s.len() ==> text_le((#[trigger] s[i]).key(), (#[trigger] s[j]).key())
}

/// The test for the address `k`.
pub open spec fn has_key<T: Addressed>(k: Seq<char>) -> spec_fn(T) -> bool {
    |t: T| t.key() == k
}

/// The items of `s` whose address is `k`, in order.
pub open spec fn at_key<T: Addressed>(s: Seq<T>, k: Seq<char>) -> Seq<T> {
    s.filter(has_key(k))
}

/// `out` holds the items of `s` in ascending order of their addresses, and those with the same
/// address in the order that they have in `s`.
pub open spec fn is_sorted_form<T: Addressed>(out: Seq<T>, s: Seq<T>) -> bool {
    &&& sorted_by_key(out)
    &&& forall|k: Seq<char>| #[trigger] at_key(out, k) == at_key(s, k)
    &&& out.to_multiset() == s.to_multiset()
}

/// A sorted form has as many items.
pub proof fn sorted_form_has_length<T: Addressed>(out: Seq<T>, s: Seq<T>)
    requires
        is_sorted_form(out, s),
    ensures
        out.len() == s.len(),
{
    broadcast use vstd::seq_lib::group_to_multiset_ensures;

    assert(out.len() == out.to_multiset().len());
    assert(s.len() == s.to_multiset().len());
}

proof fn at_key_of_first<T: Addressed>(s: Seq<T>, k: Seq<char>)
    requires
        s.len() > 0,
    ensures
        at_key(s, k) == if s[0].key() == k {
            seq![s[0]] + at_key(s.drop_first(), k)
        } else {
            at_key(s.drop_first(), k)
        },
{
    let p = has_key::<T>(k);
    let one = seq![s[0]];
    assert(s =~= one + s.drop_first());
    Seq::filter_distributes_over_add(one, s.drop_first(), p);
    reveal_with_fuel(Seq::filter, 2);
    assert(one.drop_last() =~= Seq::<T>::empty());
    if p(s[0]) {
        assert(one.filter(p) =~= one);
    } else {
        assert(one.filter(p) =~= Seq::<T>::empty());
        assert(at_key(s, k) =~= at_key(s.drop_first(), k));
    }
}

proof fn first_is_least<T: Addressed>(a: Seq<T>, b: Seq<T>)
    requires
        a.len() > 0,
        sorted_by_key(b),
        at_key(a, a[0].key()) == at_key(b, a[0].key()),
    ensures
        b.len() > 0,
        text_le(b[0].key(), a[0].key()),
{
    let k = a[0].key();
    at_key_of_first(a, k);
    assert(at_key(b, k).len() > 0);
    if b.len() == 0 {
        reveal(Seq::filter);
        assert(at_key(b, k).len() == 0);
    }
    let x = at_key(b, k)[0];
    b.lemma_filter_contains_rev(has_key(k), x);
    assert(has_key::<T>(k)(x)) by {
        broadcast use Seq::lemma_filter_pred;

    }
    let i = choose|i: int| 0 <= i < b.len() && b[i] == x;
    assert(text_le(b[0].key(), b[i].key()));
}

/// There is one sorted form: what is sorted stably by address is determined.
pub proof fn sorted_form_is_unique<T: Addressed>(a: Seq<T>, b: Seq<T>)
    requires
        sorted_by_key(a),
        sorted_by_key(b),
        forall|k: Seq<char>| #[trigger] at_key(a, k) == at_key(b, k),
    ensures
        a == b,
    decreases a.len(),
{
    if a.len() == 0 {
        if b.len() > 0 {
            first_is_least(b, a);
        }
        assert(a =~= b);
    } else {
        first_is_least(a, b);
        assert(at_key(a, b[0].key()) == at_key(b, b[0].key()));
        first_is_least(b, a);
        let k = a[0].key();
        text_le_total_order(k, b[0].key(), k);
        at_key_of_first(a, k);
        at_key_of_first(b, k);
        assert(at_key(a, k) == at_key(b, k));
        assert(at_key(a, k)[0] == a[0]);
        assert(at_key(b, k)[0] == b[0]);
        let a1 = a.drop_first();
        let b1 = b.drop_first();
        assert(sorted_by_key(a1)) by {
            assert forall|i: int, j: int| 0 <= i <= j < a1.len() implies text_le(
                (#[trigger] a1[i]).key(),
                (#[trigger] a1[j]).key(),
            ) by {
                assert(text_le(a[i + 1].key(), a[j + 1].key()));
            }
        }
        assert(sorted_by_key(b1)) by {
            assert forall|i: int, j: int| 0 <= i <= j < b1.len() implies text_le(
                (#[trigger] b1[i]).key(),
                (#[trigger] b1[j]).key(),
            ) by {
                assert(text_le(b[i + 1].key(), b[j + 1].key()));
            }
        }
        assert forall|l: Seq<char>| #[trigger] at_key(a1, l) == at_key(b1, l) by {
            at_key_of_first(a, l);
            at_key_of_first(b, l);
            assert(at_key(a, l) == at_key(b, l));
            if l == k {
                assert(at_key(a1, l) =~= at_key(a, l).drop_first());
                assert(at_key(b1, l) =~= at_key(b, l).drop_first());
            }
        }
        sorted_form_is_unique(a1, b1);
        assert(a =~= seq![a[0]] + a1);
        assert(b =~= seq![b[0]] + b1);
    }
}

/// A text that is sent as UTF-8 is the text that is received.
pub proof fn text_round_trip(text: Seq<char>)
    ensures
        valid_utf8(encode_utf8(text)),
        decode_utf8(encode_utf8(text)) == text,
{
    vstd::utf8::encode_utf8_valid_utf8(text);
    vstd::utf8::encode_utf8_decode_utf8(text);
}

proof fn at_key_of_insertion<T: Addressed>(before: Seq<T>, x: T, after: Seq<T>, k: Seq<char>)
    requires
        forall|i: int| 0 <= i < before.len() ==> (#[trigger] before[i]).key() != x.key(),
    ensures
        at_key(before + seq![x] + after, k) == at_key(seq![x] + (before + after), k),
{
    let p = has_key::<T>(k);
    let one = seq![x];
    Seq::filter_distributes_over_add(before + one, after, p);
    Seq::filter_distributes_over_add(before, one, p);
    Seq::filter_distributes_over_add(one, before + after, p);
    Seq::filter_distributes_over_add(before, after, p);
    if x.key() == k {
        assert(before.all(|t: T| !p(t)));
        before.lemma_all_neg_filter_empty(p);
        assert(before.filter(p) =~= Seq::<T>::empty());
    } else {
        assert(one.all(|t: T| !p(t)));
        one.lemma_all_neg_filter_empty(p);
        assert(one.filter(p) =~= Seq::<T>::empty());
    }
    assert(at_key(before + one + after, k) =~= at_key(one + (before + after), k));
}

/// Sorts by address. The sort is stable: items with the same address keep their order.
pub fn sort_by_address<T: Addressed>(items: Vec<T>) -> (r: Vec<T>)
    ensures
        is_sorted_form(r@, items@),
{
    broadcast use {vstd::seq_lib::group_to_multiset_ensures, Seq::filter_distributes_over_add};

    let ghost all = items@;
    let mut rest = items;
    let mut out: Vec<T> = Vec::new();
    assert(all =~= rest@ + out@);
    while rest.len() > 0
        invariant
            sorted_by_key(out@),
            forall|k: Seq<char>| #[trigger] at_key(rest@ + out@, k) == at_key(all, k),
            (rest@ + out@).to_multiset() == all.to_multiset(),
        decreases rest.len(),
    {
        let ghost rest0 = rest@;
        let ghost out0 = out@;
        let x = rest.pop().unwrap();
        let mut at: usize = 0;
        while at < out.len() && !precedes(x.address_str(), out[at].address_str())
            invariant
                at <= out@.len(),
                out@ == out0,
                forall|i: int| 0 <= i < at ==> !text_le(x.key(), (#[trigger] out0[i]).key()),
            decreases out@.len() - at,
        {
            at = at + 1;
        }
        let ghost before = out0.subrange(0, at as int);
        let ghost after = out0.subrange(at as int, out0.len() as int);
        out.insert(at, x);
        proof {
            assert(out0 =~= before + after);
            assert(out@ =~= before + seq![x] + after);
            assert(rest0 =~= rest@ + seq![x]);
            assert forall|i: int, j: int| 0 <= i <= j < out@.len() implies text_le(
                (#[trigger] out@[i]).key(),
                (#[trigger] out@[j]).key(),
            ) by {
                let u = out@[i].key();
                let v = out@[j].key();
                text_le_total_order(u, v, v);
                if i < at && j >= at {
                    text_le_total_order(u, x.key(), v);
                    if j > at {
                        assert(out@[i] == out0[i]);
                        assert(out@[j] == out0[j - 1]);
                    }
                } else if i < at {
                    assert(out@[i] == out0[i]);
                    assert(out@[j] == out0[j]);
                } else if i > at {
                    assert(out@[i] == out0[i - 1]);
                    assert(out@[j] == out0[j - 1]);
                } else if j > at {
                    assert(out@[j] == out0[j - 1]);
                    text_le_total_order(x.key(), out0[at as int].key(), v);
                }
            }
            assert forall|k: Seq<char>| #[trigger] at_key(rest@ + out@, k) == at_key(all, k) by {
                assert forall|i: int| 0 <= i < before.len() implies (#[trigger] before[i]).key() != x.key() by {
                    assert(before[i] == out0[i]);
                    text_le_total_order(x.key(), x.key(), x.key());
                }
                at_key_of_insertion(before, x, after, k);
                assert(at_key(rest@ + out@, k) == at_key(rest@, k) + at_key(out@, k));
                assert(rest@ + (seq![x] + out0) =~= rest0 + out0);
                assert(at_key(rest@ + (seq![x] + out0), k) == at_key(rest@, k) + at_key(seq![x] + out0, k));
                assert(at_key(rest0 + out0, k) == at_key(all, k));
            }
            assert((rest@ + out@).to_multiset() =~= (rest0 + out0).to_multiset()) by {
                vstd::seq_lib::lemma_multiset_commutative(rest@, out@);
                vstd::seq_lib::lemma_multiset_commutative(rest0, out0);
                vstd::seq_lib::lemma_multiset_commutative(rest@, seq![x]);
                vstd::seq_lib::lemma_multiset_commutative(before + seq![x], after);
                vstd::seq_lib::lemma_multiset_commutative(before, seq![x]);
                vstd::seq_lib::lemma_multiset_commutative(before, after);
            }
        }
    }
    assert(rest@ + out@ =~= out@);
    out
}

/// Calls `String::from_utf8` of std, which succeeds exactly on well-formed UTF-8 and then
/// holds the text that the bytes encode.
#[verifier::external_body]
fn string_from_utf8(bytes: Vec<u8>) -> (r: Option<String>)
    ensures
        r is Some == valid_utf8(bytes@),
        r matches Some(s) ==> s@ == decode_utf8(bytes@),
{
    String::from_utf8(bytes).ok()
}

/// The text that `bytes` encode, or `None` when they are not well-formed UTF-8.
pub fn decode_text(bytes: Vec<u8>) -> (r: Option<String>)
    ensures
        r is Some == valid_utf8(bytes@),
        r matches Some(s) ==> s@ == decode_utf8(bytes@),
{
    string_from_utf8(bytes)
}

/// The UTF-8 bytes of `text`.
pub fn encode_text(text: &str) -> (r: Vec<u8>)
    ensures
        r@ == encode_utf8(text@),
{
    let bytes = text.as_bytes();
    let mut out: Vec<u8> = Vec::new();
    let mut i: usize = 0;
    while i < bytes.len()
        invariant
            i <= bytes@.len(),
            bytes@ == encode_utf8(text@),
            out@ == bytes@.subrange(0, i as int),
        decreases bytes@.len() - i,
    {
        out.push(bytes[i]);
        i = i + 1;
        assert(bytes@.subrange(0, i as int) =~= bytes@.subrange(0, i - 1).push(bytes@[i - 1]));
    }
    assert(bytes@.subrange(0, i as int) =~= bytes@);
    out
}

} // verus!

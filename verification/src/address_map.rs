//! A map from addresses to values.
use vstd::prelude::*;

verus! {

/// Values under addresses. No address occurs twice.
pub struct AddressMap<V> {
    entries: Vec<(String, V)>,
}

impl<V: View> AddressMap<V> {
    /// The address of entry `i`.
    pub closed spec fn key_at(self, i: int) -> Seq<char> {
        self.entries@[i].0@
    }

    /// The addresses, in the order of the entries.
    pub closed spec fn key_seq(self) -> Seq<Seq<char>> {
        Seq::new(self.entries@.len(), |i: int| self.key_at(i))
    }

    spec fn holds(self, k: Seq<char>) -> bool {
        exists|i: int| 0 <= i < self.entries@.len() && self.key_at(i) == k
    }

    spec fn place(self, k: Seq<char>) -> int {
        choose|i: int| 0 <= i < self.entries@.len() && self.key_at(i) == k
    }

    /// No address occurs twice.
    pub closed spec fn wf(self) -> bool {
        forall|i: int, j: int|
            0 <= i < self.entries@.len() && 0 <= j < self.entries@.len() && #[trigger] self.key_at(i)
                == #[trigger] self.key_at(j) ==> i == j
    }

    proof fn entry(self, i: int)
        requires
            self.wf(),
            0 <= i < self.entries@.len(),
        ensures
            self@.dom().contains(self.key_at(i)),
            self@[self.key_at(i)] == self.entries@[i].1@,
    {
        let k = self.key_at(i);
        assert(self.holds(k));
        assert(self.key_at(self.place(k)) == self.key_at(i));
    }

    proof fn no_entry(self, k: Seq<char>)
        requires
            forall|i: int| 0 <= i < self.entries@.len() ==> #[trigger] self.key_at(i) != k,
        ensures
            !self@.dom().contains(k),
    {
    }

    /// The addresses are listed without repetition, and they are finitely many.
    pub proof fn key_seq_is_domain(self)
        requires
            self.wf(),
        ensures
            self.key_seq().no_duplicates(),
            self.key_seq().to_set() =~= self@.dom(),
            self@.dom().finite(),
    {
        let keys = self.key_seq();
        assert forall|k: Seq<char>| keys.to_set().contains(k) == self@.dom().contains(k) by {
            if self.holds(k) {
                assert(keys[self.place(k)] == k);
            }
            if keys.contains(k) {
                let i = choose|i: int| 0 <= i < keys.len() && keys[i] == k;
                self.entry(i);
            }
        }
        assert(keys.no_duplicates()) by {
            assert forall|i: int, j: int| 0 <= i < keys.len() && 0 <= j < keys.len() && i != j implies keys[i]
                != keys[j] by {
                assert(keys[i] == self.key_at(i));
                assert(keys[j] == self.key_at(j));
            }
        }
        vstd::seq_lib::seq_to_set_is_finite(keys);
        assert(keys.to_set() =~= self@.dom());
    }
}

impl<V: View> View for AddressMap<V> {
    type V = Map<Seq<char>, V::V>;

    closed spec fn view(&self) -> Map<Seq<char>, V::V> {
        Map::new(|k: Seq<char>| self.holds(k), |k: Seq<char>| self.entries@[self.place(k)].1@)
    }
}

impl<V: View> AddressMap<V> {
    /// A map without entries.
    pub fn new() -> (r: Self)
        ensures
            r.wf(),
            r@ == Map::<Seq<char>, V::V>::empty(),
    {
        let r = AddressMap { entries: Vec::new() };
        assert(r@ =~= Map::<Seq<char>, V::V>::empty());
        r
    }

    /// How many entries there are.
    pub fn len(&self) -> (r: usize)
        ensures
            r == self.key_seq().len(),
    {
        self.entries.len()
    }

    /// Whether there are no entries.
    pub fn is_empty(&self) -> (r: bool)
        requires
            self.wf(),
        ensures
            r == (self@.dom() =~= Set::<Seq<char>>::empty()),
    {
        proof {
            if self.entries@.len() > 0 {
                self.entry(0);
            } else {
                assert(self@.dom() =~= Set::<Seq<char>>::empty());
            }
        }
        self.entries.is_empty()
    }

    fn find(&self, k: &str) -> (r: Option<usize>)
        requires
            self.wf(),
        ensures
            match r {
                Some(i) => i < self.entries@.len() && self.key_at(i as int) == k@,
                None => forall|i: int| 0 <= i < self.entries@.len() ==> #[trigger] self.key_at(i) != k@,
            },
    {
        let wanted = k.to_owned();
        let mut i: usize = 0;
        while i < self.entries.len()
            invariant
                i <= self.entries@.len(),
                wanted@ == k@,
                forall|j: int| 0 <= j < i ==> #[trigger] self.key_at(j) != k@,
            decreases self.entries@.len() - i,
        {
            if self.entries[i].0 == wanted {
                return Some(i);
            }
            i = i + 1;
        }
        None
    }

    /// Whether there is an entry under `k`.
    pub fn contains_key(&self, k: &str) -> (r: bool)
        requires
            self.wf(),
        ensures
            r == self@.dom().contains(k@),
    {
        match self.find(k) {
            Some(i) => {
                proof {
                    self.entry(i as int);
                }
                true
            },
            None => {
                proof {
                    self.no_entry(k@);
                }
                false
            },
        }
    }

    /// The value under `k`.
    pub fn get(&self, k: &str) -> (r: Option<&V>)
        requires
            self.wf(),
        ensures
            match r {
                Some(v) => self@.dom().contains(k@) && v@ == self@[k@],
                None => !self@.dom().contains(k@),
            },
    {
        match self.find(k) {
            Some(i) => {
                proof {
                    self.entry(i as int);
                }
                Some(&self.entries[i].1)
            },
            None => {
                proof {
                    self.no_entry(k@);
                }
                None
            },
        }
    }

    /// Puts `v` under `k`, in place of what was there.
    pub fn insert(&mut self, k: String, v: V)
        requires
            old(self).wf(),
        ensures
            final(self).wf(),
            final(self)@ == old(self)@.insert(k@, v@),
    {
        let ghost before = *self;
        let ghost key = k@;
        let found = self.find(k.as_str());
        match found {
            Some(i) => {
                self.entries[i] = (k, v);
                proof {
                    before.entry(i as int);
                    assert forall|j: int| 0 <= j < self.entries@.len() implies #[trigger] self.key_at(j)
                        == before.key_at(j) by {}
                    assert(self.wf());
                    assert forall|x: Seq<char>| self@.dom().contains(x) == before@.insert(key, v@).dom().contains(
                        x,
                    ) by {
                        if self.holds(x) {
                            before.entry(self.place(x));
                        }
                        if before.holds(x) {
                            self.entry(before.place(x));
                        }
                        self.entry(i as int);
                    }
                    assert forall|x: Seq<char>| self@.dom().contains(x) implies #[trigger] self@[x]
                        == before@.insert(key, v@)[x] by {
                        let p = self.place(x);
                        self.entry(p);
                        before.entry(p);
                    }
                    assert(self@ =~= before@.insert(key, v@));
                }
            },
            None => {
                self.entries.push((k, v));
                proof {
                    let n = before.entries@.len() as int;
                    before.no_entry(key);
                    assert forall|j: int| 0 <= j < n implies #[trigger] self.key_at(j) == before.key_at(j) by {}
                    assert(self.key_at(n) == key);
                    assert(self.wf());
                    self.entry(n);
                    assert forall|x: Seq<char>| self@.dom().contains(x) == before@.insert(key, v@).dom().contains(
                        x,
                    ) by {
                        if self.holds(x) && self.place(x) < n {
                            before.entry(self.place(x));
                        }
                        if before.holds(x) {
                            self.entry(before.place(x));
                        }
                    }
                    assert forall|x: Seq<char>| self@.dom().contains(x) implies #[trigger] self@[x]
                        == before@.insert(key, v@)[x] by {
                        let p = self.place(x);
                        self.entry(p);
                        if p < n {
                            before.entry(p);
                        }
                    }
                    assert(self@ =~= before@.insert(key, v@));
                }
            },
        }
    }

    /// Takes out the value under `k`.
    pub fn remove(&mut self, k: &str) -> (r: Option<V>)
        requires
            old(self).wf(),
        ensures
            final(self).wf(),
            final(self)@ == old(self)@.remove(k@),
            match r {
                Some(v) => old(self)@.dom().contains(k@) && v@ == old(self)@[k@],
                None => !old(self)@.dom().contains(k@),
            },
    {
        let ghost before = *self;
        match self.find(k) {
            Some(i) => {
                let (_, v) = self.entries.remove(i);
                proof {
                    before.entry(i as int);
                    assert forall|j: int| 0 <= j < self.entries@.len() implies #[trigger] self.key_at(j)
                        == before.key_at(
                        if j < i {
                            j
                        } else {
                            j + 1
                        },
                    ) by {}
                    assert(self.wf());
                    assert forall|x: Seq<char>| self@.dom().contains(x) == before@.remove(k@).dom().contains(x) by {
                        if self.holds(x) {
                            let p = self.place(x);
                            before.entry(if p < i {
                                p
                            } else {
                                p + 1
                            });
                        }
                        if before.holds(x) && x != k@ {
                            let p = before.place(x);
                            self.entry(if p < i {
                                p
                            } else {
                                p - 1
                            });
                        }
                    }
                    assert forall|x: Seq<char>| self@.dom().contains(x) implies #[trigger] self@[x]
                        == before@.remove(k@)[x] by {
                        let p = self.place(x);
                        self.entry(p);
                        before.entry(if p < i {
                            p
                        } else {
                            p + 1
                        });
                    }
                    assert(self@ =~= before@.remove(k@));
                }
                Some(v)
            },
            None => {
                proof {
                    self.no_entry(k@);
                    assert(self@ =~= before@.remove(k@));
                }
                None
            },
        }
    }

    /// Takes out everything.
    pub fn clear(&mut self)
        ensures
            final(self).wf(),
            final(self)@ == Map::<Seq<char>, V::V>::empty(),
    {
        self.entries.clear();
        assert(self@ =~= Map::<Seq<char>, V::V>::empty());
    }

    /// The addresses.
    pub fn keys(&self) -> (r: Vec<String>)
        ensures
            crate::error::texts(r@) == self.key_seq(),
    {
        let mut out: Vec<String> = Vec::new();
        let mut i: usize = 0;
        while i < self.entries.len()
            invariant
                i <= self.entries@.len(),
                out@.len() == i,
                forall|j: int| 0 <= j < i ==> (#[trigger] out@[j])@ == self.key_at(j),
            decreases self.entries@.len() - i,
        {
            out.push(self.entries[i].0.clone());
            i = i + 1;
        }
        assert(crate::error::texts(out@) =~= self.key_seq());
        out
    }

    /// The address of entry `i`.
    pub fn key(&self, i: usize) -> (r: &String)
        requires
            i < self.key_seq().len(),
        ensures
            r@ == self.key_seq()[i as int],
    {
        &self.entries[i].0
    }

    /// The value of entry `i`.
    pub fn value(&self, i: usize) -> (r: &V)
        requires
            self.wf(),
            i < self.key_seq().len(),
        ensures
            self@.dom().contains(self.key_seq()[i as int]),
            r@ == self@[self.key_seq()[i as int]],
    {
        proof {
            self.entry(i as int);
        }
        &self.entries[i].1
    }
}

} // verus!

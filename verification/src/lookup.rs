//! An insertion-ordered collection of items that are identified by a key.
//!
//! Every item carries a 128-bit key (the uuid of a character, a spell, an
//! attack or an assignment). A `Lookup` holds at most one item per key and
//! keeps the items in the order in which they were first put.
use vstd::prelude::*;

verus! {

/// Items that a `Lookup` can hold: each one names its own key.
pub trait LookupKey {
    spec fn key(&self) -> u128;

    fn lookup_key(&self) -> (k: u128)
        ensures
            k == self.key(),
    ;
}

/// Some item of `s` has the key `k`.
pub open spec fn has_key<T: LookupKey>(s: Seq<T>, k: u128) -> bool {
    exists|i: int| 0 <= i < s.len() && #[trigger] s[i].key() == k
}

/// No two items of `s` share a key.
pub open spec fn keys_unique<T: LookupKey>(s: Seq<T>) -> bool {
    forall|i: int, j: int|
        0 <= i < s.len() && 0 <= j < s.len() && i != j ==> #[trigger] s[i].key() != #[trigger] s[j].key()
}

/// The position of the item with key `k` (meaningful when `has_key(s, k)`).
pub open spec fn key_index<T: LookupKey>(s: Seq<T>, k: u128) -> int {
    choose|i: int| 0 <= i < s.len() && #[trigger] s[i].key() == k
}

/// The item with key `k`, if there is one.
pub open spec fn spec_get<T: LookupKey>(s: Seq<T>, k: u128) -> Option<T> {
    if has_key(s, k) {
        Some(s[key_index(s, k)])
    } else {
        None
    }
}

/// Putting an item replaces the item with the same key in place, or appends it.
pub open spec fn spec_put<T: LookupKey>(s: Seq<T>, item: T) -> Seq<T> {
    if has_key(s, item.key()) {
        s.update(key_index(s, item.key()), item)
    } else {
        s.push(item)
    }
}

/// Taking removes the item with key `k`, if there is one; the others keep their order.
pub open spec fn spec_take<T: LookupKey>(s: Seq<T>, k: u128) -> Seq<T> {
    if has_key(s, k) {
        s.remove(key_index(s, k))
    } else {
        s
    }
}

/// Replacing the item with key `prev` by `item`: the new item takes the old one's
/// place; where another item already has the new item's key, the old item is
/// taken out and the new one is put in its stead. Without an item with key `prev`,
/// nothing changes.
pub open spec fn spec_replace<T: LookupKey>(s: Seq<T>, prev: u128, item: T) -> Seq<T> {
    if !has_key(s, prev) {
        s
    } else if item.key() == prev || !has_key(s, item.key()) {
        s.update(key_index(s, prev), item)
    } else {
        spec_put(spec_take(s, prev), item)
    }
}

/// The items of `s`, put one after the other into an empty lookup.
pub open spec fn spec_collect<T: LookupKey>(s: Seq<T>) -> Seq<T>
    decreases s.len(),
{
    if s.len() == 0 {
        Seq::empty()
    } else {
        spec_put(spec_collect(s.drop_last()), s.last())
    }
}

pub proof fn lemma_key_index<T: LookupKey>(s: Seq<T>, k: u128)
    requires
        has_key(s, k),
    ensures
        0 <= key_index(s, k) < s.len(),
        s[key_index(s, k)].key() == k,
{
}

/// With unique keys, an item's key tells its position.
pub proof fn lemma_key_index_unique<T: LookupKey>(s: Seq<T>, i: int)
    requires
        keys_unique(s),
        0 <= i < s.len(),
    ensures
        has_key(s, s[i].key()),
        key_index(s, s[i].key()) == i,
        spec_get(s, s[i].key()) == Some(s[i]),
{
    assert(has_key(s, s[i].key()));
}

pub proof fn lemma_put_unique<T: LookupKey>(s: Seq<T>, item: T)
    requires
        keys_unique(s),
    ensures
        keys_unique(spec_put(s, item)),
        has_key(spec_put(s, item), item.key()),
        spec_get(spec_put(s, item), item.key()) == Some(item),
        forall|k: u128| k != item.key() ==> spec_get(#[trigger] spec_put(s, item), k) == spec_get(s, k),
        forall|k: u128| #[trigger] has_key(spec_put(s, item), k) <==> (has_key(s, k) || k == item.key()),
{
    let r = spec_put(s, item);
    if has_key(s, item.key()) {
        let i = key_index(s, item.key());
        assert(r.len() == s.len());
        assert forall|a: int, b: int| 0 <= a < r.len() && 0 <= b < r.len() && a != b implies #[trigger] r[a].key() != #[trigger] r[b].key() by {
            if a == i {
                assert(s[b].key() != s[i].key());
            } else if b == i {
                assert(s[a].key() != s[i].key());
            }
        }
        assert(r[i] == item);
        lemma_key_index_unique(r, i);
        assert forall|k: u128| k != item.key() implies spec_get(#[trigger] spec_put(s, item), k) == spec_get(s, k) by {
            if has_key(s, k) {
                let j = key_index(s, k);
                assert(j != i);
                assert(r[j] == s[j]);
                lemma_key_index_unique(r, j);
            }
            if has_key(r, k) {
                let j = key_index(r, k);
                assert(j != i);
                assert(s[j] == r[j]);
            }
        }
        assert forall|k: u128| #[trigger] has_key(spec_put(s, item), k) <==> (has_key(s, k) || k == item.key()) by {
            if has_key(s, k) && k != item.key() {
                let j = key_index(s, k);
                assert(r[j] == s[j]);
            }
            if has_key(r, k) && k != item.key() {
                let j = key_index(r, k);
                assert(s[j] == r[j]);
            }
        }
    } else {
        assert(r == s.push(item));
        assert forall|a: int, b: int| 0 <= a < r.len() && 0 <= b < r.len() && a != b implies #[trigger] r[a].key() != #[trigger] r[b].key() by {
            if a == s.len() {
                assert(s[b].key() == r[b].key());
            } else if b == s.len() {
                assert(s[a].key() == r[a].key());
            }
        }
        lemma_key_index_unique(r, s.len() as int);
        assert forall|k: u128| k != item.key() implies spec_get(#[trigger] spec_put(s, item), k) == spec_get(s, k) by {
            if has_key(s, k) {
                let j = key_index(s, k);
                assert(r[j] == s[j]);
                lemma_key_index_unique(r, j);
                lemma_key_index_unique(s, j);
            }
            if has_key(r, k) {
                let j = key_index(r, k);
                assert(j != s.len());
                assert(s[j] == r[j]);
            }
        }
        assert forall|k: u128| #[trigger] has_key(spec_put(s, item), k) <==> (has_key(s, k) || k == item.key()) by {
            if has_key(s, k) {
                let j = key_index(s, k);
                assert(r[j] == s[j]);
            }
            if has_key(r, k) && k != item.key() {
                let j = key_index(r, k);
                assert(s[j] == r[j]);
            }
        }
    }
}

pub proof fn lemma_take_unique<T: LookupKey>(s: Seq<T>, k: u128)
    requires
        keys_unique(s),
    ensures
        keys_unique(spec_take(s, k)),
        !has_key(spec_take(s, k), k),
        forall|k2: u128| k2 != k ==> spec_get(#[trigger] spec_take(s, k), k2) == spec_get(s, k2),
        forall|k2: u128| #[trigger] has_key(spec_take(s, k), k2) <==> (has_key(s, k2) && k2 != k),
{
    let r = spec_take(s, k);
    if has_key(s, k) {
        let i = key_index(s, k);
        assert(r.len() == s.len() - 1);
        assert forall|a: int| 0 <= a < r.len() implies #[trigger] r[a] == (if a < i { s[a] } else { s[a + 1] }) by {}
        assert forall|a: int, b: int| 0 <= a < r.len() && 0 <= b < r.len() && a != b implies #[trigger] r[a].key() != #[trigger] r[b].key() by {
            let sa = if a < i { a } else { a + 1 };
            let sb = if b < i { b } else { b + 1 };
            assert(r[a] == s[sa]);
            assert(r[b] == s[sb]);
        }
        assert forall|k2: u128| #[trigger] has_key(spec_take(s, k), k2) <==> (has_key(s, k2) && k2 != k) by {
            if has_key(r, k2) {
                let j = key_index(r, k2);
                let sj = if j < i { j } else { j + 1 };
                assert(r[j] == s[sj]);
                assert(sj != i);
            }
            if has_key(s, k2) && k2 != k {
                let j = key_index(s, k2);
                assert(j != i);
                let rj = if j < i { j } else { j - 1 };
                assert(r[rj] == s[j]);
            }
        }
        assert forall|k2: u128| k2 != k implies spec_get(#[trigger] spec_take(s, k), k2) == spec_get(s, k2) by {
            if has_key(s, k2) {
                let j = key_index(s, k2);
                assert(j != i);
                let rj = if j < i { j } else { j - 1 };
                assert(r[rj] == s[j]);
                lemma_key_index_unique(r, rj);
            }
        }
    }
}

pub proof fn lemma_collect_unique<T: LookupKey>(s: Seq<T>)
    ensures
        keys_unique(spec_collect(s)),
    decreases s.len(),
{
    if s.len() > 0 {
        lemma_collect_unique(s.drop_last());
        lemma_put_unique(spec_collect(s.drop_last()), s.last());
    }
}

/// A lookup whose items all have distinct keys is what collecting it gives back.
pub proof fn lemma_collect_of_unique<T: LookupKey>(s: Seq<T>)
    requires
        keys_unique(s),
    ensures
        spec_collect(s) == s,
    decreases s.len(),
{
    if s.len() > 0 {
        let d = s.drop_last();
        assert(keys_unique(d)) by {
            assert forall|a: int, b: int| 0 <= a < d.len() && 0 <= b < d.len() && a != b implies #[trigger] d[a].key() != #[trigger] d[b].key() by {
                assert(d[a] == s[a]);
                assert(d[b] == s[b]);
            }
        }
        lemma_collect_of_unique(d);
        assert(!has_key(d, s.last().key())) by {
            if has_key(d, s.last().key()) {
                let j = key_index(d, s.last().key());
                assert(d[j] == s[j]);
                assert(s[j].key() == s[s.len() - 1].key());
            }
        }
        assert(d.push(s.last()) =~= s);
    }
}

/// Keyed items in the order in which they were first put.
pub struct Lookup<T> {
    items: Vec<T>,
}

impl<T: LookupKey> View for Lookup<T> {
    type V = Seq<T>;

    closed spec fn view(&self) -> Seq<T> {
        self.items@
    }
}

impl<T: LookupKey> Lookup<T> {
    /// Every lookup that this module hands out has unique keys.
    pub open spec fn wf(&self) -> bool {
        keys_unique(self@)
    }

    pub fn new() -> (r: Self)
        ensures
            r.wf(),
            r@ == Seq::<T>::empty(),
    {
        Lookup { items: Vec::new() }
    }

    pub fn len(&self) -> (n: usize)
        ensures
            n == self@.len(),
    {
        self.items.len()
    }

    pub fn is_empty(&self) -> (b: bool)
        ensures
            b == (self@.len() == 0),
    {
        self.items.len() == 0
    }

    /// The items in their order.
    pub fn items(&self) -> (r: &Vec<T>)
        ensures
            r@ == self@,
    {
        &self.items
    }

    pub fn at(&self, i: usize) -> (r: &T)
        requires
            i < self@.len(),
        ensures
            *r == self@[i as int],
    {
        &self.items[i]
    }

    /// The position of the item with the given key.
    pub fn find(&self, key: u128) -> (r: Option<usize>)
        requires
            self.wf(),
        ensures
            r is None <==> !has_key(self@, key),
            r matches Some(i) ==> i < self@.len() && self@[i as int].key() == key && key_index(self@, key) == i,
    {
        let mut i: usize = 0;
        while i < self.items.len()
            invariant
                self.wf(),
                i <= self.items@.len(),
                forall|j: int| 0 <= j < i ==> #[trigger] self.items@[j].key() != key,
            decreases self.items@.len() - i,
        {
            if self.items[i].lookup_key() == key {
                proof {
                    lemma_key_index_unique(self@, i as int);
                }
                return Some(i);
            }
            i = i + 1;
        }
        None
    }

    pub fn contains_key(&self, key: u128) -> (b: bool)
        requires
            self.wf(),
        ensures
            b == has_key(self@, key),
    {
        self.find(key).is_some()
    }

    pub fn get(&self, key: u128) -> (r: Option<&T>)
        requires
            self.wf(),
        ensures
            r matches Some(x) ==> spec_get(self@, key) == Some(*x),
            r is None ==> spec_get(self@, key) is None,
    {
        match self.find(key) {
            Some(i) => Some(&self.items[i]),
            None => None,
        }
    }

    pub fn put(&mut self, item: T)
        requires
            old(self).wf(),
        ensures
            final(self).wf(),
            final(self)@ == spec_put(old(self)@, item),
    {
        proof {
            lemma_put_unique(self@, item);
        }
        let k = item.lookup_key();
        match self.find(k) {
            Some(i) => {
                self.items.set(i, item);
            },
            None => {
                self.items.push(item);
            },
        }
    }

    /// Replaces the item at position `i` by one with the same key.
    pub fn set_at(&mut self, i: usize, item: T)
        requires
            old(self).wf(),
            i < old(self)@.len(),
            item.key() == old(self)@[i as int].key(),
        ensures
            final(self).wf(),
            final(self)@ == old(self)@.update(i as int, item),
            final(self)@ == spec_put(old(self)@, item),
    {
        proof {
            lemma_key_index_unique(self@, i as int);
        }
        self.items.set(i, item);
        proof {
            assert forall|a: int, b: int| 0 <= a < self@.len() && 0 <= b < self@.len() && a != b implies #[trigger] self@[a].key() != #[trigger] self@[b].key() by {
                assert(old(self)@[a].key() != old(self)@[b].key());
            }
        }
    }

    pub fn take(&mut self, key: u128) -> (r: Option<T>)
        requires
            old(self).wf(),
        ensures
            final(self).wf(),
            final(self)@ == spec_take(old(self)@, key),
            r == spec_get(old(self)@, key),
    {
        proof {
            lemma_take_unique(self@, key);
        }
        match self.find(key) {
            Some(i) => Some(self.items.remove(i)),
            None => None,
        }
    }

    pub fn replace(&mut self, prev: u128, item: T)
        requires
            old(self).wf(),
        ensures
            final(self).wf(),
            final(self)@ == spec_replace(old(self)@, prev, item),
    {
        let ghost s = self@;
        match self.find(prev) {
            None => {},
            Some(i) => {
                let k = item.lookup_key();
                if k == prev || !self.contains_key(k) {
                    proof {
                        if k != prev {
                            assert forall|a: int, b: int| 0 <= a < s.len() && 0 <= b < s.len() && a != b implies #[trigger] s.update(i as int, item)[a].key() != #[trigger] s.update(i as int, item)[b].key() by {
                                if a == i {
                                    assert(s[b].key() != k);
                                } else if b == i {
                                    assert(s[a].key() != k);
                                } else {
                                    assert(s[a].key() != s[b].key());
                                }
                            }
                        }
                    }
                    self.items.set(i, item);
                    proof {
                        if k == prev {
                            assert forall|a: int, b: int| 0 <= a < self@.len() && 0 <= b < self@.len() && a != b implies #[trigger] self@[a].key() != #[trigger] self@[b].key() by {
                                assert(s[a].key() != s[b].key());
                            }
                        }
                    }
                } else {
                    self.take(prev);
                    self.put(item);
                }
            },
        }
    }

    /// Collects the items of `v`, putting one after the other.
    pub fn from_vec(v: Vec<T>) -> (r: Self)
        ensures
            r.wf(),
            r@ == spec_collect(v@),
    {
        let ghost vs = v@;
        let mut r = Lookup::new();
        let mut v = v;
        let n = v.len();
        let mut i: usize = 0;
        while i < n
            invariant
                n == vs.len(),
                i <= n,
                v@ == vs.subrange(i as int, n as int),
                r.wf(),
                r@ == spec_collect(vs.subrange(0, i as int)),
            decreases n - i,
        {
            let x = v.remove(0);
            proof {
                assert(x == vs[i as int]);
                assert(vs.subrange(0, i + 1).drop_last() =~= vs.subrange(0, i as int));
                assert(vs.subrange(0, i + 1).last() == x);
                assert(v@ =~= vs.subrange(i + 1, n as int));
            }
            r.put(x);
            i = i + 1;
        }
        assert(vs.subrange(0, n as int) =~= vs);
        r
    }

    /// Takes out the item at position `i`; the others keep their order.
    pub fn remove_at(&mut self, i: usize) -> (r: T)
        requires
            old(self).wf(),
            i < old(self)@.len(),
        ensures
            final(self).wf(),
            final(self)@ == old(self)@.remove(i as int),
            r == old(self)@[i as int],
            !has_key(final(self)@, r.key()),
    {
        proof {
            lemma_key_index_unique(self@, i as int);
            lemma_take_unique(self@, self@[i as int].key());
        }
        self.items.remove(i)
    }

    /// Puts an item with a new key at position `i`.
    pub fn insert_at(&mut self, i: usize, item: T)
        requires
            old(self).wf(),
            i <= old(self)@.len(),
            !has_key(old(self)@, item.key()),
        ensures
            final(self).wf(),
            final(self)@ == old(self)@.insert(i as int, item),
    {
        let ghost s = self@;
        self.items.insert(i, item);
        proof {
            let r = self@;
            assert forall|a: int, b: int| 0 <= a < r.len() && 0 <= b < r.len() && a != b implies #[trigger] r[a].key() != #[trigger] r[b].key() by {
                let sa = if a < i { a } else { a - 1 };
                let sb = if b < i { b } else { b - 1 };
                if a == i {
                    assert(r[b] == s[sb]);
                } else if b == i {
                    assert(r[a] == s[sa]);
                } else {
                    assert(r[a] == s[sa]);
                    assert(r[b] == s[sb]);
                }
            }
        }
    }
}

/// Taking an item out and putting it back where it was gives back the same items.
pub proof fn lemma_remove_insert<T>(s: Seq<T>, i: int, item: T)
    requires
        0 <= i < s.len(),
    ensures
        s.remove(i).insert(i, item) == s.update(i, item),
{
    assert(s.remove(i).insert(i, item) =~= s.update(i, item));
}

/// Reading back what was put: after putting an item, the lookup gives that item for
/// its key and, for every other key, what it gave before.
pub proof fn law_get_after_put<T: LookupKey>(s: Seq<T>, item: T, k: u128)
    requires
        keys_unique(s),
    ensures
        spec_get(spec_put(s, item), item.key()) == Some(item),
        k != item.key() ==> spec_get(spec_put(s, item), k) == spec_get(s, k),
{
    lemma_put_unique(s, item);
}

/// Taking undoes putting an item with a new key.
pub proof fn law_take_undoes_put<T: LookupKey>(s: Seq<T>, item: T)
    requires
        keys_unique(s),
        !has_key(s, item.key()),
    ensures
        spec_take(spec_put(s, item), item.key()) == s,
{
    let p = s.push(item);
    assert(spec_put(s, item) == p);
    assert(has_key(p, item.key())) by {
        assert(p[s.len() as int].key() == item.key());
    }
    lemma_put_unique(s, item);
    lemma_key_index_unique(p, s.len() as int);
    assert(p.remove(s.len() as int) =~= s);
}

/// Putting an item twice is putting it once.
pub proof fn law_put_idempotent<T: LookupKey>(s: Seq<T>, item: T)
    requires
        keys_unique(s),
    ensures
        spec_put(spec_put(s, item), item) == spec_put(s, item),
{
    lemma_put_unique(s, item);
    let p = spec_put(s, item);
    let i = key_index(p, item.key());
    lemma_key_index(p, item.key());
    lemma_key_index_unique(p, i);
    assert(p[i] == item) by {
        assert(spec_get(p, item.key()) == Some(item));
    }
    assert(p.update(i, item) =~= p);
}

/// After taking a key, no item has it and every other key gives what it gave before.
pub proof fn law_get_after_take<T: LookupKey>(s: Seq<T>, k: u128, other: u128)
    requires
        keys_unique(s),
    ensures
        spec_get(spec_take(s, k), k) is None,
        other != k ==> spec_get(spec_take(s, k), other) == spec_get(s, other),
{
    lemma_take_unique(s, k);
}

} // verus!

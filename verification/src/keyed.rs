//! Sets of items that are told apart by a key.
//!
//! A [`KeyedSet`] never holds two items with the same key, whatever else the
//! items differ in. Its view is the map from each key to the item stored under it.

use vstd::prelude::*;

verus! {

/// An item with an identity: the key under which a set stores it.
pub trait Keyed: View + Sized {
    /// What identifies an item.
    type Key;

    /// The key of an item, read off its view.
    spec fn key_of(v: Self::V) -> Self::Key;

    /// Tells whether two items have the same key.
    fn same_key(&self, other: &Self) -> (b: bool)
        ensures
            b == (Self::key_of(self@) == Self::key_of(other@)),
    ;

    /// A copy of the item.
    fn duplicate(&self) -> (r: Self)
        ensures
            r@ == self@,
    ;
}

/// The views of a list of items.
pub open spec fn views<T: View>(s: Seq<T>) -> Seq<T::V> {
    s.map_values(|x: T| x@)
}

/// No two entries of the list have the same key.
pub open spec fn distinct<T: Keyed>(s: Seq<T::V>) -> bool {
    forall|i: int, j: int|
        0 <= i < j < s.len() ==> T::key_of(#[trigger] s[i]) != T::key_of(#[trigger] s[j])
}

/// The map from key to entry that a list of entries stands for.
pub open spec fn map_of<T: Keyed>(s: Seq<T::V>) -> Map<T::Key, T::V>
    decreases s.len(),
{
    if s.len() == 0 {
        Map::empty()
    } else {
        map_of::<T>(s.drop_last()).insert(T::key_of(s.last()), s.last())
    }
}

/// Every entry of the map is stored under its own key.
pub open spec fn well_keyed<T: Keyed>(m: Map<T::Key, T::V>) -> bool {
    forall|k: T::Key| #[trigger] m.contains_key(k) ==> T::key_of(m[k]) == k
}

/// What `map_of` holds: the keys of the entries and no others, each entry
/// under its own key and, where the keys are distinct, each entry itself.
pub proof fn lemma_map_of<T: Keyed>(s: Seq<T::V>)
    ensures
        forall|i: int| 0 <= i < s.len() ==> map_of::<T>(s).contains_key(T::key_of(#[trigger] s[i])),
        forall|k: T::Key| #[trigger]
            map_of::<T>(s).contains_key(k) ==> exists|i: int|
                0 <= i < s.len() && T::key_of(#[trigger] s[i]) == k,
        well_keyed::<T>(map_of::<T>(s)),
        distinct::<T>(s) ==> forall|i: int|
            0 <= i < s.len() ==> map_of::<T>(s)[T::key_of(#[trigger] s[i])] == s[i],
        map_of::<T>(s).dom().finite(),
        distinct::<T>(s) ==> map_of::<T>(s).dom().len() == s.len(),
    decreases s.len(),
{
    if s.len() > 0 {
        let p = s.drop_last();
        lemma_map_of::<T>(p);
        assert forall|i: int| 0 <= i < s.len() implies map_of::<T>(s).contains_key(
            T::key_of(#[trigger] s[i]),
        ) by {
            if i < p.len() {
                assert(p[i] == s[i]);
            }
        }
        assert forall|k: T::Key| #[trigger] map_of::<T>(s).contains_key(k) implies exists|i: int|
            0 <= i < s.len() && T::key_of(#[trigger] s[i]) == k by {
            if k == T::key_of(s.last()) {
                assert(T::key_of(s[s.len() - 1]) == k);
            } else {
                assert(map_of::<T>(p).contains_key(k));
                let i = choose|i: int| 0 <= i < p.len() && T::key_of(#[trigger] p[i]) == k;
                assert(s[i] == p[i]);
            }
        }
        assert forall|k: T::Key| #[trigger] map_of::<T>(s).contains_key(k) implies T::key_of(
            map_of::<T>(s)[k],
        ) == k by {
            if k != T::key_of(s.last()) {
                assert(map_of::<T>(p).contains_key(k));
            }
        }
        if distinct::<T>(s) {
            lemma_distinct_prefix::<T>(s, p.len() as int);
            assert(s.take(p.len() as int) =~= p);
            assert forall|i: int| 0 <= i < s.len() implies map_of::<T>(s)[T::key_of(
                #[trigger] s[i],
            )] == s[i] by {
                if i < p.len() {
                    assert(p[i] == s[i]);
                    assert(T::key_of(s[i]) != T::key_of(s[s.len() - 1]));
                }
            }
            if map_of::<T>(p).contains_key(T::key_of(s.last())) {
                let i = choose|i: int|
                    0 <= i < p.len() && T::key_of(#[trigger] p[i]) == T::key_of(s.last());
                assert(p[i] == s[i]);
                assert(T::key_of(s[i]) != T::key_of(s[s.len() - 1]));
            }
        }
    }
}

/// The first entries of a list with distinct keys have distinct keys.
pub proof fn lemma_distinct_prefix<T: Keyed>(s: Seq<T::V>, n: int)
    requires
        distinct::<T>(s),
        0 <= n <= s.len(),
    ensures
        distinct::<T>(s.take(n)),
{
    let p = s.take(n);
    assert forall|i: int, j: int| 0 <= i < j < p.len() implies T::key_of(#[trigger] p[i])
        != T::key_of(#[trigger] p[j]) by {
        assert(p[i] == s[i] && p[j] == s[j]);
    }
}

/// One more entry under a key that the list does not hold yet keeps the keys distinct.
pub proof fn lemma_distinct_push<T: Keyed>(s: Seq<T::V>, v: T::V)
    requires
        distinct::<T>(s),
        !map_of::<T>(s).contains_key(T::key_of(v)),
    ensures
        distinct::<T>(s.push(v)),
        map_of::<T>(s.push(v)) == map_of::<T>(s).insert(T::key_of(v), v),
{
    lemma_map_of::<T>(s);
    let q = s.push(v);
    assert(q.drop_last() =~= s);
    assert forall|i: int, j: int| 0 <= i < j < q.len() implies T::key_of(#[trigger] q[i])
        != T::key_of(#[trigger] q[j]) by {
        assert(q[i] == s[i]);
        if j < s.len() {
            assert(q[j] == s[j]);
        }
    }
}

/// A set of items with pairwise different keys.
#[derive(Debug)]
pub struct KeyedSet<T: Keyed> {
    items: Vec<T>,
}

impl<T: Keyed> View for KeyedSet<T> {
    type V = Map<T::Key, T::V>;

    open spec fn view(&self) -> Map<T::Key, T::V> {
        map_of::<T>(self.entries())
    }
}

impl<T: Keyed> KeyedSet<T> {
    #[verifier::type_invariant]
    spec fn keys_differ(self) -> bool {
        distinct::<T>(self.entries())
    }

    /// The items of the set in the order in which it lists them.
    pub closed spec fn entries(&self) -> Seq<T::V> {
        views(self.items@)
    }

    /// The empty set.
    pub fn new() -> (s: Self)
        ensures
            s@ == Map::<T::Key, T::V>::empty(),
            s.entries() == Seq::<T::V>::empty(),
    {
        let s = KeyedSet { items: Vec::new() };
        assert(s.entries() =~= Seq::<T::V>::empty());
        s
    }

    /// The number of items.
    pub fn len(&self) -> (n: usize)
        ensures
            n == self@.dom().len(),
            n == self.entries().len(),
            self@.dom().finite(),
    {
        proof {
            use_type_invariant(self);
            lemma_map_of::<T>(self.entries());
        }
        self.items.len()
    }

    /// Tells whether the set holds nothing.
    pub fn is_empty(&self) -> (b: bool)
        ensures
            b == (self@ == Map::<T::Key, T::V>::empty()),
            b == (self.entries().len() == 0),
    {
        proof {
            use_type_invariant(self);
            lemma_map_of::<T>(self.entries());
            if self.items.len() > 0 {
                assert(self@.contains_key(T::key_of(self.entries()[0])));
            } else {
                assert(self@ =~= Map::<T::Key, T::V>::empty());
            }
        }
        self.items.len() == 0
    }

    /// The items in the order of `entries`, which lists each key once.
    pub fn items(&self) -> (r: &Vec<T>)
        ensures
            views(r@) == self.entries(),
            distinct::<T>(self.entries()),
    {
        proof {
            use_type_invariant(self);
        }
        &self.items
    }

    /// Hands the items out, in the order of `entries`.
    pub fn into_vec(self) -> (r: Vec<T>)
        ensures
            views(r@) == self.entries(),
            distinct::<T>(self.entries()),
    {
        proof {
            use_type_invariant(&self);
        }
        self.items
    }

    fn position(&self, probe: &T) -> (r: Option<usize>)
        ensures
            distinct::<T>(self.entries()),
            match r {
                Some(i) => i < self.entries().len() && T::key_of(self.entries()[i as int])
                    == T::key_of(probe@) && self@.contains_key(T::key_of(probe@))
                    && self@[T::key_of(probe@)] == self.entries()[i as int],
                None => !self@.contains_key(T::key_of(probe@)),
            },
    {
        proof {
            use_type_invariant(self);
        }
        let mut i: usize = 0;
        while i < self.items.len()
            invariant
                i <= self.items.len(),
                distinct::<T>(self.entries()),
                forall|j: int| 0 <= j < i ==> T::key_of(self.entries()[j]) != T::key_of(probe@),
            decreases self.items.len() - i,
        {
            assert(self.entries()[i as int] == self.items[i as int]@);
            if self.items[i].same_key(probe) {
                proof {
                    lemma_map_of::<T>(self.entries());
                }
                return Some(i);
            }
            i += 1;
        }
        proof {
            lemma_map_of::<T>(self.entries());
        }
        None
    }

    /// Tells whether the set holds an item with the key of `probe`.
    pub fn contains(&self, probe: &T) -> (b: bool)
        ensures
            b == self@.contains_key(T::key_of(probe@)),
    {
        self.position(probe).is_some()
    }

    /// The item stored under the key of `probe`, if there is one.
    pub fn get(&self, probe: &T) -> (r: Option<&T>)
        ensures
            match r {
                Some(item) => self@.contains_key(T::key_of(probe@)) && item@ == self@[T::key_of(
                    probe@,
                )],
                None => !self@.contains_key(T::key_of(probe@)),
            },
    {
        match self.position(probe) {
            Some(i) => {
                assert(self.entries()[i as int] == self.items[i as int]@);
                Some(&self.items[i])
            },
            None => None,
        }
    }

    /// Adds an item whose key the set does not hold yet, at the end of `entries`.
    pub fn insert_new(&mut self, item: T)
        requires
            !old(self)@.contains_key(T::key_of(item@)),
        ensures
            final(self)@ == old(self)@.insert(T::key_of(item@), item@),
            final(self).entries() == old(self).entries().push(item@),
    {
        proof {
            use_type_invariant(&*self);
            lemma_distinct_push::<T>(self.entries(), item@);
            assert(views(self.items@.push(item)) =~= self.entries().push(item@));
        }
        let mut items: Vec<T> = Vec::new();
        std::mem::swap(&mut items, &mut self.items);
        items.push(item);
        self.items = items;
    }

    /// Adds an item unless the set holds one with the same key already, which
    /// then stays. Tells whether the item was added.
    pub fn insert(&mut self, item: T) -> (added: bool)
        ensures
            added == !old(self)@.contains_key(T::key_of(item@)),
            added ==> final(self)@ == old(self)@.insert(T::key_of(item@), item@),
            added ==> final(self).entries() == old(self).entries().push(item@),
            !added ==> final(self)@ == old(self)@,
            !added ==> final(self).entries() == old(self).entries(),
    {
        if self.contains(&item) {
            false
        } else {
            self.insert_new(item);
            true
        }
    }

    /// Stores an item under its key, in place of the one stored there, if any.
    pub fn replace(&mut self, item: T)
        ensures
            final(self)@ == old(self)@.insert(T::key_of(item@), item@),
    {
        match self.position(&item) {
            Some(i) => {
                proof {
                    let before = self.entries();
                    let after = before.update(i as int, item@);
                    assert(views(self.items@.update(i as int, item)) =~= after);
                    assert(distinct::<T>(after)) by {
                        assert forall|a: int, b: int| 0 <= a < b < after.len() implies T::key_of(
                            #[trigger] after[a],
                        ) != T::key_of(#[trigger] after[b]) by {
                            assert(T::key_of(after[a]) == T::key_of(before[a]));
                            assert(T::key_of(after[b]) == T::key_of(before[b]));
                        }
                    }
                    lemma_map_of::<T>(before);
                    lemma_map_of::<T>(after);
                    let k = T::key_of(item@);
                    assert forall|key: T::Key|
                        map_of::<T>(after).contains_key(key) == map_of::<T>(before).insert(
                            k,
                            item@,
                        ).contains_key(key) by {
                        if map_of::<T>(after).contains_key(key) {
                            let a = choose|a: int|
                                0 <= a < after.len() && T::key_of(#[trigger] after[a]) == key;
                            assert(T::key_of(before[a]) == key);
                        }
                        if map_of::<T>(before).contains_key(key) {
                            let a = choose|a: int|
                                0 <= a < before.len() && T::key_of(#[trigger] before[a]) == key;
                            assert(T::key_of(after[a]) == key);
                        }
                    }
                    assert forall|key: T::Key| #[trigger]
                        map_of::<T>(after).contains_key(key) implies map_of::<T>(after)[key]
                        == map_of::<T>(before).insert(k, item@)[key] by {
                        let a = choose|a: int|
                            0 <= a < after.len() && T::key_of(#[trigger] after[a]) == key;
                        assert(T::key_of(before[a]) == key);
                        if a != i {
                            assert(after[a] == before[a]);
                            assert(T::key_of(before[a]) != T::key_of(before[i as int]));
                        }
                    }
                    assert(map_of::<T>(after) =~= map_of::<T>(before).insert(k, item@));
                }
                let mut items: Vec<T> = Vec::new();
                std::mem::swap(&mut items, &mut self.items);
                items.set(i, item);
                self.items = items;
            },
            None => {
                self.insert_new(item);
            },
        }
    }

    /// The set of the items of a list: of two with the same key, the first stays.
    pub fn from_vec(list: Vec<T>) -> (s: Self)
        ensures
            s@ == first_wins::<T>(views(list@)),
    {
        let mut s: KeyedSet<T> = KeyedSet::new();
        let ghost all = views(list@);
        for item in it: list
            invariant
                it.seq() == list@,
                all == views(list@),
                s@ == first_wins::<T>(all.take(it.index() as int)),
        {
            proof {
                let n = it.index() as int;
                assert(all.take(n + 1).drop_last() =~= all.take(n));
                assert(all.take(n + 1).last() == item@);
            }
            s.insert(item);
        }
        assert(all.take(all.len() as int) =~= all);
        s
    }

    /// A copy of the set.
    pub fn duplicate(&self) -> (r: Self)
        ensures
            r@ == self@,
            r.entries() == self.entries(),
    {
        proof {
            use_type_invariant(self);
        }
        let mut r: KeyedSet<T> = KeyedSet::new();
        let mut i: usize = 0;
        while i < self.items.len()
            invariant
                i <= self.items.len(),
                distinct::<T>(self.entries()),
                r.entries() == self.entries().take(i as int),
            decreases self.items.len() - i,
        {
            let item = self.items[i].duplicate();
            proof {
                assert(self.entries()[i as int] == self.items[i as int]@);
                lemma_distinct_prefix::<T>(self.entries(), i + 1);
                assert(self.entries().take(i + 1) =~= self.entries().take(i as int).push(item@));
                lemma_fresh_last::<T>(self.entries().take(i + 1));
                assert(self.entries().take(i + 1).drop_last() =~= self.entries().take(i as int));
            }
            r.insert_new(item);
            i += 1;
        }
        assert(self.entries().take(self.items.len() as int) =~= self.entries());
        r
    }
}

impl<T: Keyed> Clone for KeyedSet<T> {
    fn clone(&self) -> (r: Self)
        ensures
            r@ == self@,
    {
        self.duplicate()
    }
}

/// In a list with distinct keys the last entry's key is not among the others.
pub proof fn lemma_fresh_last<T: Keyed>(s: Seq<T::V>)
    requires
        distinct::<T>(s),
        s.len() > 0,
    ensures
        !map_of::<T>(s.drop_last()).contains_key(T::key_of(s.last())),
{
    let p = s.drop_last();
    lemma_map_of::<T>(p);
    if map_of::<T>(p).contains_key(T::key_of(s.last())) {
        let i = choose|i: int| 0 <= i < p.len() && T::key_of(#[trigger] p[i]) == T::key_of(s.last());
        assert(p[i] == s[i]);
        assert(T::key_of(s[i]) != T::key_of(s[s.len() - 1]));
    }
}

/// The map that a list of entries gives when, of two entries with the same
/// key, the one that comes first is kept.
pub open spec fn first_wins<T: Keyed>(s: Seq<T::V>) -> Map<T::Key, T::V>
    decreases s.len(),
{
    if s.len() == 0 {
        Map::empty()
    } else {
        let before = first_wins::<T>(s.drop_last());
        if before.contains_key(T::key_of(s.last())) {
            before
        } else {
            before.insert(T::key_of(s.last()), s.last())
        }
    }
}

} // verus!

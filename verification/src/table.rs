//! Keyed tables that remember the order in which keys first arrived.
use crate::twin::Twin;
use vstd::prelude::*;

verus! {

/// A key compared by its mathematical view.
pub trait Key: Twin {
    /// Whether two keys have the same view.
    fn same(&self, other: &Self) -> (r: bool)
        ensures
            r == (self.deep_view() == other.deep_view()),
    ;
}

impl Key for String {
    fn same(&self, other: &Self) -> (r: bool) {
        *self == *other
    }
}

impl Key for u64 {
    fn same(&self, other: &Self) -> (r: bool) {
        *self == *other
    }
}

impl<A: Key, B: Key> Key for (A, B) {
    fn same(&self, other: &Self) -> (r: bool) {
        self.0.same(&other.0) && self.1.same(&other.1)
    }
}

/// Whether some row holds the key.
pub open spec fn holds<K, V>(rows: Seq<(K, V)>, k: K) -> bool {
    exists|i: int| 0 <= i < rows.len() && #[trigger] rows[i].0 == k
}

/// The position of a row that holds the key.
pub open spec fn place<K, V>(rows: Seq<(K, V)>, k: K) -> int {
    choose|i: int| 0 <= i < rows.len() && #[trigger] rows[i].0 == k
}

/// The value stored under a key that is present.
pub open spec fn at<K, V>(rows: Seq<(K, V)>, k: K) -> V {
    rows[place(rows, k)].1
}

/// The value stored under a key, if any.
pub open spec fn find<K, V>(rows: Seq<(K, V)>, k: K) -> Option<V> {
    if holds(rows, k) {
        Some(at(rows, k))
    } else {
        None
    }
}

/// Stores a value under a key: a known key keeps its position, a new key comes
/// last.
pub open spec fn put<K, V>(rows: Seq<(K, V)>, k: K, v: V) -> Seq<(K, V)> {
    if holds(rows, k) {
        rows.update(place(rows, k), (k, v))
    } else {
        rows.push((k, v))
    }
}

/// Stores a value only under a key that is not present.
pub open spec fn put_new<K, V>(rows: Seq<(K, V)>, k: K, v: V) -> Seq<(K, V)> {
    if holds(rows, k) {
        rows
    } else {
        rows.push((k, v))
    }
}

/// The rows without the one that holds the key.
pub open spec fn without<K, V>(rows: Seq<(K, V)>, k: K) -> Seq<(K, V)> {
    if holds(rows, k) {
        rows.remove(place(rows, k))
    } else {
        rows
    }
}

/// No key occurs twice.
pub open spec fn distinct<K, V>(rows: Seq<(K, V)>) -> bool {
    forall|i: int, j: int| 0 <= i < j < rows.len() ==> #[trigger] rows[i].0 != #[trigger] rows[j].0
}

/// The stored values, in row order.
pub open spec fn values<K, V>(rows: Seq<(K, V)>) -> Seq<V> {
    Seq::new(rows.len(), |i: int| rows[i].1)
}

/// A lookup after a store sees the stored value, and every other key is
/// unaffected.
pub proof fn lemma_put_find<K, V>(rows: Seq<(K, V)>, k: K, v: V, other: K)
    requires
        distinct(rows),
    ensures
        distinct(put(rows, k, v)),
        find(put(rows, k, v), k) == Some(v),
        other != k ==> find(put(rows, k, v), other) == find(rows, other),
{
    let after = put(rows, k, v);
    lemma_put_distinct(rows, k, v);
    if holds(rows, k) {
        let p = place(rows, k);
        assert(rows[p].0 == k);
        assert(after[p].0 == k);
        lemma_place_unique(after, k, p);
    } else {
        assert(after[rows.len() as int].0 == k);
        lemma_place_unique(after, k, rows.len() as int);
    }
    if other != k {
        if holds(rows, other) {
            let q = place(rows, other);
            assert(rows[q].0 == other);
            assert(after[q] == rows[q]);
            assert(after[q].0 == other);
            lemma_place_unique(after, other, q);
        } else if holds(after, other) {
            let q = place(after, other);
            assert(after[q].0 == other);
            assert(rows[q].0 == other);
        }
    }
}

/// Storing the value that a key already has changes nothing.
pub proof fn lemma_put_same<K, V>(rows: Seq<(K, V)>, k: K)
    requires
        holds(rows, k),
    ensures
        put(rows, k, at(rows, k)) == rows,
{
    assert(put(rows, k, at(rows, k)) =~= rows);
}

/// Storing keeps keys distinct.
pub proof fn lemma_put_distinct<K, V>(rows: Seq<(K, V)>, k: K, v: V)
    requires
        distinct(rows),
    ensures
        distinct(put(rows, k, v)),
{
    let after = put(rows, k, v);
    if holds(rows, k) {
        let p = place(rows, k);
        assert(rows[p].0 == k);
        assert forall|i: int, j: int| 0 <= i < j < after.len() implies #[trigger] after[i].0
            != #[trigger] after[j].0 by {
            assert(rows[i].0 != rows[j].0);
        }
    } else {
        assert forall|i: int, j: int| 0 <= i < j < after.len() implies #[trigger] after[i].0
            != #[trigger] after[j].0 by {
            if j < rows.len() {
                assert(rows[i].0 != rows[j].0);
            } else {
                assert(after[i].0 == rows[i].0);
            }
        }
    }
}

/// A removed key is gone, and every other key is unaffected.
pub proof fn lemma_without_find<K, V>(rows: Seq<(K, V)>, k: K, other: K)
    requires
        distinct(rows),
    ensures
        distinct(without(rows, k)),
        !holds(without(rows, k), k),
        other != k ==> find(without(rows, k), other) == find(rows, other),
{
    let after = without(rows, k);
    if holds(rows, k) {
        let p = place(rows, k);
        assert(rows[p].0 == k);
        assert forall|i: int, j: int| 0 <= i < j < after.len() implies #[trigger] after[i].0
            != #[trigger] after[j].0 by {
            let i0 = if i < p { i } else { i + 1 };
            let j0 = if j < p { j } else { j + 1 };
            assert(rows[i0].0 != rows[j0].0);
        }
        if holds(after, k) {
            let q = place(after, k);
            assert(after[q].0 == k);
            let q0 = if q < p { q } else { q + 1 };
            assert(rows[q0].0 == k);
            lemma_place_unique(rows, k, q0);
        }
        if other != k {
            if holds(rows, other) {
                let q = place(rows, other);
                assert(rows[q].0 == other);
                let q0 = if q < p { q } else { q - 1 };
                assert(after[q0] == rows[q]);
                lemma_place_unique(after, other, q0);
            } else if holds(after, other) {
                let q = place(after, other);
                assert(after[q].0 == other);
                let q0 = if q < p { q } else { q + 1 };
                assert(rows[q0].0 == other);
            }
        }
    }
}

/// With distinct keys a row is found by its key.
pub proof fn lemma_place_unique<K, V>(rows: Seq<(K, V)>, k: K, i: int)
    requires
        distinct(rows),
        0 <= i < rows.len(),
        rows[i].0 == k,
    ensures
        holds(rows, k),
        place(rows, k) == i,
{
    let p = place(rows, k);
    assert(rows[i].0 == k);
    assert(0 <= p < rows.len() && rows[p].0 == k);
    if p < i {
        assert(rows[p].0 != rows[i].0);
    } else if i < p {
        assert(rows[i].0 != rows[p].0);
    }
}

/// Storing a value under a key adds that key and no other.
pub proof fn lemma_put_holds<K, V>(rows: Seq<(K, V)>, k: K, v: V, other: K)
    ensures
        holds(put(rows, k, v), other) <==> holds(rows, other) || other == k,
{
    let next = put(rows, k, v);
    if holds(rows, other) {
        let i = choose|i: int| 0 <= i < rows.len() && (#[trigger] rows[i]).0 == other;
        assert(next[i].0 == other);
    }
    if holds(next, other) {
        let i = choose|i: int| 0 <= i < next.len() && (#[trigger] next[i]).0 == other;
        if i < rows.len() {
            assert(rows[i].0 == other || other == k);
        }
    }
    if holds(rows, k) {
        assert(next[place(rows, k)].0 == k);
    } else {
        assert(next[rows.len() as int].0 == k);
    }
}

/// Storing a value unless its key is present adds that key and no other.
pub proof fn lemma_put_new_holds<K, V>(rows: Seq<(K, V)>, k: K, v: V, other: K)
    ensures
        holds(put_new(rows, k, v), other) <==> holds(rows, other) || other == k,
{
    lemma_put_holds(rows, k, v, other);
}

/// A lookup after storing a value unless its key is present: the first value
/// stands, and every other key is unaffected.
pub proof fn lemma_put_new_find<K, V>(rows: Seq<(K, V)>, k: K, v: V, other: K)
    requires
        distinct(rows),
    ensures
        distinct(put_new(rows, k, v)),
        find(rows, k) is None ==> find(put_new(rows, k, v), k) == Some(v),
        find(rows, k) is Some ==> find(put_new(rows, k, v), k) == find(rows, k),
        other != k ==> find(put_new(rows, k, v), other) == find(rows, other),
{
    lemma_put_find(rows, k, v, other);
}

/// Adding a member adds nobody else.
pub proof fn lemma_joined_contains<K>(members: Seq<K>, k: K, other: K)
    ensures
        joined(members, k).contains(other) <==> members.contains(other) || other == k,
{
    let all = joined(members, k);
    if members.contains(other) {
        let i = members.index_of(other);
        assert(all[i] == other);
    }
    if all.len() > members.len() {
        assert(all[members.len() as int] == k);
    }
}

/// An insertion-ordered table with distinct keys.
#[derive(Debug, PartialEq, Eq)]
pub struct Table<K: Key, V: DeepView> {
    entries: Vec<(K, V)>,
}

impl<K: Key, V: DeepView> Table<K, V> {
    /// The rows of the table by view.
    pub closed spec fn rows(&self) -> Seq<(K::V, V::V)> {
        Seq::new(
            self.entries@.len(),
            |i: int| (self.entries@[i].0.deep_view(), self.entries@[i].1.deep_view()),
        )
    }

    #[verifier::type_invariant]
    spec fn inv(&self) -> bool {
        distinct(self.rows())
    }

    /// An empty table.
    pub fn new() -> (r: Self)
        ensures
            r.rows() == Seq::<(K::V, V::V)>::empty(),
    {
        let r = Table { entries: Vec::new() };
        assert(r.rows() =~= Seq::<(K::V, V::V)>::empty());
        r
    }

    /// The number of rows.
    pub fn len(&self) -> (r: usize)
        ensures
            r == self.rows().len(),
            distinct(self.rows()),
    {
        proof {
            use_type_invariant(self);
        }
        self.entries.len()
    }

    /// The key of a row.
    pub fn key_at(&self, i: usize) -> (r: &K)
        requires
            i < self.rows().len(),
        ensures
            r.deep_view() == self.rows()[i as int].0,
    {
        &self.entries[i].0
    }

    /// The value of a row.
    pub fn value_at(&self, i: usize) -> (r: &V)
        requires
            i < self.rows().len(),
        ensures
            r.deep_view() == self.rows()[i as int].1,
    {
        &self.entries[i].1
    }

    /// The position of a key.
    pub fn position(&self, k: &K) -> (r: Option<usize>)
        ensures
            match r {
                Some(i) => i < self.rows().len() && holds(self.rows(), k.deep_view()) && place(
                    self.rows(),
                    k.deep_view(),
                ) == i && self.rows()[i as int].0 == k.deep_view(),
                None => !holds(self.rows(), k.deep_view()),
            },
    {
        proof {
            use_type_invariant(self);
        }
        let mut i: usize = 0;
        while i < self.entries.len()
            invariant
                i <= self.entries@.len(),
                distinct(self.rows()),
                forall|j: int| 0 <= j < i ==> #[trigger] self.rows()[j].0 != k.deep_view(),
            decreases self.entries@.len() - i,
        {
            if self.entries[i].0.same(k) {
                proof {
                    assert(self.rows()[i as int].0 == k.deep_view());
                    lemma_place_unique(self.rows(), k.deep_view(), i as int);
                }
                return Some(i);
            }
            i = i + 1;
        }
        None
    }

    /// Whether a key is present.
    pub fn contains(&self, k: &K) -> (r: bool)
        ensures
            r == holds(self.rows(), k.deep_view()),
    {
        self.position(k).is_some()
    }

    /// The value stored under a key.
    pub fn get(&self, k: &K) -> (r: Option<&V>)
        ensures
            r.deep_view() == find(self.rows(), k.deep_view()),
            distinct(self.rows()),
    {
        proof {
            use_type_invariant(self);
        }
        match self.position(k) {
            Some(i) => Some(&self.entries[i].1),
            None => None,
        }
    }

    /// All values, in row order.
    pub fn refs(&self) -> (r: Vec<&V>)
        ensures
            r.deep_view() == values(self.rows()),
    {
        let mut r: Vec<&V> = Vec::new();
        while r.len() < self.entries.len()
            invariant
                r@.len() <= self.entries@.len(),
                forall|j: int|
                    0 <= j < r@.len() ==> (#[trigger] r@[j]).deep_view() == self.rows()[j].1,
            decreases self.entries@.len() - r@.len(),
        {
            r.push(&self.entries[r.len()].1);
        }
        assert(r.deep_view() =~= values(self.rows()));
        r
    }

    /// All rows in order.
    pub fn row_refs(&self) -> (r: Vec<(&K, &V)>)
        ensures
            r.deep_view() == self.rows(),
    {
        let mut r: Vec<(&K, &V)> = Vec::new();
        while r.len() < self.entries.len()
            invariant
                r@.len() <= self.entries@.len(),
                forall|j: int|
                    0 <= j < r@.len() ==> (#[trigger] r@[j]).deep_view() == self.rows()[j],
            decreases self.entries@.len() - r@.len(),
        {
            let row = &self.entries[r.len()];
            r.push((&row.0, &row.1));
        }
        assert(r.deep_view() =~= self.rows());
        r
    }

    /// Stores a value under a key and reports whether the key was present.
    pub fn insert(&mut self, k: K, v: V) -> (was: bool)
        ensures
            final(self).rows() == put(old(self).rows(), k.deep_view(), v.deep_view()),
            was == holds(old(self).rows(), k.deep_view()),
    {
        proof {
            use_type_invariant(&*self);
            lemma_put_distinct(self.rows(), k.deep_view(), v.deep_view());
        }
        let ghost before = self.rows();
        let found = self.position(&k);
        let mut entries: Vec<(K, V)> = Vec::new();
        std::mem::swap(&mut entries, &mut self.entries);
        let was = match found {
            Some(i) => {
                entries.set(i, (k, v));
                true
            },
            None => {
                entries.push((k, v));
                false
            },
        };
        let ghost after = Seq::new(
            entries@.len(),
            |i: int| (entries@[i].0.deep_view(), entries@[i].1.deep_view()),
        );
        assert(after =~= put(before, k.deep_view(), v.deep_view()));
        self.entries = entries;
        was
    }

    /// Stores a value unless the key is present; reports whether it stored.
    pub fn insert_new(&mut self, k: K, v: V) -> (stored: bool)
        ensures
            final(self).rows() == put_new(old(self).rows(), k.deep_view(), v.deep_view()),
            stored == !holds(old(self).rows(), k.deep_view()),
    {
        if self.contains(&k) {
            false
        } else {
            self.insert(k, v);
            true
        }
    }

    /// Removes the row of a key and reports whether there was one.
    pub fn remove(&mut self, k: &K) -> (was: bool)
        ensures
            final(self).rows() == without(old(self).rows(), k.deep_view()),
            was == holds(old(self).rows(), k.deep_view()),
    {
        proof {
            use_type_invariant(&*self);
        }
        let ghost before = self.rows();
        match self.position(k) {
            None => false,
            Some(i) => {
                let mut entries: Vec<(K, V)> = Vec::new();
                std::mem::swap(&mut entries, &mut self.entries);
                let _gone = entries.remove(i);
                let ghost after = Seq::new(
                    entries@.len(),
                    |j: int| (entries@[j].0.deep_view(), entries@[j].1.deep_view()),
                );
                proof {
                    assert(after =~= before.remove(i as int));
                    assert forall|a: int, b: int| 0 <= a < b < after.len() implies #[trigger] after[a].0
                        != #[trigger] after[b].0 by {
                        let a0 = if a < i { a } else { a + 1 };
                        let b0 = if b < i { b } else { b + 1 };
                        assert(before[a0].0 != before[b0].0);
                    }
                }
                self.entries = entries;
                true
            },
        }
    }
}

impl<K: Key, V: DeepView> DeepView for Table<K, V> {
    type V = Seq<(K::V, V::V)>;

    open spec fn deep_view(&self) -> Seq<(K::V, V::V)> {
        self.rows()
    }
}

impl<K: Key, V: Twin> Clone for Table<K, V> {
    fn clone(&self) -> (r: Self)
        ensures
            r.deep_view() == self.deep_view(),
    {
        self.twin()
    }
}

impl<K: Key, V: Twin> Twin for Table<K, V> {
    fn twin(&self) -> (r: Self) {
        proof {
            use_type_invariant(self);
        }
        let mut entries: Vec<(K, V)> = Vec::new();
        let mut i: usize = 0;
        while i < self.entries.len()
            invariant
                i <= self.entries@.len(),
                entries@.len() == i,
                forall|j: int|
                    0 <= j < i ==> (#[trigger] entries@[j]).0.deep_view()
                        == self.entries@[j].0.deep_view() && entries@[j].1.deep_view()
                        == self.entries@[j].1.deep_view(),
            decreases self.entries@.len() - i,
        {
            let row = &self.entries[i];
            entries.push((row.0.twin(), row.1.twin()));
            i = i + 1;
        }
        let ghost rows = Seq::new(
            entries@.len(),
            |j: int| (entries@[j].0.deep_view(), entries@[j].1.deep_view()),
        );
        assert(rows =~= self.rows());
        Table { entries }
    }
}

/// Adds a member unless it is present.
pub open spec fn joined<K>(members: Seq<K>, k: K) -> Seq<K> {
    if members.contains(k) {
        members
    } else {
        members.push(k)
    }
}

/// Adds several members in turn.
pub open spec fn joined_all<K>(members: Seq<K>, more: Seq<K>) -> Seq<K>
    decreases more.len(),
{
    if more.len() == 0 {
        members
    } else {
        joined(joined_all(members, more.drop_last()), more.last())
    }
}

/// A set that remembers the order in which its members arrived.
#[derive(Debug, PartialEq, Eq)]
pub struct Group<K: Key> {
    items: Vec<K>,
}

impl<K: Key> Group<K> {
    /// The members in order of arrival.
    pub closed spec fn members(&self) -> Seq<K::V> {
        self.items.deep_view()
    }

    #[verifier::type_invariant]
    spec fn inv(&self) -> bool {
        self.items.deep_view().no_duplicates()
    }

    /// An empty set.
    pub fn new() -> (r: Self)
        ensures
            r.members() == Seq::<K::V>::empty(),
    {
        let r = Group { items: Vec::new() };
        assert(r.members() =~= Seq::<K::V>::empty());
        r
    }

    /// The number of members, none of which occurs twice.
    pub fn len(&self) -> (r: usize)
        ensures
            r == self.members().len(),
            self.members().no_duplicates(),
    {
        proof {
            use_type_invariant(self);
        }
        self.items.len()
    }

    /// Whether there are no members.
    pub fn is_empty(&self) -> (r: bool)
        ensures
            r == (self.members().len() == 0),
    {
        self.items.len() == 0
    }

    /// The member at a position.
    pub fn at(&self, i: usize) -> (r: &K)
        requires
            i < self.members().len(),
        ensures
            r.deep_view() == self.members()[i as int],
    {
        &self.items[i]
    }

    /// All members in order of arrival.
    pub fn refs(&self) -> (r: Vec<&K>)
        ensures
            r.deep_view() == self.members(),
    {
        let mut r: Vec<&K> = Vec::new();
        while r.len() < self.items.len()
            invariant
                r@.len() <= self.items@.len(),
                forall|j: int|
                    0 <= j < r@.len() ==> (#[trigger] r@[j]).deep_view() == self.members()[j],
            decreases self.items@.len() - r@.len(),
        {
            r.push(&self.items[r.len()]);
        }
        assert(r.deep_view() =~= self.members());
        r
    }

    /// Adds each of several members.
    pub fn insert_all(&mut self, more: &Vec<K>)
        ensures
            final(self).members() == joined_all(old(self).members(), more.deep_view()),
    {
        let ghost all = more.deep_view();
        let ghost before = self.members();
        let mut i: usize = 0;
        while i < more.len()
            invariant
                i <= more@.len(),
                all == more.deep_view(),
                self.members() == joined_all(before, all.subrange(0, i as int)),
            decreases more@.len() - i,
        {
            proof {
                let upto = all.subrange(0, i + 1);
                assert(upto.drop_last() =~= all.subrange(0, i as int));
                assert(upto.last() == more@[i as int].deep_view());
            }
            self.insert(more[i].twin());
            i = i + 1;
        }
        assert(all.subrange(0, i as int) =~= all);
    }

    /// Whether a key is a member.
    pub fn contains(&self, k: &K) -> (r: bool)
        ensures
            r == self.members().contains(k.deep_view()),
    {
        let mut i: usize = 0;
        while i < self.items.len()
            invariant
                i <= self.items@.len(),
                forall|j: int| 0 <= j < i ==> #[trigger] self.members()[j] != k.deep_view(),
            decreases self.items@.len() - i,
        {
            if self.items[i].same(k) {
                assert(self.members()[i as int] == k.deep_view());
                return true;
            }
            i = i + 1;
        }
        false
    }

    /// Adds a member; reports whether it is new.
    pub fn insert(&mut self, k: K) -> (new: bool)
        ensures
            final(self).members() == joined(old(self).members(), k.deep_view()),
            new == !old(self).members().contains(k.deep_view()),
    {
        proof {
            use_type_invariant(&*self);
        }
        if self.contains(&k) {
            false
        } else {
            let ghost before = self.items.deep_view();
            let mut items: Vec<K> = Vec::new();
            std::mem::swap(&mut items, &mut self.items);
            items.push(k);
            proof {
                assert(items.deep_view() =~= before.push(k.deep_view()));
                assert(before.push(k.deep_view()).no_duplicates()) by {
                    let after = before.push(k.deep_view());
                    assert forall|i: int, j: int|
                        0 <= i < after.len() && 0 <= j < after.len() && i != j implies after[i]
                        != after[j] by {
                        if i < before.len() {
                            assert(before.contains(before[i]));
                        }
                        if j < before.len() {
                            assert(before.contains(before[j]));
                        }
                    }
                }
            }
            self.items = items;
            true
        }
    }

    /// Removes a member; reports whether it was one.
    pub fn remove(&mut self, k: &K) -> (was: bool)
        ensures
            final(self).members() == left(old(self).members(), k.deep_view()),
            was == old(self).members().contains(k.deep_view()),
    {
        proof {
            use_type_invariant(&*self);
        }
        let ghost before = self.items.deep_view();
        let mut i: usize = 0;
        while i < self.items.len()
            invariant
                i <= self.items@.len(),
                before == self.members(),
                before.no_duplicates(),
                *self == *old(self),
                forall|j: int| 0 <= j < i ==> #[trigger] self.members()[j] != k.deep_view(),
            decreases self.items@.len() - i,
        {
            if self.items[i].same(k) {
                let mut items: Vec<K> = Vec::new();
                std::mem::swap(&mut items, &mut self.items);
                let _gone = items.remove(i);
                proof {
                    assert(items.deep_view() =~= before.remove(i as int));
                    assert(before[i as int] == k.deep_view());
                    assert(before.contains(k.deep_view()));
                    assert(before.index_of(k.deep_view()) == i);
                    let after = before.remove(i as int);
                    assert forall|a: int, b: int|
                        0 <= a < after.len() && 0 <= b < after.len() && a != b implies after[a]
                        != after[b] by {
                        let a0 = if a < i { a } else { a + 1 };
                        let b0 = if b < i { b } else { b + 1 };
                        assert(before[a0] != before[b0]);
                    }
                }
                self.items = items;
                return true;
            }
            i = i + 1;
        }
        false
    }
}

/// The members without one of them.
pub open spec fn left<K>(members: Seq<K>, k: K) -> Seq<K> {
    if members.contains(k) {
        members.remove(members.index_of(k))
    } else {
        members
    }
}

impl<K: Key> DeepView for Group<K> {
    type V = Seq<K::V>;

    open spec fn deep_view(&self) -> Seq<K::V> {
        self.members()
    }
}

impl<K: Key> Clone for Group<K> {
    fn clone(&self) -> (r: Self)
        ensures
            r.deep_view() == self.deep_view(),
    {
        self.twin()
    }
}

impl<K: Key> Twin for Group<K> {
    fn twin(&self) -> (r: Self) {
        proof {
            use_type_invariant(self);
        }
        Group { items: self.items.twin() }
    }
}

} // verus!

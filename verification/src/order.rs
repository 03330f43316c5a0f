//! Sort keys, the stable sort they drive, and sorted listings of tables.
use crate::table::{self, Key, Table};
use crate::text::{self, text_at_most};
use vstd::prelude::*;

verus! {

/// One component of a sort key.
pub enum KeyPart {
    /// Ordered by value.
    Num(i128),
    /// Ordered lexicographically.
    Text(String),
    /// Ordered lexicographically, element by element.
    Texts(Vec<String>),
}

/// The mathematical form of [`KeyPart`].
pub enum KeyPartView {
    Num(int),
    Text(Seq<char>),
    Texts(Seq<Seq<char>>),
}

impl DeepView for KeyPart {
    type V = KeyPartView;

    open spec fn deep_view(&self) -> KeyPartView {
        match self {
            KeyPart::Num(n) => KeyPartView::Num(*n as int),
            KeyPart::Text(t) => KeyPartView::Text(t@),
            KeyPart::Texts(ts) => KeyPartView::Texts(ts.deep_view()),
        }
    }
}

/// A whole sort key, most significant component first.
pub type SortKey = Seq<KeyPartView>;

/// Lexicographic order on lists of texts.
pub open spec fn texts_le(a: Seq<Seq<char>>, b: Seq<Seq<char>>) -> bool
    decreases a.len(),
{
    if a.len() == 0 {
        true
    } else if b.len() == 0 {
        false
    } else if a[0] == b[0] {
        texts_le(a.drop_first(), b.drop_first())
    } else {
        text::text_le(a[0], b[0])
    }
}

/// The order on components: numbers, then texts, then lists.
pub open spec fn part_le(a: KeyPartView, b: KeyPartView) -> bool {
    match (a, b) {
        (KeyPartView::Num(x), KeyPartView::Num(y)) => x <= y,
        (KeyPartView::Num(_), _) => true,
        (KeyPartView::Text(_), KeyPartView::Num(_)) => false,
        (KeyPartView::Text(x), KeyPartView::Text(y)) => text::text_le(x, y),
        (KeyPartView::Text(_), KeyPartView::Texts(_)) => true,
        (KeyPartView::Texts(x), KeyPartView::Texts(y)) => texts_le(x, y),
        (KeyPartView::Texts(_), _) => false,
    }
}

/// Lexicographic order on sort keys.
pub open spec fn key_le(a: SortKey, b: SortKey) -> bool
    decreases a.len(),
{
    if a.len() == 0 {
        true
    } else if b.len() == 0 {
        false
    } else if a[0] == b[0] {
        key_le(a.drop_first(), b.drop_first())
    } else {
        part_le(a[0], b[0])
    }
}

proof fn lemma_texts_le_total(a: Seq<Seq<char>>, b: Seq<Seq<char>>)
    ensures
        texts_le(a, b) || texts_le(b, a),
    decreases a.len(),
{
    if a.len() > 0 && b.len() > 0 {
        text::lemma_text_le_total(a[0], b[0]);
        if a[0] == b[0] {
            lemma_texts_le_total(a.drop_first(), b.drop_first());
        }
    }
}

proof fn lemma_texts_le_trans(a: Seq<Seq<char>>, b: Seq<Seq<char>>, c: Seq<Seq<char>>)
    requires
        texts_le(a, b),
        texts_le(b, c),
    ensures
        texts_le(a, c),
    decreases a.len(),
{
    if a.len() > 0 && b.len() > 0 && c.len() > 0 {
        if a[0] == b[0] && b[0] == c[0] {
            lemma_texts_le_trans(a.drop_first(), b.drop_first(), c.drop_first());
        } else if a[0] != b[0] && b[0] != c[0] {
            text::lemma_text_le_trans(a[0], b[0], c[0]);
            if a[0] == c[0] {
                text::lemma_text_le_antisym(a[0], b[0]);
            }
        }
    }
}

proof fn lemma_texts_le_antisym(a: Seq<Seq<char>>, b: Seq<Seq<char>>)
    requires
        texts_le(a, b),
        texts_le(b, a),
    ensures
        a == b,
    decreases a.len(),
{
    if a.len() == 0 || b.len() == 0 {
        assert(a =~= b);
    } else {
        if a[0] != b[0] {
            text::lemma_text_le_antisym(a[0], b[0]);
        }
        lemma_texts_le_antisym(a.drop_first(), b.drop_first());
        assert(a =~= seq![a[0]] + a.drop_first());
        assert(b =~= seq![b[0]] + b.drop_first());
    }
}

proof fn lemma_part_le(a: KeyPartView, b: KeyPartView, c: KeyPartView)
    ensures
        part_le(a, b) || part_le(b, a),
        part_le(a, b) && part_le(b, c) ==> part_le(a, c),
        part_le(a, b) && part_le(b, a) ==> a == b,
{
    if let (KeyPartView::Text(x), KeyPartView::Text(y)) = (a, b) {
        text::lemma_text_le_total(x, y);
        if text::text_le(x, y) && text::text_le(y, x) {
            text::lemma_text_le_antisym(x, y);
        }
        if let KeyPartView::Text(z) = c {
            if text::text_le(x, y) && text::text_le(y, z) {
                text::lemma_text_le_trans(x, y, z);
            }
        }
    }
    if let (KeyPartView::Texts(x), KeyPartView::Texts(y)) = (a, b) {
        lemma_texts_le_total(x, y);
        if texts_le(x, y) && texts_le(y, x) {
            lemma_texts_le_antisym(x, y);
        }
        if let KeyPartView::Texts(z) = c {
            if texts_le(x, y) && texts_le(y, z) {
                lemma_texts_le_trans(x, y, z);
            }
        }
    }
}

/// The order on keys is total.
pub proof fn lemma_key_le_total(a: SortKey, b: SortKey)
    ensures
        key_le(a, b) || key_le(b, a),
    decreases a.len(),
{
    if a.len() > 0 && b.len() > 0 {
        lemma_part_le(a[0], b[0], a[0]);
        if a[0] == b[0] {
            lemma_key_le_total(a.drop_first(), b.drop_first());
        }
    }
}

/// The order on keys is transitive.
pub proof fn lemma_key_le_trans(a: SortKey, b: SortKey, c: SortKey)
    requires
        key_le(a, b),
        key_le(b, c),
    ensures
        key_le(a, c),
    decreases a.len(),
{
    if a.len() > 0 && b.len() > 0 && c.len() > 0 {
        lemma_part_le(a[0], b[0], c[0]);
        lemma_part_le(b[0], c[0], b[0]);
        if a[0] == b[0] && b[0] == c[0] {
            lemma_key_le_trans(a.drop_first(), b.drop_first(), c.drop_first());
        }
    }
}

/// Keys that tie are equal.
pub proof fn lemma_key_le_antisym(a: SortKey, b: SortKey)
    requires
        key_le(a, b),
        key_le(b, a),
    ensures
        a == b,
    decreases a.len(),
{
    if a.len() == 0 || b.len() == 0 {
        assert(a =~= b);
    } else {
        if a[0] != b[0] {
            lemma_part_le(a[0], b[0], a[0]);
        }
        lemma_key_le_antisym(a.drop_first(), b.drop_first());
        assert(a =~= seq![a[0]] + a.drop_first());
        assert(b =~= seq![b[0]] + b.drop_first());
    }
}

/// Inserts a value behind every value whose key is at most its own.
pub open spec fn insert_sorted<V>(s: Seq<V>, v: V, key: spec_fn(V) -> SortKey) -> Seq<V>
    decreases s.len(),
{
    if s.len() == 0 {
        seq![v]
    } else if key_le(key(s.last()), key(v)) {
        s.push(v)
    } else {
        insert_sorted(s.drop_last(), v, key).push(s.last())
    }
}

/// The stable sort of a sequence by key.
pub open spec fn sort_by_key<V>(s: Seq<V>, key: spec_fn(V) -> SortKey) -> Seq<V>
    decreases s.len(),
{
    if s.len() == 0 {
        Seq::empty()
    } else {
        insert_sorted(sort_by_key(s.drop_last(), key), s.last(), key)
    }
}

/// Whether keys never decrease along a sequence.
pub open spec fn keys_ascend<V>(s: Seq<V>, key: spec_fn(V) -> SortKey) -> bool {
    forall|i: int, j: int|
        0 <= i <= j < s.len() ==> key_le(key(#[trigger] s[i]), key(#[trigger] s[j]))
}

proof fn lemma_insert_sorted<V>(s: Seq<V>, v: V, key: spec_fn(V) -> SortKey)
    requires
        keys_ascend(s, key),
    ensures
        keys_ascend(insert_sorted(s, v, key), key),
        insert_sorted(s, v, key).to_multiset() == s.to_multiset().insert(v),
        insert_sorted(s, v, key).len() == s.len() + 1,
        forall|x: V| #[trigger]
            insert_sorted(s, v, key).contains(x) ==> x == v || s.contains(x),
    decreases s.len(),
{
    broadcast use vstd::seq_lib::group_to_multiset_ensures;

    let r = insert_sorted(s, v, key);
    if s.len() == 0 {
        assert(s.push(v) =~= seq![v]);
        lemma_key_le_total(key(v), key(v));
    } else if key_le(key(s.last()), key(v)) {
        assert forall|i: int, j: int| 0 <= i <= j < r.len() implies key_le(
            key(#[trigger] r[i]),
            key(#[trigger] r[j]),
        ) by {
            if j == s.len() {
                if i < s.len() {
                    assert(key_le(key(s[i]), key(s[s.len() - 1])));
                    lemma_key_le_trans(key(s[i]), key(s.last()), key(v));
                } else {
                    lemma_key_le_total(key(v), key(v));
                }
            } else {
                assert(key_le(key(s[i]), key(s[j])));
            }
        }
        assert forall|x: V| #[trigger] r.contains(x) implies x == v || s.contains(x) by {
            let i = choose|i: int| 0 <= i < r.len() && r[i] == x;
            if i < s.len() {
                assert(s[i] == x);
            }
        }
    } else {
        let front = s.drop_last();
        assert(keys_ascend(front, key)) by {
            assert forall|i: int, j: int| 0 <= i <= j < front.len() implies key_le(
                key(#[trigger] front[i]),
                key(#[trigger] front[j]),
            ) by {
                assert(key_le(key(s[i]), key(s[j])));
            }
        }
        lemma_insert_sorted(front, v, key);
        let t = insert_sorted(front, v, key);
        assert(r == t.push(s.last()));
        assert(front.push(s.last()) =~= s);
        assert(r.to_multiset() =~= s.to_multiset().insert(v));
        assert forall|i: int, j: int| 0 <= i <= j < r.len() implies key_le(
            key(#[trigger] r[i]),
            key(#[trigger] r[j]),
        ) by {
            if j == t.len() {
                lemma_key_le_total(key(s.last()), key(s.last()));
                if i < t.len() {
                    assert(t.contains(t[i]));
                    if t[i] == v {
                        lemma_key_le_total(key(s.last()), key(v));
                    } else {
                        let p = choose|p: int| 0 <= p < front.len() && front[p] == t[i];
                        assert(key_le(key(s[p]), key(s[s.len() - 1])));
                    }
                }
            } else {
                assert(key_le(key(t[i]), key(t[j])));
            }
        }
        assert forall|x: V| #[trigger] r.contains(x) implies x == v || s.contains(x) by {
            let i = choose|i: int| 0 <= i < r.len() && r[i] == x;
            if i < t.len() {
                assert(t.contains(t[i]));
                if x != v {
                    let p = choose|p: int| 0 <= p < front.len() && front[p] == x;
                    assert(s[p] == x);
                }
            } else {
                assert(s[s.len() - 1] == x);
            }
        }
    }
}

/// Sorting puts keys in ascending order and keeps exactly the same values.
pub proof fn lemma_sort_by_key<V>(s: Seq<V>, key: spec_fn(V) -> SortKey)
    ensures
        keys_ascend(sort_by_key(s, key), key),
        sort_by_key(s, key).to_multiset() == s.to_multiset(),
        sort_by_key(s, key).len() == s.len(),
    decreases s.len(),
{
    broadcast use vstd::seq_lib::group_to_multiset_ensures;

    if s.len() == 0 {
        assert(s =~= Seq::empty());
    } else {
        lemma_sort_by_key(s.drop_last(), key);
        lemma_insert_sorted(sort_by_key(s.drop_last(), key), s.last(), key);
        assert(s.drop_last().push(s.last()) =~= s);
    }
}

proof fn lemma_insert_behind<V>(p: Seq<V>, s: Seq<V>, v: V, key: spec_fn(V) -> SortKey)
    requires
        forall|i: int| 0 <= i < p.len() ==> key_le(key(#[trigger] p[i]), key(v)),
    ensures
        insert_sorted(p + s, v, key) == p + insert_sorted(s, v, key),
    decreases s.len(),
{
    if s.len() == 0 {
        assert(p + s =~= p);
        assert(p.push(v) =~= p + seq![v]);
        if p.len() > 0 {
            assert(key_le(key(p[p.len() - 1]), key(v)));
        } else {
            assert(p + seq![v] =~= seq![v]);
        }
    } else {
        let all = p + s;
        assert(all.last() == s.last());
        assert(all.drop_last() =~= p + s.drop_last());
        lemma_insert_behind(p, s.drop_last(), v, key);
        if key_le(key(s.last()), key(v)) {
            assert(all.push(v) =~= p + s.push(v));
        } else {
            assert((p + insert_sorted(s.drop_last(), v, key)).push(s.last()) =~= p
                + insert_sorted(s.drop_last(), v, key).push(s.last()));
        }
    }
}

proof fn lemma_sort_contains<V>(s: Seq<V>, key: spec_fn(V) -> SortKey, v: V)
    requires
        sort_by_key(s, key).contains(v),
    ensures
        s.contains(v),
{
    broadcast use vstd::seq_lib::group_to_multiset_ensures;

    lemma_sort_by_key(s, key);
    assert(sort_by_key(s, key).to_multiset().count(v) > 0);
}

/// Where all of one sequence sorts before all of another, the two can be sorted
/// one after the other.
pub proof fn lemma_sort_concat<V>(p: Seq<V>, q: Seq<V>, key: spec_fn(V) -> SortKey)
    requires
        forall|i: int, j: int|
            0 <= i < p.len() && 0 <= j < q.len() ==> key_le(
                key(#[trigger] p[i]),
                key(#[trigger] q[j]),
            ),
    ensures
        sort_by_key(p + q, key) == sort_by_key(p, key) + sort_by_key(q, key),
    decreases q.len(),
{
    if q.len() == 0 {
        assert(p + q =~= p);
        assert(sort_by_key(p, key) + sort_by_key(q, key) =~= sort_by_key(p, key));
    } else {
        let front = q.drop_last();
        let v = q.last();
        assert((p + q).drop_last() =~= p + front);
        assert((p + q).last() == v);
        lemma_sort_concat(p, front, key);
        let sp = sort_by_key(p, key);
        assert forall|i: int| 0 <= i < sp.len() implies key_le(key(#[trigger] sp[i]), key(v)) by {
            assert(sp.contains(sp[i]));
            lemma_sort_contains(p, key, sp[i]);
            let k = p.index_of(sp[i]);
            assert(key_le(key(p[k]), key(q[q.len() - 1])));
        }
        lemma_insert_behind(sp, sort_by_key(front, key), v, key);
    }
}

/// Whether different elements have different keys.
pub open spec fn told_apart<V>(s: Seq<V>, key: spec_fn(V) -> SortKey) -> bool {
    forall|i: int, j: int|
        0 <= i < s.len() && 0 <= j < s.len() && key(#[trigger] s[i]) == key(#[trigger] s[j])
            ==> s[i] == s[j]
}

proof fn lemma_ascending_unique<V>(x: Seq<V>, y: Seq<V>, key: spec_fn(V) -> SortKey)
    requires
        keys_ascend(x, key),
        keys_ascend(y, key),
        told_apart(x, key),
        x.to_multiset() == y.to_multiset(),
    ensures
        x == y,
    decreases x.len(),
{
    broadcast use vstd::seq_lib::group_to_multiset_ensures;

    assert(x.len() == x.to_multiset().len() && y.len() == y.to_multiset().len());
    if x.len() == 0 {
        assert(x =~= y);
    } else {
        let a = x[0];
        let b = y[0];
        assert(x.contains(a));
        assert(x.to_multiset().count(a) > 0);
        assert(y.contains(a));
        assert(y.contains(b));
        assert(y.to_multiset().count(b) > 0);
        assert(x.contains(b));
        let i = y.index_of(a);
        let j = x.index_of(b);
        assert(key_le(key(y[0]), key(y[i])));
        assert(key_le(key(x[0]), key(x[j])));
        lemma_key_le_antisym(key(a), key(b));
        assert(x[0] == x[j]);
        let x1 = x.drop_first();
        let y1 = y.drop_first();
        assert(x =~= seq![a] + x1);
        assert(y =~= seq![a] + y1);
        assert(x1.to_multiset() =~= y1.to_multiset()) by {
            assert(x1 =~= x.remove(0));
            assert(y1 =~= y.remove(0));
            vstd::seq_lib::to_multiset_remove(x, 0);
            vstd::seq_lib::to_multiset_remove(y, 0);
        }
        assert forall|p: int, q: int| 0 <= p <= q < x1.len() implies key_le(
            key(#[trigger] x1[p]),
            key(#[trigger] x1[q]),
        ) by {
            assert(key_le(key(x[p + 1]), key(x[q + 1])));
        }
        assert forall|p: int, q: int| 0 <= p <= q < y1.len() implies key_le(
            key(#[trigger] y1[p]),
            key(#[trigger] y1[q]),
        ) by {
            assert(key_le(key(y[p + 1]), key(y[q + 1])));
        }
        assert forall|p: int, q: int|
            0 <= p < x1.len() && 0 <= q < x1.len() && key(#[trigger] x1[p]) == key(
                #[trigger] x1[q],
            ) implies x1[p] == x1[q] by {
            assert(x[p + 1] == x[q + 1]);
        }
        lemma_ascending_unique(x1, y1, key);
    }
}

/// Sorting does not depend on the order of arrival, where keys tell the
/// elements apart.
pub proof fn lemma_sort_permuted<V>(a: Seq<V>, b: Seq<V>, key: spec_fn(V) -> SortKey)
    requires
        a.to_multiset() == b.to_multiset(),
        told_apart(a, key),
    ensures
        sort_by_key(a, key) == sort_by_key(b, key),
{
    lemma_sort_by_key(a, key);
    lemma_sort_by_key(b, key);
    let x = sort_by_key(a, key);
    assert forall|i: int, j: int|
        0 <= i < x.len() && 0 <= j < x.len() && key(#[trigger] x[i]) == key(
            #[trigger] x[j],
        ) implies x[i] == x[j] by {
        assert(x.contains(x[i]) && x.contains(x[j]));
        lemma_sort_contains(a, key, x[i]);
        lemma_sort_contains(a, key, x[j]);
        let p = a.index_of(x[i]);
        let q = a.index_of(x[j]);
        assert(a[p] == a[q]);
    }
    lemma_ascending_unique(x, sort_by_key(b, key), key);
}

fn texts_at_most(a: &Vec<String>, b: &Vec<String>) -> (r: bool)
    ensures
        r == texts_le(a.deep_view(), b.deep_view()),
{
    let ghost x = a.deep_view();
    let ghost y = b.deep_view();
    assert(x.subrange(0, x.len() as int) =~= x);
    assert(y.subrange(0, y.len() as int) =~= y);
    let mut i: usize = 0;
    while i < a.len() && i < b.len() && a[i] == b[i]
        invariant
            i <= a@.len(),
            i <= b@.len(),
            x == a.deep_view(),
            y == b.deep_view(),
            texts_le(x, y) == texts_le(
                x.subrange(i as int, x.len() as int),
                y.subrange(i as int, y.len() as int),
            ),
        decreases a@.len() - i,
    {
        proof {
            let x1 = x.subrange(i as int, x.len() as int);
            let y1 = y.subrange(i as int, y.len() as int);
            assert(x1[0] == y1[0]);
            assert(x1.drop_first() =~= x.subrange(i + 1, x.len() as int));
            assert(y1.drop_first() =~= y.subrange(i + 1, y.len() as int));
        }
        i = i + 1;
    }
    if i >= a.len() {
        true
    } else if i >= b.len() {
        false
    } else {
        text_at_most(a[i].as_str(), b[i].as_str())
    }
}

fn same_texts(a: &Vec<String>, b: &Vec<String>) -> (r: bool)
    ensures
        r == (a.deep_view() == b.deep_view()),
{
    if a.len() != b.len() {
        assert(a.deep_view().len() != b.deep_view().len());
        return false;
    }
    let mut i: usize = 0;
    while i < a.len()
        invariant
            i <= a@.len(),
            a@.len() == b@.len(),
            forall|j: int| 0 <= j < i ==> a.deep_view()[j] == b.deep_view()[j],
        decreases a@.len() - i,
    {
        if a[i] != b[i] {
            assert(a.deep_view()[i as int] != b.deep_view()[i as int]);
            return false;
        }
        i = i + 1;
    }
    assert(a.deep_view() =~= b.deep_view());
    true
}

fn same_part(a: &KeyPart, b: &KeyPart) -> (r: bool)
    ensures
        r == (a.deep_view() == b.deep_view()),
{
    match (a, b) {
        (KeyPart::Num(x), KeyPart::Num(y)) => *x == *y,
        (KeyPart::Text(x), KeyPart::Text(y)) => *x == *y,
        (KeyPart::Texts(x), KeyPart::Texts(y)) => same_texts(x, y),
        _ => false,
    }
}

fn part_at_most(a: &KeyPart, b: &KeyPart) -> (r: bool)
    ensures
        r == part_le(a.deep_view(), b.deep_view()),
{
    match (a, b) {
        (KeyPart::Num(x), KeyPart::Num(y)) => *x <= *y,
        (KeyPart::Num(_), _) => true,
        (KeyPart::Text(_), KeyPart::Num(_)) => false,
        (KeyPart::Text(x), KeyPart::Text(y)) => text_at_most(x.as_str(), y.as_str()),
        (KeyPart::Text(_), KeyPart::Texts(_)) => true,
        (KeyPart::Texts(x), KeyPart::Texts(y)) => texts_at_most(x, y),
        (KeyPart::Texts(_), _) => false,
    }
}

/// Decides the order on sort keys.
pub fn key_at_most(a: &Vec<KeyPart>, b: &Vec<KeyPart>) -> (r: bool)
    ensures
        r == key_le(a.deep_view(), b.deep_view()),
{
    let ghost x = a.deep_view();
    let ghost y = b.deep_view();
    assert(x.subrange(0, x.len() as int) =~= x);
    assert(y.subrange(0, y.len() as int) =~= y);
    let mut i: usize = 0;
    while i < a.len() && i < b.len()
        invariant
            i <= a@.len(),
            i <= b@.len(),
            x == a.deep_view(),
            y == b.deep_view(),
            key_le(x, y) == key_le(
                x.subrange(i as int, x.len() as int),
                y.subrange(i as int, y.len() as int),
            ),
        decreases a@.len() - i,
    {
        proof {
            let x1 = x.subrange(i as int, x.len() as int);
            let y1 = y.subrange(i as int, y.len() as int);
            assert(x1[0] == a@[i as int].deep_view());
            assert(y1[0] == b@[i as int].deep_view());
            assert(x1.drop_first() =~= x.subrange(i + 1, x.len() as int));
            assert(y1.drop_first() =~= y.subrange(i + 1, y.len() as int));
        }
        if !same_part(&a[i], &b[i]) {
            return part_at_most(&a[i], &b[i]);
        }
        i = i + 1;
    }
    i >= a.len()
}

/// Sorts items by keys computed beforehand.
pub fn sort_keyed<T: DeepView>(
    items: Vec<T>,
    keys: Vec<Vec<KeyPart>>,
    Ghost(key): Ghost<spec_fn(T::V) -> SortKey>,
) -> (r: Vec<T>)
    requires
        keys@.len() == items@.len(),
        forall|i: int|
            0 <= i < items@.len() ==> (#[trigger] keys@[i]).deep_view() == key(
                items@[i].deep_view(),
            ),
    ensures
        r.deep_view() == sort_by_key(items.deep_view(), key),
{
    let ghost all = items.deep_view();
    let ghost n = items@.len();
    let mut rest = items;
    let mut rest_keys = keys;
    // Items leave from the back; reversing first restores the given order.
    let mut back: Vec<T> = Vec::new();
    let mut back_keys: Vec<Vec<KeyPart>> = Vec::new();
    while rest.len() > 0
        invariant
            rest@.len() == rest_keys@.len(),
            back@.len() == back_keys@.len(),
            rest@.len() + back@.len() == n,
            all.len() == n,
            forall|i: int| 0 <= i < rest@.len() ==> (#[trigger] rest@[i]).deep_view() == all[i],
            forall|i: int|
                0 <= i < back@.len() ==> (#[trigger] back@[i]).deep_view() == all[n - 1 - i],
            forall|i: int| 0 <= i < rest@.len() ==> (#[trigger] rest_keys@[i]).deep_view() == key(all[i]),
            forall|i: int|
                0 <= i < back@.len() ==> (#[trigger] back_keys@[i]).deep_view() == key(
                    all[n - 1 - i],
                ),
        decreases rest@.len(),
    {
        if let (Some(item), Some(k)) = (rest.pop(), rest_keys.pop()) {
            back.push(item);
            back_keys.push(k);
        }
    }
    let mut out: Vec<T> = Vec::new();
    let mut out_keys: Vec<Vec<KeyPart>> = Vec::new();
    while back.len() > 0
        invariant
            back@.len() == back_keys@.len(),
            out@.len() == out_keys@.len(),
            out@.len() + back@.len() == n,
            all.len() == n,
            forall|i: int|
                0 <= i < back@.len() ==> (#[trigger] back@[i]).deep_view() == all[n - 1 - i],
            forall|i: int|
                0 <= i < back@.len() ==> (#[trigger] back_keys@[i]).deep_view() == key(
                    all[n - 1 - i],
                ),
            out.deep_view() == sort_by_key(all.subrange(0, out@.len() as int), key),
            forall|i: int|
                0 <= i < out@.len() ==> (#[trigger] out_keys@[i]).deep_view() == key(
                    out@[i].deep_view(),
                ),
        decreases back@.len(),
    {
        if let (Some(item), Some(k)) = (back.pop(), back_keys.pop()) {
            let ghost m = out@.len();
            let ghost sorted = out.deep_view();
            let ghost v = item.deep_view();
            assert(v == all[m as int]);
            let mut j: usize = out.len();
            assert(sorted.subrange(0, j as int) =~= sorted);
            assert(insert_sorted(sorted, v, key) =~= insert_sorted(
                sorted.subrange(0, j as int),
                v,
                key,
            ) + sorted.subrange(j as int, m as int));
            while j > 0 && !key_at_most(&out_keys[j - 1], &k)
                invariant
                    j <= m,
                    m == out@.len(),
                    out@.len() == out_keys@.len(),
                    sorted == out.deep_view(),
                    k.deep_view() == key(v),
                    forall|i: int|
                        0 <= i < out@.len() ==> (#[trigger] out_keys@[i]).deep_view() == key(
                            out@[i].deep_view(),
                        ),
                    insert_sorted(sorted, v, key) == insert_sorted(
                        sorted.subrange(0, j as int),
                        v,
                        key,
                    ) + sorted.subrange(j as int, m as int),
                decreases j,
            {
                proof {
                    let front = sorted.subrange(0, j as int);
                    assert(front.last() == sorted[j - 1]);
                    assert(out_keys@[j - 1].deep_view() == key(out@[j - 1].deep_view()));
                    assert(front.drop_last() =~= sorted.subrange(0, j - 1));
                    assert(insert_sorted(front, v, key) == insert_sorted(
                        front.drop_last(),
                        v,
                        key,
                    ).push(front.last()));
                    assert(insert_sorted(front, v, key) + sorted.subrange(j as int, m as int)
                        =~= insert_sorted(front.drop_last(), v, key) + sorted.subrange(
                        j - 1,
                        m as int,
                    ));
                }
                j = j - 1;
            }
            proof {
                let front = sorted.subrange(0, j as int);
                if j > 0 {
                    assert(front.last() == sorted[j - 1]);
                    assert(out_keys@[j - 1].deep_view() == key(out@[j - 1].deep_view()));
                }
                assert(insert_sorted(front, v, key) =~= front.push(v));
            }
            let ghost old_out = out@;
            let ghost old_keys = out_keys@;
            out.insert(j, item);
            out_keys.insert(j, k);
            proof {
                assert(out.deep_view() =~= sorted.subrange(0, j as int).push(v) + sorted.subrange(
                    j as int,
                    m as int,
                ));
                let upto = all.subrange(0, (m + 1) as int);
                assert(upto.drop_last() =~= all.subrange(0, m as int));
                assert(upto.last() == v);
                assert forall|i: int| 0 <= i < out@.len() implies (#[trigger] out_keys@[i]).deep_view()
                    == key(out@[i].deep_view()) by {
                    if i < j {
                        assert(out_keys@[i] == old_keys[i]);
                        assert(out@[i] == old_out[i]);
                    } else if i > j {
                        assert(out_keys@[i] == old_keys[i - 1]);
                        assert(out@[i] == old_out[i - 1]);
                    }
                }
            }
        }
    }
    assert(all.subrange(0, n as int) =~= all);
    out
}

/// The rows of a table whose value satisfies a predicate, sorted by key.
pub open spec fn listed<K, V>(
    rows: Seq<(K, V)>,
    keep: spec_fn(V) -> bool,
    key: spec_fn(V) -> SortKey,
) -> Seq<V> {
    sort_by_key(table::values(rows).filter(keep), key)
}

/// Lists the values of a table that a predicate keeps, sorted by key.
pub fn listing<'a, K: Key, V: DeepView, P: Fn(&'a V) -> bool, F: Fn(&'a V) -> Vec<KeyPart>>(
    table: &'a Table<K, V>,
    keep_fn: P,
    key_fn: F,
    Ghost(keep): Ghost<spec_fn(V::V) -> bool>,
    Ghost(key): Ghost<spec_fn(V::V) -> SortKey>,
) -> (r: Vec<&'a V>)
    requires
        forall|v: &'a V| #[trigger] keep_fn.requires((v,)),
        forall|v: &'a V, b: bool| #[trigger] keep_fn.ensures((v,), b) ==> b == keep(v.deep_view()),
        forall|v: &'a V| #[trigger] key_fn.requires((v,)),
        forall|v: &'a V, k: Vec<KeyPart>| #[trigger]
            key_fn.ensures((v,), k) ==> k.deep_view() == key(v.deep_view()),
    ensures
        r.deep_view() == listed(table.rows(), keep, key),
{
    let ghost all = table::values(table.rows());
    let mut kept: Vec<&'a V> = Vec::new();
    let mut keys: Vec<Vec<KeyPart>> = Vec::new();
    let mut i: usize = 0;
    let n = table.len();
    while i < n
        invariant
            i <= n,
            n == table.rows().len(),
            all == table::values(table.rows()),
            kept@.len() == keys@.len(),
            kept.deep_view() == all.subrange(0, i as int).filter(keep),
            forall|j: int|
                0 <= j < kept@.len() ==> (#[trigger] keys@[j]).deep_view() == key(
                    kept@[j].deep_view(),
                ),
            forall|v: &'a V| #[trigger] keep_fn.requires((v,)),
            forall|v: &'a V, b: bool| #[trigger]
                keep_fn.ensures((v,), b) ==> b == keep(v.deep_view()),
            forall|v: &'a V| #[trigger] key_fn.requires((v,)),
            forall|v: &'a V, k: Vec<KeyPart>| #[trigger]
                key_fn.ensures((v,), k) ==> k.deep_view() == key(v.deep_view()),
        decreases n - i,
    {
        let v: &'a V = table.value_at(i);
        proof {
            let upto = all.subrange(0, i + 1);
            assert(upto.drop_last() =~= all.subrange(0, i as int));
            assert(upto.last() == v.deep_view());
            reveal(Seq::filter);
        }
        let ghost before = kept.deep_view();
        if keep_fn(v) {
            keys.push(key_fn(v));
            kept.push(v);
            assert(kept.deep_view() =~= before.push(v.deep_view()));
        }
        i = i + 1;
    }
    assert(all.subrange(0, n as int) =~= all);
    sort_keyed(kept, keys, Ghost(key))
}

/// A number that sorts where its negation does: the greatest first.
pub open spec fn opposite(n: int) -> int {
    -n
}

/// The negation of a number.
pub fn negated(n: u64) -> (r: i128)
    ensures
        r == opposite(n as int),
{
    -(n as i128)
}

/// The first element, if any.
pub open spec fn first<V>(s: Seq<V>) -> Option<V> {
    if s.len() > 0 {
        Some(s[0])
    } else {
        None
    }
}

/// Everything is kept.
pub open spec fn every<V>() -> spec_fn(V) -> bool {
    |v: V| true
}

/// The sequence without elements whose mark equals that of the one kept before
/// them.
pub open spec fn without_repeats<V, M>(s: Seq<V>, mark: spec_fn(V) -> M) -> Seq<V>
    decreases s.len(),
{
    if s.len() == 0 {
        s
    } else {
        let front = without_repeats(s.drop_last(), mark);
        if front.len() > 0 && mark(front.last()) == mark(s.last()) {
            front
        } else {
            front.push(s.last())
        }
    }
}

/// The items that a predicate keeps.
pub fn kept<'a, V: DeepView, P: Fn(&'a V) -> bool>(
    items: Vec<&'a V>,
    keep_fn: P,
    Ghost(keep): Ghost<spec_fn(V::V) -> bool>,
) -> (r: Vec<&'a V>)
    requires
        forall|v: &'a V| #[trigger] keep_fn.requires((v,)),
        forall|v: &'a V, b: bool| #[trigger] keep_fn.ensures((v,), b) ==> b == keep(v.deep_view()),
    ensures
        r.deep_view() == items.deep_view().filter(keep),
{
    let ghost all = items.deep_view();
    let mut r: Vec<&'a V> = Vec::new();
    let mut i: usize = 0;
    proof {
        reveal(Seq::filter);
        assert(r.deep_view() =~= all.subrange(0, 0).filter(keep));
    }
    while i < items.len()
        invariant
            i <= items@.len(),
            all == items.deep_view(),
            r.deep_view() == all.subrange(0, i as int).filter(keep),
            forall|v: &'a V| #[trigger] keep_fn.requires((v,)),
            forall|v: &'a V, b: bool| #[trigger]
                keep_fn.ensures((v,), b) ==> b == keep(v.deep_view()),
        decreases items@.len() - i,
    {
        let v: &'a V = items[i];
        proof {
            let upto = all.subrange(0, i + 1);
            assert(upto.drop_last() =~= all.subrange(0, i as int));
            assert(upto.last() == v.deep_view());
            reveal(Seq::filter);
        }
        let ghost before = r.deep_view();
        if keep_fn(v) {
            r.push(v);
            assert(r.deep_view() =~= before.push(v.deep_view()));
        }
        i = i + 1;
    }
    assert(all.subrange(0, i as int) =~= all);
    r
}

/// The items sorted by key.
pub fn sorted<'a, V: DeepView, F: Fn(&'a V) -> Vec<KeyPart>>(
    items: Vec<&'a V>,
    key_fn: F,
    Ghost(key): Ghost<spec_fn(V::V) -> SortKey>,
) -> (r: Vec<&'a V>)
    requires
        forall|v: &'a V| #[trigger] key_fn.requires((v,)),
        forall|v: &'a V, k: Vec<KeyPart>| #[trigger]
            key_fn.ensures((v,), k) ==> k.deep_view() == key(v.deep_view()),
    ensures
        r.deep_view() == sort_by_key(items.deep_view(), key),
{
    let mut keys: Vec<Vec<KeyPart>> = Vec::new();
    while keys.len() < items.len()
        invariant
            keys@.len() <= items@.len(),
            forall|j: int|
                0 <= j < keys@.len() ==> (#[trigger] keys@[j]).deep_view() == key(
                    items@[j].deep_view(),
                ),
            forall|v: &'a V| #[trigger] key_fn.requires((v,)),
            forall|v: &'a V, k: Vec<KeyPart>| #[trigger]
                key_fn.ensures((v,), k) ==> k.deep_view() == key(v.deep_view()),
        decreases items@.len() - keys@.len(),
    {
        let v: &'a V = items[keys.len()];
        keys.push(key_fn(v));
    }
    sort_keyed(items, keys, Ghost(key))
}

/// The items without repeats of the one before.
pub fn unrepeated<'a, V: DeepView, F: Fn(&'a V) -> String>(
    items: Vec<&'a V>,
    mark_fn: F,
    Ghost(mark): Ghost<spec_fn(V::V) -> Seq<char>>,
) -> (r: Vec<&'a V>)
    requires
        forall|v: &'a V| #[trigger] mark_fn.requires((v,)),
        forall|v: &'a V, k: String| #[trigger]
            mark_fn.ensures((v,), k) ==> k@ == mark(v.deep_view()),
    ensures
        r.deep_view() == without_repeats(items.deep_view(), mark),
{
    let ghost all = items.deep_view();
    let mut r: Vec<&'a V> = Vec::new();
    let mut i: usize = 0;
    assert(r.deep_view() =~= all.subrange(0, 0));
    while i < items.len()
        invariant
            i <= items@.len(),
            all == items.deep_view(),
            r.deep_view() == without_repeats(all.subrange(0, i as int), mark),
            forall|v: &'a V| #[trigger] mark_fn.requires((v,)),
            forall|v: &'a V, k: String| #[trigger]
                mark_fn.ensures((v,), k) ==> k@ == mark(v.deep_view()),
        decreases items@.len() - i,
    {
        let v: &'a V = items[i];
        proof {
            let upto = all.subrange(0, i + 1);
            assert(upto.drop_last() =~= all.subrange(0, i as int));
            assert(upto.last() == v.deep_view());
        }
        let ghost before = r.deep_view();
        let repeated = if r.len() > 0 {
            let last: &'a V = r[r.len() - 1];
            assert(before.last() == last.deep_view());
            let a = mark_fn(last);
            let b = mark_fn(v);
            a.same(&b)
        } else {
            false
        };
        if !repeated {
            r.push(v);
            assert(r.deep_view() =~= before.push(v.deep_view()));
        }
        i = i + 1;
    }
    assert(all.subrange(0, i as int) =~= all);
    r
}

/// The position of the first element that passes a test.
pub open spec fn first_where<V>(s: Seq<V>, test: spec_fn(V) -> bool) -> Option<int>
    decreases s.len(),
{
    if s.len() == 0 {
        None
    } else {
        match first_where(s.drop_last(), test) {
            Some(i) => Some(i),
            None => if test(s.last()) {
                Some(s.len() - 1)
            } else {
                None
            },
        }
    }
}

/// What the first element that passes a test is.
pub proof fn lemma_first_where<V>(s: Seq<V>, test: spec_fn(V) -> bool)
    ensures
        match first_where(s, test) {
            Some(i) => 0 <= i < s.len() && test(s[i]) && forall|j: int|
                0 <= j < i ==> !test(#[trigger] s[j]),
            None => forall|j: int| 0 <= j < s.len() ==> !test(#[trigger] s[j]),
        },
    decreases s.len(),
{
    if s.len() > 0 {
        let front = s.drop_last();
        lemma_first_where(front, test);
        match first_where(front, test) {
            Some(i) => {
                assert(front[i] == s[i]);
                assert forall|j: int| 0 <= j < i implies !test(#[trigger] s[j]) by {
                    assert(front[j] == s[j]);
                }
            },
            None => {
                assert forall|j: int| 0 <= j < s.len() - 1 implies !test(#[trigger] s[j]) by {
                    assert(front[j] == s[j]);
                }
            },
        }
    }
}

/// An element that passes a test, with none before it that does, is the first.
pub proof fn lemma_is_first_where<V>(s: Seq<V>, test: spec_fn(V) -> bool, i: int)
    requires
        0 <= i < s.len(),
        test(s[i]),
        forall|j: int| 0 <= j < i ==> !test(#[trigger] s[j]),
    ensures
        first_where(s, test) == Some(i),
{
    lemma_first_where(s, test);
    if let Some(k) = first_where(s, test) {
        if k < i {
            assert(!test(s[k]));
        } else if i < k {
            assert(!test(s[i]));
        }
    }
}

/// Finds the first element that passes a test.
pub fn find_first<'a, V: DeepView, P: Fn(&'a V) -> bool>(
    items: &'a Vec<V>,
    test_fn: P,
    Ghost(test): Ghost<spec_fn(V::V) -> bool>,
) -> (r: Option<usize>)
    requires
        forall|v: &'a V| #[trigger] test_fn.requires((v,)),
        forall|v: &'a V, b: bool| #[trigger] test_fn.ensures((v,), b) ==> b == test(v.deep_view()),
    ensures
        match r {
            Some(i) => i < items@.len() && first_where(items.deep_view(), test) == Some(i as int),
            None => first_where(items.deep_view(), test) is None,
        },
{
    let ghost all = items.deep_view();
    let mut i: usize = 0;
    while i < items.len()
        invariant
            i <= items@.len(),
            all == items.deep_view(),
            forall|j: int| 0 <= j < i ==> !test(#[trigger] all[j]),
            forall|v: &'a V| #[trigger] test_fn.requires((v,)),
            forall|v: &'a V, b: bool| #[trigger]
                test_fn.ensures((v,), b) ==> b == test(v.deep_view()),
        decreases items@.len() - i,
    {
        let v: &'a V = &items[i];
        assert(all[i as int] == v.deep_view());
        if test_fn(v) {
            proof {
                lemma_is_first_where(all, test, i as int);
            }
            return Some(i);
        }
        i = i + 1;
    }
    proof {
        lemma_first_where(all, test);
    }
    None
}

/// The position of the first least number.
pub open spec fn least_at(keys: Seq<u64>) -> int
    decreases keys.len(),
{
    if keys.len() <= 1 {
        0
    } else {
        let before = least_at(keys.drop_last());
        if keys.last() < keys[before] {
            keys.len() - 1
        } else {
            before
        }
    }
}

/// The first least number is no greater than any other and less than all before
/// it.
pub proof fn lemma_least_at(keys: Seq<u64>)
    requires
        keys.len() > 0,
    ensures
        0 <= least_at(keys) < keys.len(),
        forall|i: int| 0 <= i < keys.len() ==> keys[least_at(keys)] <= #[trigger] keys[i],
        forall|i: int| 0 <= i < least_at(keys) ==> keys[least_at(keys)] < #[trigger] keys[i],
    decreases keys.len(),
{
    if keys.len() > 1 {
        let front = keys.drop_last();
        lemma_least_at(front);
        let before = least_at(front);
        assert(front[before] == keys[before]);
        assert forall|i: int| 0 <= i < keys.len() implies keys[least_at(keys)]
            <= #[trigger] keys[i] by {
            if i < front.len() {
                assert(front[i] == keys[i]);
            }
        }
        assert forall|i: int| 0 <= i < least_at(keys) implies keys[least_at(keys)]
            < #[trigger] keys[i] by {
            assert(front[i] == keys[i]);
        }
    }
}

/// Finds the first least number.
pub fn find_least(keys: &Vec<u64>) -> (r: usize)
    requires
        keys@.len() > 0,
    ensures
        r == least_at(keys@),
        r < keys@.len(),
{
    let mut best: usize = 0;
    let mut i: usize = 1;
    assert(keys@.subrange(0, 1).len() == 1);
    while i < keys.len()
        invariant
            1 <= i <= keys@.len(),
            best == least_at(keys@.subrange(0, i as int)),
            best < i,
        decreases keys@.len() - i,
    {
        proof {
            let upto = keys@.subrange(0, i + 1);
            assert(upto.drop_last() =~= keys@.subrange(0, i as int));
            assert(upto.last() == keys@[i as int]);
            assert(upto[best as int] == keys@[best as int]);
        }
        if keys[i] < keys[best] {
            best = i;
        }
        i = i + 1;
    }
    assert(keys@.subrange(0, i as int) =~= keys@);
    best
}

/// Keys are compared by their first components, and by the rest where these are
/// equal.
pub proof fn lemma_key_le_parts(a: SortKey, b: SortKey)
    requires
        key_le(a, b),
        a.len() > 0,
        b.len() > 0,
    ensures
        part_le(a[0], b[0]),
        a[0] == b[0] ==> key_le(a.drop_first(), b.drop_first()),
{
    lemma_part_le(a[0], b[0], a[0]);
}

/// A sorted sequence holds what the sequence holds.
pub proof fn lemma_sorted_contains<V>(s: Seq<V>, key: spec_fn(V) -> SortKey, v: V)
    ensures
        sort_by_key(s, key).contains(v) <==> s.contains(v),
{
    broadcast use vstd::seq_lib::group_to_multiset_ensures;

    lemma_sort_by_key(s, key);
    assert(sort_by_key(s, key).to_multiset().count(v) == s.to_multiset().count(v));
}

/// A filtered sequence holds what the sequence holds and the test passes.
pub proof fn lemma_kept_contains<V>(s: Seq<V>, keep: spec_fn(V) -> bool, v: V)
    ensures
        s.filter(keep).contains(v) <==> s.contains(v) && keep(v),
    decreases s.len(),
{
    reveal(Seq::filter);
    if s.len() > 0 {
        let front = s.drop_last();
        lemma_kept_contains(front, keep, v);
        let kept = front.filter(keep);
        assert(s =~= front.push(s.last()));
        if front.contains(v) {
            assert(s[front.index_of(v)] == v);
        }
        if s.contains(v) && !front.contains(v) {
            let i = s.index_of(v);
            if i < front.len() {
                assert(front[i] == v);
            }
            assert(v == s.last());
        }
        if keep(s.last()) {
            let all = kept.push(s.last());
            assert(all[kept.len() as int] == s.last());
            if kept.contains(v) {
                assert(all[kept.index_of(v)] == v);
            }
            if all.contains(v) {
                let i = all.index_of(v);
                if i < kept.len() {
                    assert(kept[i] == v);
                } else {
                    assert(s[s.len() - 1] == v);
                }
            }
        }
    }
}

/// A listing holds exactly the values of a table that pass the test, each as
/// often as the table does, in ascending order of key.
pub proof fn lemma_listed<K, V>(
    rows: Seq<(K, V)>,
    keep: spec_fn(V) -> bool,
    key: spec_fn(V) -> SortKey,
)
    ensures
        forall|v: V| #[trigger]
            listed(rows, keep, key).contains(v) <==> table::values(rows).contains(v) && keep(v),
        keys_ascend(listed(rows, keep, key), key),
        listed(rows, keep, key).to_multiset() == table::values(rows).filter(keep).to_multiset(),
        listed(rows, keep, key).len() == table::values(rows).filter(keep).len(),
{
    let kept = table::values(rows).filter(keep);
    lemma_sort_by_key(kept, key);
    assert forall|v: V| #[trigger]
        listed(rows, keep, key).contains(v) <==> table::values(rows).contains(v) && keep(v) by {
        lemma_sorted_contains(kept, key, v);
        lemma_kept_contains(table::values(rows), keep, v);
    }
}

/// Different members of one list are no more than another list that holds them.
pub proof fn lemma_fits<A>(few: Seq<A>, many: Seq<A>)
    requires
        few.no_duplicates(),
        forall|i: int| 0 <= i < few.len() ==> many.contains(#[trigger] few[i]),
    ensures
        few.len() <= many.len(),
{
    few.unique_seq_to_set();
    many.lemma_cardinality_of_set();
    assert forall|x: A| few.to_set().contains(x) implies many.to_set().contains(x) by {
        let i = few.index_of(x);
        assert(many.contains(few[i]));
    }
    vstd::set_lib::lemma_len_subset(few.to_set(), many.to_set());
}

/// A filtered sequence holds nothing twice if the sequence does not.
pub proof fn lemma_kept_distinct<V>(s: Seq<V>, keep: spec_fn(V) -> bool)
    requires
        s.no_duplicates(),
    ensures
        s.filter(keep).no_duplicates(),
    decreases s.len(),
{
    reveal(Seq::filter);
    if s.len() > 0 {
        let front = s.drop_last();
        lemma_kept_distinct(front, keep);
        lemma_kept_contains(front, keep, s.last());
        assert(!front.contains(s.last())) by {
            if front.contains(s.last()) {
                let i = front.index_of(s.last());
                assert(s[i] == s[s.len() - 1]);
            }
        }
        let kept = front.filter(keep);
        let all = s.filter(keep);
        assert forall|i: int, j: int| 0 <= i < all.len() && 0 <= j < all.len() && i != j implies all[i]
            != all[j] by {
            if i < kept.len() {
                assert(kept.contains(kept[i]));
            }
            if j < kept.len() {
                assert(kept.contains(kept[j]));
            }
        }
    }
}

/// A sorted sequence holds nothing twice if the sequence does not.
pub proof fn lemma_sorted_distinct<V>(s: Seq<V>, key: spec_fn(V) -> SortKey)
    requires
        s.no_duplicates(),
    ensures
        sort_by_key(s, key).no_duplicates(),
{
    lemma_sort_by_key(s, key);
    s.lemma_multiset_has_no_duplicates();
    sort_by_key(s, key).lemma_multiset_has_no_duplicates_conv();
}

/// The first of a listing is there exactly when some value passes the test, and
/// no value that passes has a smaller key.
pub proof fn lemma_first_listed<K, V>(
    rows: Seq<(K, V)>,
    keep: spec_fn(V) -> bool,
    key: spec_fn(V) -> SortKey,
)
    ensures
        first(listed(rows, keep, key)) is Some <==> exists|v: V| #[trigger]
            table::values(rows).contains(v) && keep(v),
        first(listed(rows, keep, key)) matches Some(best) ==> table::values(rows).contains(best)
            && keep(best) && forall|v: V| #[trigger]
            table::values(rows).contains(v) && keep(v) ==> key_le(key(best), key(v)),
{
    let all = listed(rows, keep, key);
    lemma_listed(rows, keep, key);
    if all.len() > 0 {
        assert(all.contains(all[0]));
        assert forall|v: V| #[trigger] table::values(rows).contains(v) && keep(v) implies key_le(
            key(all[0]),
            key(v),
        ) by {
            assert(all.contains(v));
            let i = all.index_of(v);
            if i == 0 {
                lemma_key_le_total(key(v), key(v));
            } else {
                assert(key_le(key(all[0]), key(all[i])));
            }
        }
    }
    if exists|v: V| #[trigger] table::values(rows).contains(v) && keep(v) {
        let v = choose|v: V| #[trigger] table::values(rows).contains(v) && keep(v);
        assert(all.contains(v));
    }
}

} // verus!
